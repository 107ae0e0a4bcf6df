# rbatis

The parts of an ORM that decide something, verified with Verus:

- `src/tx.rs`: the transaction manager, its polling and the transaction guard.
  `src/context.rs` holds the open transactions in a `DashMap`.
- `src/plugin/intercept.rs`: the SQL interceptors.
- `src/py_sql.rs`: the code that the `py_sql` macro generates, on top of
  `src/tokens.rs`.
- `src/laws.rs`: what holds across calls.
- `src/text.rs`, `src/time.rs`, `src/log.rs`, `src/error.rs`: what the others are
  made of.

`app/` runs the library: tasks, locks, the database driver, the log plugin and
the entry of the macro. An operation that involves the database is called with an
event and answers with a step; `app/` carries the step out and comes back with
what happened.
