//! Transactions, SQL interceptors and the `py_sql` code generator of an ORM.
//!
//! Everything here decides and computes on plain values. Awaiting a database,
//! reading a clock, writing a log and spawning tasks belong to the caller, who
//! performs the actions that these functions hand out and reports back.

pub mod context;
pub mod error;
pub mod laws;
pub mod log;
pub mod plugin;
pub mod py_sql;
pub mod text;
pub mod time;
pub mod tokens;
pub mod tx;
