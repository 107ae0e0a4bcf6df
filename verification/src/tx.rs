//! The transaction manager.
//!
//! The manager rolls a transaction back once it has been open for longer than
//! `tx_lock_wait_timeout`, which is looked at every `tx_check_interval`. Once
//! it is no longer alive it rolls all of them back.
//!
//! Opening, committing and rolling back happen at a database, outside. Each of
//! these operations is called with an event and answers with a step: what to do
//! at the database next, or the result. One manager serves many tasks from
//! behind a lock, which is held for a call and not while a step is carried out.

use dashmap::mapref::one::RefMut;
use dashmap::DashMap;
use vstd::prelude::*;
use vstd::string::*;

use crate::context::{held, settles, Contexts};
use crate::error::Error;
use crate::log::{line_views, LogLine, LogPlugin};
use crate::text::{joined, starts_with};
use crate::time::{span_text, Instant, TimeSpan};

verus! {

/// A transaction that a database driver has open. The driver keeps the
/// connection; this is the number it is known by.
#[derive(Clone, Copy, Debug, PartialEq, Eq, Structural)]
pub struct DBTx {
    pub id: u64,
}

/// How far a transaction has come, and when it got there.
#[derive(Clone, Copy, Debug, PartialEq, Eq, Structural)]
pub enum TxState {
    StateBegin(Instant),
    StateFinish(Instant),
}

/// The transaction manager.
#[derive(Debug)]
pub struct TxManager {
    pub tx_prefix: String,
    pub tx_context: DashMap<String, (DBTx, TxState)>,
    pub tx_lock_wait_timeout: TimeSpan,
    pub tx_check_interval: TimeSpan,
    pub alive: bool,
    pub log_plugin: Option<LogPlugin>,
}

/// Where the beginning of a transaction stands.
pub enum BeginEvent {
    /// The transaction is asked for.
    Requested,
    /// The database was asked to open it and has answered, at this moment.
    Opened(Result<DBTx, Error>, Instant),
}

/// What the beginning of a transaction needs next.
pub enum BeginStep {
    /// Open a transaction at the database.
    Open,
    /// It is over. A transaction in `released` is no longer managed and is to be
    /// dropped.
    Done { result: Result<String, Error>, log: Option<LogLine>, released: Option<DBTx> },
}

/// How a transaction ends.
#[derive(Clone, Copy, Debug, PartialEq, Eq, Structural)]
pub enum Finish {
    Commit,
    Rollback,
}

/// Where the end of a transaction stands.
pub enum FinishEvent {
    /// The end is asked for.
    Requested,
    /// The database was asked to end it and has answered.
    Finished(Result<(), Error>),
}

/// What the end of a transaction needs next.
pub enum FinishStep {
    /// End this transaction at the database, in this way.
    Run(Finish, DBTx),
    /// It is over.
    Done { result: Result<String, Error>, log: Option<LogLine> },
}

/// What one round of polling has to roll back.
#[derive(Debug)]
pub struct PollQueue {
    /// The context ids, each once.
    pub ids: Vec<String>,
    /// How many of them have been dealt with.
    pub next: usize,
    /// The manager is no longer alive, and this is the last round.
    pub closing: bool,
}

/// What a round of polling needs next, and the lines to log before that.
pub struct PollStep {
    pub log: Vec<LogLine>,
    pub action: PollAction,
}

/// What a round of polling needs next.
pub enum PollAction {
    /// Roll this transaction back at the database. The answer goes to
    /// `TxManager::rollback`, and the round goes on.
    Rollback { context_id: String, tx: DBTx },
    /// Wait for this long and start the next round.
    Sleep(TimeSpan),
    /// Polling is over.
    Exit,
}

/// The message for an empty context id.
pub open spec fn empty_id_text() -> Seq<char> {
    "[rbatis] context_id can not be empty"@
}

/// The message for a context id that has no transaction.
pub open spec fn not_exist_text(id: Seq<char>) -> Seq<char> {
    "[rbatis] tx:"@ + id + " not exist！"@
}

/// The log line of an operation on a transaction.
pub open spec fn operation_text(id: Seq<char>, operation: Seq<char>) -> Seq<char> {
    "[rbatis] ["@ + id + operation
}

/// `log` is the line `text` under `id` where logging is on, and nothing where
/// it is off.
pub open spec fn logs(log: Option<LogLine>, on: bool, id: Seq<char>, text: Seq<char>) -> bool {
    match log {
        Some(line) => on && line@ == (id, text),
        None => !on,
    }
}

/// What `TxManager::begin` does: the manager `before`, the call and the manager
/// `after` with the answer.
pub open spec fn begins(
    before: TxManager,
    id: Seq<char>,
    event: BeginEvent,
    after: TxManager,
    step: BeginStep,
) -> bool {
    &&& after.settings_of(&before)
    &&& match event {
        BeginEvent::Requested => {
            &&& after.contexts() == before.contexts()
            &&& id.len() > 0 ==> step is Open
            &&& id.len() == 0 ==> begin_refused(step, None)
        },
        BeginEvent::Opened(Err(failure), now) => {
            &&& after.contexts() == before.contexts()
            &&& id.len() > 0 ==> step == (BeginStep::Done {
                result: Err(failure),
                log: None,
                released: None,
            })
            &&& id.len() == 0 ==> begin_refused(step, None)
        },
        BeginEvent::Opened(Ok(conn), now) => {
            &&& id.len() == 0 ==> {
                &&& after.contexts() == before.contexts()
                &&& begin_refused(step, Some(conn))
            }
            &&& id.len() > 0 ==> {
                &&& after.contexts() == before.contexts().insert(
                    id,
                    (conn, TxState::StateBegin(now)),
                )
                &&& step matches BeginStep::Done { result: Ok(answer), log, released }
                &&& answer@ == id
                &&& logs(log, before.logging(), id, operation_text(id, "] Begin"@))
                &&& released == connection_of(before.contexts(), id)
            }
        },
    }
}

/// `step` refuses an empty context id and hands back `released`.
pub open spec fn begin_refused(step: BeginStep, released: Option<DBTx>) -> bool {
    &&& step matches BeginStep::Done { result: Err(e), log: None, released: handed_back }
    &&& e@ == empty_id_text()
    &&& handed_back == released
}

/// The transaction that is open under `id`.
pub open spec fn connection_of(contexts: Contexts, id: Seq<char>) -> Option<DBTx> {
    if contexts.contains_key(id) {
        Some(contexts[id].0)
    } else {
        None
    }
}

/// The line that is logged when a transaction has ended.
pub open spec fn finish_text(finish: Finish, id: Seq<char>) -> Seq<char> {
    match finish {
        Finish::Commit => operation_text(id, "] Commit"@),
        Finish::Rollback => operation_text(id, "] Rollback"@),
    }
}

/// What `TxManager::commit` and `TxManager::rollback` do.
pub open spec fn finishes(
    finish: Finish,
    before: TxManager,
    id: Seq<char>,
    event: FinishEvent,
    after: TxManager,
    step: FinishStep,
) -> bool {
    &&& after.settings_of(&before)
    &&& match event {
        FinishEvent::Requested => {
            &&& after.contexts() == before.contexts().remove(id)
            &&& match connection_of(before.contexts(), id) {
                Some(conn) => step == FinishStep::Run(finish, conn),
                None => {
                    &&& step matches FinishStep::Done { result: Err(e), log: None }
                    &&& e@ == not_exist_text(id)
                },
            }
        },
        FinishEvent::Finished(Err(failure)) => {
            &&& after.contexts() == before.contexts()
            &&& step == (FinishStep::Done { result: Err(failure), log: None })
        },
        FinishEvent::Finished(Ok(_)) => {
            &&& after.contexts() == before.contexts()
            &&& step matches FinishStep::Done { result: Ok(answer), log }
            &&& answer@ == id
            &&& logs(log, before.logging(), id, finish_text(finish, id))
        },
    }
}

/// What `TxManager::get_mut` does: the manager `before`, the manager `after` the
/// guard has gone away, and the guard.
pub open spec fn gives_access(
    before: TxManager,
    id: Seq<char>,
    after: TxManager,
    r: Option<RefMut<'_, String, (DBTx, TxState)>>,
) -> bool {
    &&& after.settings_of(&before)
    &&& match r {
        Some(guard) => {
            &&& before.contexts().contains_key(id)
            &&& held(guard) == (id, before.contexts()[id])
            &&& after.contexts() == before.contexts().insert(id, settles(guard))
        },
        None => !before.contexts().contains_key(id) && after.contexts() == before.contexts(),
    }
}

/// A transaction in this state has been open for too long.
pub open spec fn expired(state: TxState, now: Instant, timeout: TimeSpan) -> bool {
    match state {
        TxState::StateBegin(since) => since.until(now) > timeout.total(),
        TxState::StateFinish(_) => false,
    }
}

/// Context ids by their texts.
pub open spec fn id_texts(ids: Seq<String>) -> Seq<Seq<char>> {
    ids.map_values(|id: String| id@)
}

/// The first of `ids`, from position `from` on, that is open; the number of
/// `ids` where none is.
pub open spec fn next_open(ids: Seq<Seq<char>>, from: int, contexts: Contexts) -> int
    decreases ids.len() - from,
{
    if from >= ids.len() {
        ids.len() as int
    } else if contexts.contains_key(ids[from]) {
        from
    } else {
        next_open(ids, from + 1, contexts)
    }
}

/// The line that says that a transaction has been open for longer than
/// `timeout`, in words.
pub open spec fn out_of_time_text(id: Seq<char>, timeout: Seq<char>) -> Seq<char> {
    "[rbatis] rollback context_id:"@ + id + ",out of time:"@ + timeout
}

/// The line that says why a transaction is rolled back.
pub open spec fn rollback_text(id: Seq<char>, closing: bool, timeout: TimeSpan) -> Seq<char> {
    if closing {
        "[rbatis] rollback context_id:"@ + id + ",Because the manager exits"@
    } else {
        out_of_time_text(id, span_text(timeout.secs, timeout.nanos))
    }
}

/// The lines that say why the transactions `ids` are rolled back.
pub open spec fn rollback_lines(
    ids: Seq<Seq<char>>,
    on: bool,
    closing: bool,
    timeout: TimeSpan,
) -> Seq<(Seq<char>, Seq<char>)> {
    if on {
        ids.map_values(|id: Seq<char>| (id, rollback_text(id, closing, timeout)))
    } else {
        Seq::empty()
    }
}

/// What `TxManager::polling_check` does: `queue` lists each transaction that is
/// due, once.
pub open spec fn starts_round(manager: TxManager, now: Instant, queue: PollQueue) -> bool {
    &&& queue.valid()
    &&& queue.next == 0
    &&& queue.closing == !manager.alive
    &&& id_texts(queue.ids@).no_duplicates()
    &&& id_texts(queue.ids@).to_set() == manager.due(now)
}

/// What `TxManager::poll_next` does: the manager and the queue `before`, and
/// both `after` with the answer.
pub open spec fn polls(
    before: TxManager,
    queue_before: PollQueue,
    after: TxManager,
    queue_after: PollQueue,
    step: PollStep,
) -> bool {
    let ids = id_texts(queue_before.ids@);
    let at = next_open(ids, queue_before.next as int, before.contexts());
    &&& after.settings_of(&before)
    &&& queue_after.ids == queue_before.ids
    &&& queue_after.closing == queue_before.closing
    &&& if at < ids.len() {
        &&& queue_after.next == at + 1
        &&& after.contexts() == before.contexts().remove(ids[at])
        &&& step.action matches PollAction::Rollback { context_id, tx }
        &&& context_id@ == ids[at]
        &&& tx == before.contexts()[ids[at]].0
    } else {
        &&& queue_after.next == ids.len()
        &&& after.contexts() == before.contexts()
        &&& step.action == (if queue_before.closing {
            PollAction::Exit
        } else {
            PollAction::Sleep(before.tx_check_interval)
        })
    }
    &&& line_views(step.log@) == rollback_lines(
        ids.subrange(queue_before.next as int, queue_after.next as int),
        before.logging(),
        queue_before.closing,
        before.tx_lock_wait_timeout,
    )
}

impl PollQueue {
    /// No more ids have been dealt with than there are.
    pub open spec fn valid(&self) -> bool {
        self.next <= self.ids@.len()
    }
}

impl TxManager {
    /// The open transactions, by context id.
    pub open spec fn contexts(&self) -> Contexts {
        crate::context::entries(self.tx_context)
    }

    /// Whether anything is logged.
    pub open spec fn logging(&self) -> bool {
        self.log_plugin matches Some(plugin) && plugin.enable
    }

    /// All but the open transactions is as in `before`.
    pub open spec fn settings_of(&self, before: &TxManager) -> bool {
        &&& self.tx_prefix == before.tx_prefix
        &&& self.tx_lock_wait_timeout == before.tx_lock_wait_timeout
        &&& self.tx_check_interval == before.tx_check_interval
        &&& self.alive == before.alive
        &&& self.log_plugin == before.log_plugin
    }

    /// The times are spans of time.
    pub open spec fn valid(&self) -> bool {
        self.tx_lock_wait_timeout.valid() && self.tx_check_interval.valid()
    }

    /// The context ids of the transactions that are to be rolled back: those
    /// that have been open for too long, and all of them once the manager is no
    /// longer alive.
    pub open spec fn due(&self, now: Instant) -> Set<Seq<char>> {
        Set::new(
            |id: Seq<char>|
                self.contexts().contains_key(id) && (!self.alive || expired(
                    self.contexts()[id].1,
                    now,
                    self.tx_lock_wait_timeout,
                )),
        )
    }

    /// A manager without open transactions. The caller shares it, behind a lock,
    /// and runs the polling.
    pub fn new_arc(
        tx_prefix: &str,
        plugin: LogPlugin,
        tx_lock_wait_timeout: TimeSpan,
        tx_check_interval: TimeSpan,
    ) -> (r: Self)
        requires
            tx_lock_wait_timeout.valid(),
            tx_check_interval.valid(),
        ensures
            r.valid(),
            r.contexts() == Contexts::empty(),
            r.tx_prefix@ == tx_prefix@,
            r.tx_lock_wait_timeout == tx_lock_wait_timeout,
            r.tx_check_interval == tx_check_interval,
            r.alive,
            r.log_plugin == Some(plugin),
    {
        TxManager {
            tx_prefix: tx_prefix.to_owned(),
            tx_context: crate::context::new_map(),
            tx_lock_wait_timeout,
            tx_check_interval,
            alive: true,
            log_plugin: Some(plugin),
        }
    }

    /// Nothing but `alive` differs from `before`.
    pub open spec fn differs_in_alive(&self, before: &TxManager) -> bool {
        &&& self.tx_prefix == before.tx_prefix
        &&& self.tx_context == before.tx_context
        &&& self.tx_lock_wait_timeout == before.tx_lock_wait_timeout
        &&& self.tx_check_interval == before.tx_check_interval
        &&& self.log_plugin == before.log_plugin
    }

    /// Says whether the manager is to go on.
    pub fn set_alive(&mut self, alive: bool)
        ensures
            final(self).alive == alive,
            final(self).differs_in_alive(old(self)),
    {
        self.alive = alive;
    }

    /// Whether the manager is to go on.
    pub fn get_alive(&self) -> (r: bool)
        ensures
            r == self.alive,
    {
        self.alive
    }

    /// Lets the manager end. The next round of polling rolls everything back and
    /// is the last.
    pub fn close(&mut self)
        ensures
            !final(self).alive,
            final(self).differs_in_alive(old(self)),
    {
        if self.get_alive() {
            self.set_alive(false);
        }
    }

    /// Whether `context_id` is that of a transaction: whether it begins with
    /// `tx_prefix`.
    pub fn is_tx_prifix_id(&self, context_id: &str) -> (r: bool)
        ensures
            r == crate::text::occurs_at(context_id@, self.tx_prefix@, 0),
    {
        starts_with(context_id, &self.tx_prefix)
    }

    /// Access to the transaction that is open under `context_id`, however long it
    /// has been. What the guard leaves behind is what is open under `context_id`
    /// from then on: what was last written through it, or the entry as it was.
    pub fn get_mut<'a>(&'a mut self, context_id: &str) -> (r: Option<
        RefMut<'a, String, (DBTx, TxState)>,
    >)
        ensures
            gives_access(*old(self), context_id@, *final(self), r),
            r matches Some(guard) ==> has_resolved(guard) ==> settles(guard)
                == old(self).contexts()[context_id@],
    {
        crate::context::get_mut(&mut self.tx_context, context_id)
    }

    /// Whether anything is logged.
    fn is_enable_log(&self) -> (r: bool)
        ensures
            r == self.logging(),
    {
        match &self.log_plugin {
            Some(plugin) => plugin.enable,
            None => false,
        }
    }

    /// The line for the log plugin, where logging is on.
    fn do_log(&self, context_id: &str, arg: String) -> (r: Option<LogLine>)
        ensures
            logs(r, self.logging(), context_id@, arg@),
    {
        if self.is_enable_log() {
            Some(LogLine { context_id: context_id.to_owned(), text: arg })
        } else {
            None
        }
    }

    /// Begins a transaction under `new_context_id`, which is the answer. One
    /// that is open under the same id gives way to the new one.
    pub fn begin(&mut self, new_context_id: &str, event: BeginEvent) -> (step: BeginStep)
        ensures
            begins(*old(self), new_context_id@, event, *final(self), step),
    {
        if new_context_id.is_empty() {
            let released: Option<DBTx> = match event {
                BeginEvent::Opened(Ok(conn), _) => Some(conn),
                _ => None,
            };
            let message: String = "[rbatis] context_id can not be empty".to_owned();
            return BeginStep::Done { result: Err(Error { message }), log: None, released };
        }
        match event {
            BeginEvent::Requested => BeginStep::Open,
            BeginEvent::Opened(Err(e), _) => BeginStep::Done {
                result: Err(e),
                log: None,
                released: None,
            },
            BeginEvent::Opened(Ok(conn), now) => {
                let replaced: Option<(DBTx, TxState)> = crate::context::insert(
                    &mut self.tx_context,
                    new_context_id.to_owned(),
                    (conn, TxState::StateBegin(now)),
                );
                let released: Option<DBTx> = match replaced {
                    Some(entry) => Some(entry.0),
                    None => None,
                };
                let log: Option<LogLine> = self.do_log(
                    new_context_id,
                    joined("[rbatis] [", new_context_id, "] Begin"),
                );
                BeginStep::Done { result: Ok(new_context_id.to_owned()), log, released }
            },
        }
    }

    /// Commits the transaction that is open under `context_id`. It is no longer
    /// managed from the moment the commit is asked for, whatever comes of it.
    pub fn commit(&mut self, context_id: &str, event: FinishEvent) -> (step: FinishStep)
        ensures
            finishes(Finish::Commit, *old(self), context_id@, event, *final(self), step),
    {
        match event {
            FinishEvent::Requested => self.hand_out(Finish::Commit, context_id),
            FinishEvent::Finished(Err(e)) => FinishStep::Done { result: Err(e), log: None },
            FinishEvent::Finished(Ok(_)) => {
                let log: Option<LogLine> = self.do_log(
                    context_id,
                    joined("[rbatis] [", context_id, "] Commit"),
                );
                FinishStep::Done { result: Ok(context_id.to_owned()), log }
            },
        }
    }

    /// Rolls back the transaction that is open under `context_id`. It is no
    /// longer managed from the moment this is asked for, whatever comes of it.
    pub fn rollback(&mut self, context_id: &str, event: FinishEvent) -> (step: FinishStep)
        ensures
            finishes(Finish::Rollback, *old(self), context_id@, event, *final(self), step),
    {
        match event {
            FinishEvent::Requested => self.hand_out(Finish::Rollback, context_id),
            FinishEvent::Finished(Err(e)) => FinishStep::Done { result: Err(e), log: None },
            FinishEvent::Finished(Ok(_)) => {
                let log: Option<LogLine> = self.do_log(
                    context_id,
                    joined("[rbatis] [", context_id, "] Rollback"),
                );
                FinishStep::Done { result: Ok(context_id.to_owned()), log }
            },
        }
    }

    /// Takes the transaction under `context_id` out of the open ones.
    fn hand_out(&mut self, finish: Finish, context_id: &str) -> (step: FinishStep)
        ensures
            final(self).settings_of(old(self)),
            final(self).contexts() == old(self).contexts().remove(context_id@),
            match connection_of(old(self).contexts(), context_id@) {
                Some(conn) => step == FinishStep::Run(finish, conn),
                None => {
                    &&& step matches FinishStep::Done { result: Err(e), log: None }
                    &&& e@ == not_exist_text(context_id@)
                },
            },
    {
        match crate::context::remove(&mut self.tx_context, context_id) {
            Some(entry) => FinishStep::Run(finish, entry.1.0),
            None => {
                let message: String = joined("[rbatis] tx:", context_id, " not exist！");
                FinishStep::Done { result: Err(Error { message }), log: None }
            },
        }
    }

    /// Starts a round of polling: finds out which transactions are to be rolled
    /// back.
    pub fn polling_check(&self, now: Instant) -> (queue: PollQueue)
        ensures
            starts_round(*self, now, queue),
    {
        let open: Vec<(String, (DBTx, TxState))> = crate::context::listed(&self.tx_context);
        let timeout: u128 = self.tx_lock_wait_timeout.as_nanos();
        let mut ids: Vec<String> = Vec::new();
        let mut i: usize = 0;
        while i < open.len()
            invariant
                i <= open@.len(),
                timeout == self.tx_lock_wait_timeout.total(),
                forall|a: int, b: int| 0 <= a < b < open@.len() ==> open@[a].0@ != open@[b].0@,
                forall|k: int|
                    0 <= k < open@.len() ==> self.contexts().contains_key((#[trigger] open@[k]).0@)
                        && self.contexts()[open@[k].0@] == open@[k].1,
                id_texts(ids@).no_duplicates(),
                forall|k: int|
                    #![trigger ids@[k]]
                    0 <= k < ids@.len() ==> self.due(now).contains(ids@[k]@) && exists|j: int|
                        0 <= j < i && (#[trigger] open@[j]).0@ == ids@[k]@,
                forall|j: int|
                    0 <= j < i && self.due(now).contains((#[trigger] open@[j]).0@) ==> id_texts(
                        ids@,
                    ).contains(open@[j].0@),
            decreases open@.len() - i,
        {
            let out_of_time: bool = match open[i].1.1 {
                TxState::StateBegin(since) => since.elapsed(now) > timeout,
                TxState::StateFinish(_) => false,
            };
            let ghost ids_before = ids@;
            if !self.alive || out_of_time {
                ids.push(open[i].0.clone());
                proof {
                    let id = open@[i as int].0@;
                    assert(id_texts(ids@) =~= id_texts(ids_before).push(id));
                    assert(!id_texts(ids_before).contains(id)) by {
                        if id_texts(ids_before).contains(id) {
                            let k = id_texts(ids_before).index_of(id);
                            assert(ids_before[k]@ == id);
                        }
                    }
                    assert(id_texts(ids@)[ids_before.len() as int] == id);
                    assert forall|x: Seq<char>| id_texts(ids_before).contains(x) implies id_texts(
                        ids@,
                    ).contains(x) by {
                        let k = id_texts(ids_before).index_of(x);
                        assert(id_texts(ids@)[k] == x);
                    }
                }
            }
            i = i + 1;
        }
        proof {
            assert forall|id: Seq<char>| self.due(now).contains(id) implies id_texts(
                ids@,
            ).contains(id) by {
                let j = choose|j: int| 0 <= j < open@.len() && (#[trigger] open@[j]).0@ == id;
                assert(open@[j].0@ == id);
            }
            assert forall|id: Seq<char>| id_texts(ids@).contains(id) implies self.due(
                now,
            ).contains(id) by {
                let k = id_texts(ids@).index_of(id);
                assert(ids@[k]@ == id);
            }
            assert(id_texts(ids@).to_set() =~= self.due(now));
        }
        PollQueue { ids, next: 0, closing: !self.alive }
    }

    /// Goes on with a round of polling. A transaction that was ended by other
    /// means since the round began is passed over.
    pub fn poll_next(&mut self, queue: &mut PollQueue) -> (step: PollStep)
        requires
            old(self).valid(),
            old(queue).valid(),
        ensures
            polls(*old(self), *old(queue), *final(self), *final(queue), step),
            final(queue).valid(),
    {
        let ghost ids = id_texts(queue.ids@);
        let ghost start = queue.next as int;
        let mut log: Vec<LogLine> = Vec::new();
        assert(ids.subrange(start, start) =~= Seq::empty());
        while queue.next < queue.ids.len()
            invariant
                old(self).valid(),
                self.settings_of(old(self)),
                self.contexts() == old(self).contexts(),
                queue.ids == old(queue).ids,
                queue.closing == old(queue).closing,
                ids == id_texts(queue.ids@),
                start == old(queue).next,
                start <= queue.next <= queue.ids@.len(),
                next_open(ids, start, self.contexts()) == next_open(
                    ids,
                    queue.next as int,
                    self.contexts(),
                ),
                line_views(log@) == rollback_lines(
                    ids.subrange(start, queue.next as int),
                    self.logging(),
                    queue.closing,
                    self.tx_lock_wait_timeout,
                ),
            decreases queue.ids@.len() - queue.next,
        {
            let at: usize = queue.next;
            let context_id: String = queue.ids[at].clone();
            let ghost log_before = log@;
            if self.is_enable_log() {
                let text: String = self.rollback_reason(&context_id, queue.closing);
                log.push(LogLine { context_id: context_id.clone(), text });
            }
            proof {
                if self.logging() {
                    assert(log@.drop_last() =~= log_before);
                }
                lemma_one_more_line(
                    log_before,
                    log@,
                    ids,
                    start,
                    at as int,
                    self.logging(),
                    queue.closing,
                    self.tx_lock_wait_timeout,
                );
            }
            queue.next = at + 1;
            match self.rollback(&context_id, FinishEvent::Requested) {
                FinishStep::Run(_, tx) => {
                    return PollStep { log, action: PollAction::Rollback { context_id, tx } };
                },
                FinishStep::Done { result: _, log: _ } => {
                    assert(self.contexts() =~= old(self).contexts());
                },
            }
        }
        if queue.closing {
            return PollStep { log, action: PollAction::Exit };
        }
        if queue.ids.len() > 0 {
            crate::context::shrink_to_fit(&mut self.tx_context);
        }
        PollStep { log, action: PollAction::Sleep(self.tx_check_interval) }
    }

    /// Says why the transaction under `context_id` is rolled back.
    fn rollback_reason(&self, context_id: &str, closing: bool) -> (r: String)
        requires
            self.valid(),
        ensures
            r@ == rollback_text(context_id@, closing, self.tx_lock_wait_timeout),
    {
        if closing {
            joined("[rbatis] rollback context_id:", context_id, ",Because the manager exits")
        } else {
            out_of_time_line(context_id, &self.tx_lock_wait_timeout.to_text())
        }
    }
}

/// The transaction that `guard` gives access to, to be read and written. What is
/// written is what the guard leaves behind where nothing is written after that.
pub fn entry_mut<'g, 'a>(
    guard: &'g mut RefMut<'a, String, (DBTx, TxState)>,
) -> (entry: &'g mut (DBTx, TxState))
    ensures
        *entry == held(*old(guard)).1,
        held(*final(guard)) == (held(*old(guard)).0, *final(entry)),
        settles(*final(guard)) == settles(*old(guard)),
        has_resolved(*final(guard)) ==> settles(*final(guard)) == *final(entry),
{
    crate::context::value_mut(guard)
}

/// Says that the transaction under `context_id` has been open for longer than
/// `timeout`, in words.
pub fn out_of_time_line(context_id: &str, timeout: &str) -> (r: String)
    ensures
        r@ == out_of_time_text(context_id@, timeout@),
{
    let mut text: String = joined("[rbatis] rollback context_id:", context_id, ",out of time:");
    text.append(timeout);
    text
}

/// The lines for the ids up to `at` and the one for `at`.
proof fn lemma_one_more_line(
    before: Seq<LogLine>,
    after: Seq<LogLine>,
    ids: Seq<Seq<char>>,
    start: int,
    at: int,
    on: bool,
    closing: bool,
    timeout: TimeSpan,
)
    requires
        0 <= start <= at < ids.len(),
        line_views(before) == rollback_lines(ids.subrange(start, at), on, closing, timeout),
        on ==> after.len() == before.len() + 1 && after.drop_last() == before && after.last()@ == (
            ids[at],
            rollback_text(ids[at], closing, timeout),
        ),
        !on ==> after == before,
    ensures
        line_views(after) == rollback_lines(ids.subrange(start, at + 1), on, closing, timeout),
{
    if on {
        assert(ids.subrange(start, at + 1) =~= ids.subrange(start, at).push(ids[at]));
        assert(line_views(after) =~= line_views(before).push(after.last()@));
        assert(rollback_lines(ids.subrange(start, at + 1), on, closing, timeout)
            =~= rollback_lines(ids.subrange(start, at), on, closing, timeout).push(
            (ids[at], rollback_text(ids[at], closing, timeout)),
        ));
    }
}

/// Where an attempt of a guard to end its transaction stands.
pub enum GuardEvent {
    /// The end is asked for.
    Requested,
    /// The manager was asked to end it and has answered.
    Finished(Result<String, Error>),
}

/// What an attempt of a guard to end its transaction needs next.
pub enum GuardStep {
    /// Have the manager end this transaction, in this way.
    Run { finish: Finish, tx_id: String },
    /// It is over.
    Done(Result<String, Error>),
}

/// What is left to do when a guard goes away: have the manager end this
/// transaction, in this way.
#[derive(Debug)]
pub struct GuardEnd<M> {
    pub finish: Finish,
    pub manager: M,
    pub tx_id: String,
}

/// A guard of a transaction, like the guard of a lock: when it goes away, the
/// transaction is committed or rolled back. `M` is how its owner gets hold of
/// the manager; a guard without one has ended its transaction.
#[derive(Debug)]
pub struct TxGuard<M> {
    pub tx_id: String,
    pub is_drop_commit: bool,
    pub manager: Option<M>,
}

/// What `TxGuard::try_commit` and `TxGuard::try_rollback` do.
pub open spec fn tries<M>(
    finish: Finish,
    before: TxGuard<M>,
    event: GuardEvent,
    after: TxGuard<M>,
    step: GuardStep,
) -> bool {
    &&& after.tx_id == before.tx_id
    &&& after.is_drop_commit == before.is_drop_commit
    &&& if before.manager is None {
        &&& after.manager is None
        &&& step matches GuardStep::Done(Ok(id))
        &&& id@ == before.tx_id@
    } else {
        match event {
            GuardEvent::Requested => {
                &&& after.manager == before.manager
                &&& step matches GuardStep::Run { finish: wanted, tx_id }
                &&& wanted == finish
                &&& tx_id@ == before.tx_id@
            },
            GuardEvent::Finished(Ok(id)) => after.manager is None && step == GuardStep::Done(
                Ok(id),
            ),
            GuardEvent::Finished(Err(e)) => after.manager == before.manager && step
                == GuardStep::Done(Err(e)),
        }
    }
}

/// What `TxGuard::on_drop` does.
pub open spec fn drops<M>(
    before: TxGuard<M>,
    after: TxGuard<M>,
    r: Option<GuardEnd<M>>,
) -> bool {
    &&& after.manager is None
    &&& after.tx_id == before.tx_id
    &&& after.is_drop_commit == before.is_drop_commit
    &&& match before.manager {
        None => r is None,
        Some(manager) => {
            &&& r matches Some(end)
            &&& end.finish == (if before.is_drop_commit {
                Finish::Commit
            } else {
                Finish::Rollback
            })
            &&& end.manager == manager
            &&& end.tx_id@ == before.tx_id@
        },
    }
}

impl<M> TxGuard<M> {
    /// A guard of the transaction `tx_id`, which commits it when it goes away if
    /// `is_drop_commit`, and rolls it back otherwise.
    pub fn new(tx_id: &str, is_drop_commit: bool, manager: M) -> (r: Self)
        ensures
            r.tx_id@ == tx_id@,
            r.is_drop_commit == is_drop_commit,
            r.manager == Some(manager),
    {
        TxGuard { tx_id: tx_id.to_owned(), is_drop_commit, manager: Some(manager) }
    }

    /// Commits the transaction, unless it has been ended. An attempt that failed
    /// can be made again.
    pub fn try_commit(&mut self, event: GuardEvent) -> (step: GuardStep)
        ensures
            tries(Finish::Commit, *old(self), event, *final(self), step),
    {
        if self.manager.is_some() {
            match event {
                GuardEvent::Requested => {
                    return GuardStep::Run {
                        finish: Finish::Commit,
                        tx_id: self.tx_id.clone(),
                    };
                },
                GuardEvent::Finished(Ok(id)) => {
                    self.manager = None;
                    return GuardStep::Done(Ok(id));
                },
                GuardEvent::Finished(Err(e)) => {
                    return GuardStep::Done(Err(e));
                },
            }
        }
        GuardStep::Done(Ok(self.tx_id.clone()))
    }

    /// Rolls the transaction back, unless it has been ended. An attempt that
    /// failed can be made again.
    pub fn try_rollback(&mut self, event: GuardEvent) -> (step: GuardStep)
        ensures
            tries(Finish::Rollback, *old(self), event, *final(self), step),
    {
        if self.manager.is_some() {
            match event {
                GuardEvent::Requested => {
                    return GuardStep::Run {
                        finish: Finish::Rollback,
                        tx_id: self.tx_id.clone(),
                    };
                },
                GuardEvent::Finished(Ok(id)) => {
                    self.manager = None;
                    return GuardStep::Done(Ok(id));
                },
                GuardEvent::Finished(Err(e)) => {
                    return GuardStep::Done(Err(e));
                },
            }
        }
        GuardStep::Done(Ok(self.tx_id.clone()))
    }

    /// What is left to do when the guard goes away: nothing, if it has ended its
    /// transaction.
    pub fn on_drop(&mut self) -> (r: Option<GuardEnd<M>>)
        ensures
            drops(*old(self), *final(self), r),
    {
        let tx_id: String = self.tx_id.clone();
        match self.manager.take() {
            None => None,
            Some(manager) => {
                let finish: Finish = if self.is_drop_commit {
                    Finish::Commit
                } else {
                    Finish::Rollback
                };
                Some(GuardEnd { finish, manager, tx_id })
            },
        }
    }
}

} // verus!
