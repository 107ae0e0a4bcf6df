//! What each call of a manager answers and changes.

use dashmap::mapref::one::RefMut;
use vstd::prelude::*;

use crate::context::{entries, held, settles};
use crate::error::Error;
use crate::log::{LogLine, LogPlugin};
use crate::time::{Instant, TimeSpan};
use crate::tx::{
    entry_mut, BeginEvent, BeginStep, DBTx, Finish, FinishEvent, FinishStep, TxManager, TxState,
};

verus! {

/// All that a manager was made with, and whether it is alive, stays.
pub open spec fn keeps_settings(before: TxManager, after: TxManager) -> bool {
    &&& after.tx_prefix@ == before.tx_prefix@
    &&& after.tx_lock_wait_timeout == before.tx_lock_wait_timeout
    &&& after.tx_check_interval == before.tx_check_interval
    &&& after.alive == before.alive
    &&& after.log_plugin == before.log_plugin
}

/// The same transactions are open, each as it was.
pub open spec fn keeps_all(before: TxManager, after: TxManager) -> bool {
    &&& keeps_settings(before, after)
    &&& entries(after.tx_context) == entries(before.tx_context)
}

/// The same transactions are open, each as it was, the one under `id` put aside.
pub open spec fn keeps_others(before: TxManager, after: TxManager, id: Seq<char>) -> bool {
    &&& keeps_settings(before, after)
    &&& forall|other: Seq<char>|
        #![trigger entries(before.tx_context).contains_key(other)]
        #![trigger entries(after.tx_context).contains_key(other)]
        other != id ==> entries(after.tx_context).contains_key(other) == entries(
            before.tx_context,
        ).contains_key(other)
    &&& forall|other: Seq<char>|
        #![trigger entries(before.tx_context)[other]]
        #![trigger entries(after.tx_context)[other]]
        other != id && entries(before.tx_context).contains_key(other) ==> entries(
            after.tx_context,
        )[other] == entries(before.tx_context)[other]
}

/// A transaction is open under `id`.
pub open spec fn is_open(manager: TxManager, id: Seq<char>) -> bool {
    entries(manager.tx_context).contains_key(id)
}

/// The transaction that is open under `id`, and its state.
pub open spec fn open_under(manager: TxManager, id: Seq<char>) -> (DBTx, TxState) {
    entries(manager.tx_context)[id]
}

/// Logging is on.
pub open spec fn is_logging(manager: TxManager) -> bool {
    manager.log_plugin == Some(LogPlugin { enable: true })
}

/// `log` is one line under `id` where the manager logs, and nothing where it does
/// not.
pub open spec fn has_line(
    manager: TxManager,
    log: Option<LogLine>,
    id: Seq<char>,
    text: Seq<char>,
) -> bool {
    &&& log is Some <==> is_logging(manager)
    &&& log matches Some(line) ==> line.context_id@ == id && line.text@ == text
}

/// A new manager is alive, has what it was made with and nothing open.
pub proof fn law_new_manager(
    tx_prefix: &str,
    plugin: LogPlugin,
    timeout: TimeSpan,
    interval: TimeSpan,
    manager: TxManager,
)
    requires
        call_ensures(TxManager::new_arc, (tx_prefix, plugin, timeout, interval), manager),
    ensures
        manager.alive,
        manager.tx_prefix@ == tx_prefix@,
        manager.tx_lock_wait_timeout == timeout,
        manager.tx_check_interval == interval,
        is_logging(manager) == plugin.enable,
        forall|id: Seq<char>| !#[trigger] is_open(manager, id),
{
}

/// What was said of a manager's life last is what it answers, and nothing else of
/// it changes; closing it is to say that it ends.
pub proof fn law_alive(set: &mut TxManager, closed: &mut TxManager, alive: bool, answer: bool)
    requires
        call_ensures(TxManager::set_alive, (set, alive), ()),
        call_ensures(TxManager::get_alive, (final(set),), answer),
        call_ensures(TxManager::close, (closed,), ()),
    ensures
        answer == alive,
        final(set).tx_prefix@ == old(set).tx_prefix@,
        final(set).tx_lock_wait_timeout == old(set).tx_lock_wait_timeout,
        final(set).tx_check_interval == old(set).tx_check_interval,
        final(set).log_plugin == old(set).log_plugin,
        entries(final(set).tx_context) == entries(old(set).tx_context),
        !final(closed).alive,
        final(closed).tx_prefix@ == old(closed).tx_prefix@,
        final(closed).tx_lock_wait_timeout == old(closed).tx_lock_wait_timeout,
        final(closed).tx_check_interval == old(closed).tx_check_interval,
        final(closed).log_plugin == old(closed).log_plugin,
        entries(final(closed).tx_context) == entries(old(closed).tx_context),
{
}

/// An id is that of a transaction exactly where it is the prefix with something, or
/// nothing, behind it.
pub proof fn law_prefix(manager: &TxManager, id: &str, r: bool)
    requires
        call_ensures(TxManager::is_tx_prifix_id, (manager, id), r),
    ensures
        r <==> exists|rest: Seq<char>| id@ == #[trigger] (manager.tx_prefix@ + rest),
{
    let prefix = manager.tx_prefix@;
    if r {
        assert(id@ =~= prefix + id@.skip(prefix.len() as int));
    }
    if exists|rest: Seq<char>| id@ == #[trigger] (prefix + rest) {
        let rest = choose|rest: Seq<char>| id@ == #[trigger] (prefix + rest);
        assert(id@.subrange(0, prefix.len() as int) =~= prefix);
    }
}

/// Whatever is open in a manager, and under whatever id but the empty one, who asks
/// for a transaction is told to open one at the database. Nothing changes by asking.
pub proof fn law_begin_opens(manager: &mut TxManager, id: &str, step: BeginStep)
    requires
        call_ensures(TxManager::begin, (manager, id, BeginEvent::Requested), step),
        id@.len() > 0,
    ensures
        step is Open,
        keeps_all(*old(manager), *final(manager)),
{
}

/// The empty id is refused, whatever has happened at the database, and a connection
/// that was opened all the same is given back.
pub proof fn law_begin_needs_an_id(
    manager: &mut TxManager,
    id: &str,
    event: BeginEvent,
    step: BeginStep,
)
    requires
        call_ensures(TxManager::begin, (manager, id, event), step),
        id@.len() == 0,
    ensures
        step matches BeginStep::Done { result: Err(e), log: None, released } && e.message@
            == "[rbatis] context_id can not be empty"@ && (match event {
            BeginEvent::Opened(Ok(conn), _) => released == Some(conn),
            _ => released is None,
        }),
        keeps_all(*old(manager), *final(manager)),
{
}

/// Where the database does not open a transaction, its error is the answer, and
/// nothing changes.
pub proof fn law_begin_fails_with_the_database(
    manager: &mut TxManager,
    id: &str,
    failure: Error,
    now: Instant,
    step: BeginStep,
)
    requires
        call_ensures(
            TxManager::begin,
            (manager, id, BeginEvent::Opened(Err(failure), now)),
            step,
        ),
        id@.len() > 0,
    ensures
        step matches BeginStep::Done { result: Err(e), log: None, released: None } && e == failure,
        keeps_all(*old(manager), *final(manager)),
{
}

/// What the database has opened is open under its id from now on, beside all that
/// was open before. One under the same id is given back.
pub proof fn law_begun_is_open(
    manager: &mut TxManager,
    id: &str,
    conn: DBTx,
    now: Instant,
    step: BeginStep,
)
    requires
        call_ensures(TxManager::begin, (manager, id, BeginEvent::Opened(Ok(conn), now)), step),
        id@.len() > 0,
    ensures
        is_open(*final(manager), id@),
        open_under(*final(manager), id@) == (conn, TxState::StateBegin(now)),
        keeps_others(*old(manager), *final(manager), id@),
        step matches BeginStep::Done { result: Ok(answer), log, released } && answer@ == id@
            && has_line(*old(manager), log, id@, "[rbatis] ["@ + id@ + "] Begin"@) && (released
            is Some <==> is_open(*old(manager), id@)) && (released matches Some(first) ==> first
            == open_under(*old(manager), id@).0),
{
}

/// While one transaction is open another can be begun under another id: a
/// connection is opened for it too, and then both are open, each under its own.
pub proof fn law_transactions_begin_side_by_side(
    first: &mut TxManager,
    asked: &mut TxManager,
    second: &mut TxManager,
    id1: &str,
    id2: &str,
    conn1: DBTx,
    conn2: DBTx,
    now1: Instant,
    now2: Instant,
    step1: BeginStep,
    asking: BeginStep,
    step2: BeginStep,
)
    requires
        id1@.len() > 0,
        id2@.len() > 0,
        id1@ != id2@,
        call_ensures(TxManager::begin, (first, id1, BeginEvent::Opened(Ok(conn1), now1)), step1),
        *old(asked) == *final(first),
        call_ensures(TxManager::begin, (asked, id2, BeginEvent::Requested), asking),
        *old(second) == *final(asked),
        call_ensures(TxManager::begin, (second, id2, BeginEvent::Opened(Ok(conn2), now2)), step2),
    ensures
        asking is Open,
        is_open(*final(second), id1@) && is_open(*final(second), id2@),
        open_under(*final(second), id1@) == (conn1, TxState::StateBegin(now1)),
        open_under(*final(second), id2@) == (conn2, TxState::StateBegin(now2)),
        forall|other: Seq<char>|
            other != id1@ && other != id2@ ==> #[trigger] is_open(*final(second), other) == is_open(
                *old(first),
                other,
            ),
{
}

/// Who asks for the commit of what is open is handed it, to be committed; it is then
/// no longer open, and all else stays.
pub proof fn law_commit_hands_out(manager: &mut TxManager, id: &str, step: FinishStep)
    requires
        call_ensures(TxManager::commit, (manager, id, FinishEvent::Requested), step),
        is_open(*old(manager), id@),
    ensures
        step == FinishStep::Run(Finish::Commit, open_under(*old(manager), id@).0),
        !is_open(*final(manager), id@),
        keeps_others(*old(manager), *final(manager), id@),
{
}

/// Who asks for the rollback of what is open is handed it, to be rolled back; it is
/// then no longer open, and all else stays.
pub proof fn law_rollback_hands_out(manager: &mut TxManager, id: &str, step: FinishStep)
    requires
        call_ensures(TxManager::rollback, (manager, id, FinishEvent::Requested), step),
        is_open(*old(manager), id@),
    ensures
        step == FinishStep::Run(Finish::Rollback, open_under(*old(manager), id@).0),
        !is_open(*final(manager), id@),
        keeps_others(*old(manager), *final(manager), id@),
{
}

/// What is not open can neither be committed nor rolled back: the answer says so,
/// and nothing changes.
pub proof fn law_nothing_to_end(
    committed: &mut TxManager,
    rolled_back: &mut TxManager,
    id: &str,
    commit_step: FinishStep,
    rollback_step: FinishStep,
)
    requires
        call_ensures(TxManager::commit, (committed, id, FinishEvent::Requested), commit_step),
        call_ensures(TxManager::rollback, (rolled_back, id, FinishEvent::Requested), rollback_step),
        !is_open(*old(committed), id@),
        !is_open(*old(rolled_back), id@),
    ensures
        commit_step matches FinishStep::Done { result: Err(e), log: None } && e.message@
            == "[rbatis] tx:"@ + id@ + " not exist！"@,
        rollback_step matches FinishStep::Done { result: Err(e), log: None } && e.message@
            == "[rbatis] tx:"@ + id@ + " not exist！"@,
        keeps_all(*old(committed), *final(committed)),
        keeps_all(*old(rolled_back), *final(rolled_back)),
{
    assert(entries(final(committed).tx_context) =~= entries(old(committed).tx_context));
    assert(entries(final(rolled_back).tx_context) =~= entries(old(rolled_back).tx_context));
}

/// Where the database does not end a transaction, its error is the answer. Nothing
/// changes by the database's answer.
pub proof fn law_end_fails_with_the_database(
    committed: &mut TxManager,
    rolled_back: &mut TxManager,
    id: &str,
    failure: Error,
    commit_step: FinishStep,
    rollback_step: FinishStep,
)
    requires
        call_ensures(
            TxManager::commit,
            (committed, id, FinishEvent::Finished(Err(failure))),
            commit_step,
        ),
        call_ensures(
            TxManager::rollback,
            (rolled_back, id, FinishEvent::Finished(Err(failure))),
            rollback_step,
        ),
    ensures
        commit_step matches FinishStep::Done { result: Err(e), log: None } && e == failure,
        rollback_step matches FinishStep::Done { result: Err(e), log: None } && e == failure,
        keeps_all(*old(committed), *final(committed)),
        keeps_all(*old(rolled_back), *final(rolled_back)),
{
}

/// Where the database has ended a transaction, its id is the answer, and the log
/// says which end it came to.
pub proof fn law_end_is_told(
    committed: &mut TxManager,
    rolled_back: &mut TxManager,
    id: &str,
    commit_step: FinishStep,
    rollback_step: FinishStep,
)
    requires
        call_ensures(
            TxManager::commit,
            (committed, id, FinishEvent::Finished(Ok(()))),
            commit_step,
        ),
        call_ensures(
            TxManager::rollback,
            (rolled_back, id, FinishEvent::Finished(Ok(()))),
            rollback_step,
        ),
    ensures
        commit_step matches FinishStep::Done { result: Ok(answer), log } && answer@ == id@
            && has_line(*old(committed), log, id@, "[rbatis] ["@ + id@ + "] Commit"@),
        rollback_step matches FinishStep::Done { result: Ok(answer), log } && answer@ == id@
            && has_line(*old(rolled_back), log, id@, "[rbatis] ["@ + id@ + "] Rollback"@),
        keeps_all(*old(committed), *final(committed)),
        keeps_all(*old(rolled_back), *final(rolled_back)),
{
}

/// A transaction that was begun under an id is the one that is handed out for its
/// commit, and who comes after that with a rollback finds nothing.
pub proof fn law_begun_is_committed_once(
    begun: &mut TxManager,
    committed: &mut TxManager,
    rolled_back: &mut TxManager,
    id: &str,
    conn: DBTx,
    now: Instant,
    step1: BeginStep,
    step2: FinishStep,
    step3: FinishStep,
)
    requires
        id@.len() > 0,
        call_ensures(TxManager::begin, (begun, id, BeginEvent::Opened(Ok(conn), now)), step1),
        *old(committed) == *final(begun),
        call_ensures(TxManager::commit, (committed, id, FinishEvent::Requested), step2),
        *old(rolled_back) == *final(committed),
        call_ensures(TxManager::rollback, (rolled_back, id, FinishEvent::Requested), step3),
    ensures
        step2 == FinishStep::Run(Finish::Commit, conn),
        step3 matches FinishStep::Done { result: Err(_), log: None },
{
}

/// Access is given to what is open and to nothing else, and however it is used no
/// other transaction changes and none comes or goes.
pub proof fn law_access(
    manager: &mut TxManager,
    id: &str,
    r: Option<RefMut<'_, String, (DBTx, TxState)>>,
)
    requires
        call_ensures(TxManager::get_mut, (manager, id), r),
    ensures
        r is Some <==> is_open(*old(manager), id@),
        r is None ==> keeps_all(*old(manager), *final(manager)),
        r matches Some(guard) ==> held(guard) == (id@, open_under(*old(manager), id@)) && is_open(
            *final(manager),
            id@,
        ) && open_under(*final(manager), id@) == settles(guard),
        keeps_others(*old(manager), *final(manager), id@),
{
}

/// What is written through a guard is what it then holds, under the same id.
pub proof fn law_written_through_a_guard(
    guard: &mut RefMut<'_, String, (DBTx, TxState)>,
    entry: &mut (DBTx, TxState),
)
    requires
        call_ensures(entry_mut, (guard,), entry),
    ensures
        *old(entry) == held(*old(guard)).1,
        held(*final(guard)).0 == held(*old(guard)).0,
        held(*final(guard)).1 == *final(entry),
        settles(*final(guard)) == settles(*old(guard)),
{
}

} // verus!
