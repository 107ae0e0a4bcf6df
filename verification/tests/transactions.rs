use rbatis::error::Error;
use rbatis::log::{LogLine, LogPlugin};
use rbatis::time::{Instant, TimeSpan};
use rbatis::tx::{
    entry_mut, out_of_time_line, BeginEvent, BeginStep, DBTx, Finish, FinishEvent, FinishStep,
    GuardEvent, GuardStep, PollAction, PollQueue, TxGuard, TxManager, TxState,
};

const SECOND: u128 = 1_000_000_000;

fn seconds(secs: u64) -> TimeSpan {
    TimeSpan { secs, nanos: 0 }
}

fn at(nanos: u128) -> Instant {
    Instant { nanos }
}

fn manager(enable: bool) -> TxManager {
    TxManager::new_arc("tx:", LogPlugin { enable }, seconds(60), seconds(5))
}

fn begin(m: &mut TxManager, id: &str, conn: u64, now: u128) {
    match m.begin(id, BeginEvent::Opened(Ok(DBTx { id: conn }), at(now))) {
        BeginStep::Done { result, .. } => assert_eq!(result, Ok(id.to_string())),
        BeginStep::Open => panic!("already open"),
    }
}

fn error(text: &str) -> Error {
    Error { message: text.to_string() }
}

fn line(id: &str, text: &str) -> LogLine {
    LogLine { context_id: id.to_string(), text: text.to_string() }
}

fn handed(step: FinishStep) -> (Finish, u64) {
    match step {
        FinishStep::Run(finish, conn) => (finish, conn.id),
        FinishStep::Done { .. } => panic!("over"),
    }
}

fn told(step: FinishStep) -> (Result<String, Error>, Option<LogLine>) {
    match step {
        FinishStep::Done { result, log } => (result, log),
        FinishStep::Run(..) => panic!("not over"),
    }
}

/// Runs a round to its end; the database refuses every rollback if `refuse`.
fn run_round(
    m: &mut TxManager,
    mut queue: PollQueue,
    refuse: bool,
) -> (Vec<(String, u64)>, Vec<LogLine>, PollAction) {
    let mut rolled_back = vec![];
    let mut log = vec![];
    loop {
        let step = m.poll_next(&mut queue);
        log.extend(step.log);
        match step.action {
            PollAction::Rollback { context_id, tx } => {
                let outcome = if refuse { Err(error("gone away")) } else { Ok(()) };
                let (_, line) = told(m.rollback(&context_id, FinishEvent::Finished(outcome)));
                log.extend(line);
                rolled_back.push((context_id, tx.id));
            }
            other => {
                rolled_back.sort();
                return (rolled_back, log, other);
            }
        }
    }
}

#[test]
fn new_manager_is_alive_and_empty() {
    let m = manager(true);
    assert_eq!(m.tx_prefix, "tx:");
    assert!(m.get_alive());
    assert_eq!(m.tx_lock_wait_timeout, seconds(60));
    assert_eq!(m.tx_check_interval, seconds(5));
    assert_eq!(m.log_plugin, Some(LogPlugin { enable: true }));
    assert_eq!(m.tx_context.len(), 0);
}

#[test]
fn alive_is_what_was_set_last() {
    let mut m = manager(false);
    m.set_alive(false);
    assert!(!m.get_alive());
    m.set_alive(true);
    m.set_alive(true);
    assert!(m.get_alive());
    m.close();
    m.close();
    assert!(!m.get_alive());
}

#[test]
fn begin_refuses_an_empty_id() {
    let mut m = manager(true);
    match m.begin("", BeginEvent::Requested) {
        BeginStep::Done { result, log, released } => {
            assert_eq!(result, Err(error("[rbatis] context_id can not be empty")));
            assert_eq!(log, None);
            assert_eq!(released, None);
        }
        BeginStep::Open => panic!("not refused"),
    }
    match m.begin("", BeginEvent::Opened(Ok(DBTx { id: 3 }), at(0))) {
        BeginStep::Done { result, released, .. } => {
            assert!(result.is_err());
            assert_eq!(released, Some(DBTx { id: 3 }));
        }
        BeginStep::Open => panic!("not refused"),
    }
    assert_eq!(m.tx_context.len(), 0);
}

#[test]
fn begin_opens_then_stores() {
    let mut m = manager(true);
    assert!(matches!(m.begin("tx:1", BeginEvent::Requested), BeginStep::Open));
    assert_eq!(m.tx_context.len(), 0);
    match m.begin("tx:1", BeginEvent::Opened(Ok(DBTx { id: 7 }), at(9))) {
        BeginStep::Done { result, log, released } => {
            assert_eq!(result, Ok("tx:1".to_string()));
            assert_eq!(log, Some(line("tx:1", "[rbatis] [tx:1] Begin")));
            assert_eq!(released, None);
        }
        BeginStep::Open => panic!("already open"),
    }
    let entry = m.get_mut("tx:1").unwrap();
    assert_eq!(entry.key(), "tx:1");
    assert_eq!(*entry.value(), (DBTx { id: 7 }, TxState::StateBegin(at(9))));
}

#[test]
fn begin_hands_on_a_failure_to_open() {
    let mut m = manager(true);
    match m.begin("tx:1", BeginEvent::Opened(Err(error("no route")), at(0))) {
        BeginStep::Done { result, log, released } => {
            assert_eq!(result, Err(error("no route")));
            assert_eq!(log, None);
            assert_eq!(released, None);
        }
        BeginStep::Open => panic!("already open"),
    }
    assert!(m.get_mut("tx:1").is_none());
}

#[test]
fn second_begin_gives_back_the_first() {
    let mut m = manager(false);
    begin(&mut m, "tx:1", 1, 0);
    match m.begin("tx:1", BeginEvent::Opened(Ok(DBTx { id: 2 }), at(5))) {
        BeginStep::Done { log, released, .. } => {
            assert_eq!(log, None);
            assert_eq!(released, Some(DBTx { id: 1 }));
        }
        BeginStep::Open => panic!("already open"),
    }
    assert_eq!(handed(m.commit("tx:1", FinishEvent::Requested)), (Finish::Commit, 2));
}

#[test]
fn commit_hands_out_what_began() {
    let mut m = manager(true);
    begin(&mut m, "tx:1", 41, 0);
    begin(&mut m, "tx:2", 42, 0);
    assert_eq!(handed(m.commit("tx:1", FinishEvent::Requested)), (Finish::Commit, 41));
    assert_eq!(
        told(m.commit("tx:1", FinishEvent::Finished(Ok(())))),
        (Ok("tx:1".to_string()), Some(line("tx:1", "[rbatis] [tx:1] Commit")))
    );
    assert!(m.get_mut("tx:1").is_none());
    assert_eq!(m.get_mut("tx:2").unwrap().value().0, DBTx { id: 42 });
}

#[test]
fn rollback_hands_out_what_began() {
    let mut m = manager(true);
    begin(&mut m, "tx:1", 41, 0);
    assert_eq!(handed(m.rollback("tx:1", FinishEvent::Requested)), (Finish::Rollback, 41));
    assert_eq!(
        told(m.rollback("tx:1", FinishEvent::Finished(Ok(())))),
        (Ok("tx:1".to_string()), Some(line("tx:1", "[rbatis] [tx:1] Rollback")))
    );
    assert!(m.get_mut("tx:1").is_none());
}

#[test]
fn a_transaction_ends_once() {
    let mut m = manager(true);
    begin(&mut m, "tx:1", 41, 0);
    handed(m.commit("tx:1", FinishEvent::Requested));
    assert_eq!(
        told(m.commit("tx:1", FinishEvent::Finished(Err(error("deadlock"))))),
        (Err(error("deadlock")), None)
    );
    assert_eq!(
        told(m.commit("tx:1", FinishEvent::Requested)),
        (Err(error("[rbatis] tx:tx:1 not exist！")), None)
    );
    assert_eq!(
        told(m.rollback("tx:1", FinishEvent::Requested)),
        (Err(error("[rbatis] tx:tx:1 not exist！")), None)
    );
}

#[test]
fn nothing_is_logged_while_off() {
    let mut m = manager(false);
    begin(&mut m, "tx:1", 1, 0);
    handed(m.commit("tx:1", FinishEvent::Requested));
    assert_eq!(
        told(m.commit("tx:1", FinishEvent::Finished(Ok(())))),
        (Ok("tx:1".to_string()), None)
    );
    begin(&mut m, "tx:2", 2, 0);
    m.close();
    let queue = m.polling_check(at(0));
    assert!(run_round(&mut m, queue, false).1.is_empty());
    m.log_plugin = None;
    assert_eq!(told(m.commit("x", FinishEvent::Finished(Ok(())))).1, None);
}

#[test]
fn access_reaches_one_entry() {
    let mut m = manager(false);
    begin(&mut m, "a", 1, 0);
    begin(&mut m, "b", 2, 0);
    m.get_mut("a").unwrap().value_mut().1 = TxState::StateFinish(at(3));
    assert_eq!(*m.get_mut("a").unwrap().value(), (DBTx { id: 1 }, TxState::StateFinish(at(3))));
    assert_eq!(*m.get_mut("b").unwrap().value(), (DBTx { id: 2 }, TxState::StateBegin(at(0))));
    assert!(m.get_mut("c").is_none());
}

#[test]
fn what_is_written_last_is_what_is_handed_out() {
    let mut m = manager(false);
    begin(&mut m, "a", 1, 0);
    begin(&mut m, "b", 2, 5);
    {
        let mut guard = m.get_mut("a").unwrap();
        assert_eq!(*entry_mut(&mut guard), (DBTx { id: 1 }, TxState::StateBegin(at(0))));
        *entry_mut(&mut guard) = (DBTx { id: 8 }, TxState::StateFinish(at(3)));
        entry_mut(&mut guard).0 = DBTx { id: 9 };
        assert_eq!(guard.key(), "a");
    }
    m.get_mut("b");
    assert_eq!(m.tx_context.len(), 2);
    assert_eq!(*m.get_mut("a").unwrap(), (DBTx { id: 9 }, TxState::StateFinish(at(3))));
    assert_eq!(*m.get_mut("b").unwrap(), (DBTx { id: 2 }, TxState::StateBegin(at(5))));
    assert_eq!(handed(m.commit("a", FinishEvent::Requested)), (Finish::Commit, 9));
}

#[test]
fn access_is_given_however_old_the_entry_is() {
    let mut m = manager(false);
    begin(&mut m, "a", 1, 0);
    assert_eq!(m.polling_check(at(61 * SECOND)).ids, vec!["a".to_string()]);
    assert_eq!(*m.get_mut("a").unwrap(), (DBTx { id: 1 }, TxState::StateBegin(at(0))));
    assert_eq!(m.polling_check(at(61 * SECOND)).ids, vec!["a".to_string()]);
}

#[test]
fn prefix_tells_transactions() {
    let m = manager(false);
    assert!(m.is_tx_prifix_id("tx:1"));
    assert!(m.is_tx_prifix_id("tx:"));
    assert!(!m.is_tx_prifix_id("tx"));
    assert!(!m.is_tx_prifix_id(" tx:1"));
}

#[test]
fn round_rolls_back_what_is_out_of_time() {
    let mut m = manager(true);
    begin(&mut m, "old", 1, 0);
    begin(&mut m, "edge", 2, SECOND);
    begin(&mut m, "new", 3, 30 * SECOND);
    let queue = m.polling_check(at(61 * SECOND));
    assert!(!queue.closing);
    let (rolled_back, log, action) = run_round(&mut m, queue, false);
    assert_eq!(rolled_back, vec![("old".to_string(), 1)]);
    assert_eq!(
        log,
        vec![
            line("old", "[rbatis] rollback context_id:old,out of time:60s"),
            line("old", "[rbatis] [old] Rollback"),
        ]
    );
    assert!(matches!(action, PollAction::Sleep(span) if span == seconds(5)));
    assert!(m.get_mut("old").is_none());
    assert!(m.get_mut("edge").is_some());
    assert!(m.get_mut("new").is_some());
}

#[test]
fn round_without_anything_due_only_sleeps() {
    let mut m = manager(true);
    begin(&mut m, "new", 3, 10);
    let queue = m.polling_check(at(0));
    let (rolled_back, log, action) = run_round(&mut m, queue, false);
    assert!(rolled_back.is_empty() && log.is_empty());
    assert!(matches!(action, PollAction::Sleep(_)));
}

#[test]
fn finished_state_is_never_out_of_time() {
    let mut m = manager(true);
    begin(&mut m, "a", 1, 0);
    m.get_mut("a").unwrap().value_mut().1 = TxState::StateFinish(at(0));
    assert!(m.polling_check(at(u128::MAX)).ids.is_empty());
}

#[test]
fn closed_manager_rolls_everything_back() {
    let mut m = manager(true);
    for i in 0..50u64 {
        begin(&mut m, &format!("tx:{:02}", i), i, 0);
    }
    m.close();
    let queue = m.polling_check(at(0));
    assert!(queue.closing);
    let (rolled_back, log, action) = run_round(&mut m, queue, true);
    let all: Vec<(String, u64)> = (0..50u64).map(|i| (format!("tx:{:02}", i), i)).collect();
    assert_eq!(rolled_back, all);
    assert_eq!(log.len(), 50);
    assert!(log.contains(&line(
        "tx:07",
        "[rbatis] rollback context_id:tx:07,Because the manager exits"
    )));
    assert!(matches!(action, PollAction::Exit));
    assert_eq!(m.tx_context.len(), 0);
}

#[test]
fn round_passes_over_what_ended_meanwhile() {
    let mut m = manager(true);
    begin(&mut m, "a", 1, 0);
    begin(&mut m, "b", 2, 0);
    let queue = m.polling_check(at(100 * SECOND));
    handed(m.commit("a", FinishEvent::Requested));
    let (rolled_back, log, _) = run_round(&mut m, queue, false);
    assert_eq!(rolled_back, vec![("b".to_string(), 2)]);
    assert!(log.contains(&line("a", "[rbatis] rollback context_id:a,out of time:60s")));
    assert!(!log.contains(&line("a", "[rbatis] [a] Rollback")));
}

#[test]
fn guard_commits_through_its_manager() {
    let mut guard = TxGuard::new("tx:1", false, 'm');
    match guard.try_commit(GuardEvent::Requested) {
        GuardStep::Run { finish, tx_id } => {
            assert_eq!((finish, tx_id.as_str()), (Finish::Commit, "tx:1"))
        }
        GuardStep::Done(_) => panic!("over"),
    }
    assert_eq!(guard.manager, Some('m'));
    match guard.try_commit(GuardEvent::Finished(Ok("tx:1".to_string()))) {
        GuardStep::Done(result) => assert_eq!(result, Ok("tx:1".to_string())),
        GuardStep::Run { .. } => panic!("not over"),
    }
    assert_eq!(guard.manager, None);
    match guard.try_rollback(GuardEvent::Requested) {
        GuardStep::Done(result) => assert_eq!(result, Ok("tx:1".to_string())),
        GuardStep::Run { .. } => panic!("asked twice"),
    }
    assert!(guard.on_drop().is_none());
}

#[test]
fn guard_keeps_its_manager_on_failure() {
    let mut guard = TxGuard::new("tx:1", true, 'm');
    match guard.try_rollback(GuardEvent::Requested) {
        GuardStep::Run { finish, .. } => assert_eq!(finish, Finish::Rollback),
        GuardStep::Done(_) => panic!("over"),
    }
    match guard.try_rollback(GuardEvent::Finished(Err(error("down")))) {
        GuardStep::Done(result) => assert_eq!(result, Err(error("down"))),
        GuardStep::Run { .. } => panic!("not over"),
    }
    let end = guard.on_drop().unwrap();
    assert_eq!((end.finish, end.manager, end.tx_id.as_str()), (Finish::Commit, 'm', "tx:1"));
    assert!(guard.on_drop().is_none());
}

#[test]
fn guard_rolls_back_unless_told_to_commit() {
    let mut guard = TxGuard::new("tx:9", false, ());
    assert_eq!(guard.on_drop().unwrap().finish, Finish::Rollback);
}

#[test]
fn spans_print_as_durations() {
    assert_eq!(seconds(60).to_text(), "60s");
    assert_eq!(TimeSpan { secs: 1, nanos: 500_000_000 }.to_text(), "1.5s");
    assert_eq!(TimeSpan { secs: 0, nanos: 1_000 }.to_text(), "1µs");
    assert_eq!(TimeSpan { secs: 2, nanos: 3 }.as_nanos(), 2_000_000_003);
    let most = TimeSpan { secs: u64::MAX, nanos: 999_999_999 };
    assert_eq!(most.as_nanos(), std::time::Duration::MAX.as_nanos());
}

#[test]
fn elapsed_never_goes_below_nothing() {
    assert_eq!(at(5).elapsed(at(12)), 7);
    assert_eq!(at(12).elapsed(at(5)), 0);
}

#[test]
fn what_is_due_stays_due() {
    let mut m = manager(false);
    begin(&mut m, "a", 1, 0);
    begin(&mut m, "b", 2, 50 * SECOND);
    assert!(m.polling_check(at(60 * SECOND)).ids.is_empty());
    assert_eq!(m.polling_check(at(60 * SECOND + 1)).ids, vec!["a".to_string()]);
    let mut later = m.polling_check(at(200 * SECOND)).ids;
    later.sort();
    assert_eq!(later, vec!["a".to_string(), "b".to_string()]);
}

#[test]
fn round_comes_further_with_every_rollback() {
    let mut m = manager(false);
    begin(&mut m, "a", 1, 0);
    begin(&mut m, "b", 2, 0);
    begin(&mut m, "c", 3, 0);
    let mut queue = m.polling_check(at(100 * SECOND));
    handed(m.commit("c", FinishEvent::Requested));
    let mut next = queue.next;
    while let PollAction::Rollback { .. } = m.poll_next(&mut queue).action {
        assert!(queue.next > next);
        next = queue.next;
    }
    assert_eq!(queue.next, 3);
    assert!(matches!(m.poll_next(&mut queue).action, PollAction::Sleep(_)));
}

#[test]
fn refused_attempt_leaves_nothing_to_end() {
    let mut m = manager(true);
    begin(&mut m, "tx:1", 1, 0);
    let mut guard = TxGuard::new("tx:1", true, ());
    assert!(matches!(guard.try_commit(GuardEvent::Requested), GuardStep::Run { .. }));
    handed(m.commit("tx:1", FinishEvent::Requested));
    let (answer, _) = told(m.commit("tx:1", FinishEvent::Finished(Err(error("lost")))));
    match guard.try_commit(GuardEvent::Finished(answer)) {
        GuardStep::Done(result) => assert_eq!(result, Err(error("lost"))),
        GuardStep::Run { .. } => panic!("not over"),
    }
    let end = guard.on_drop().unwrap();
    assert_eq!(end.finish, Finish::Commit);
    assert_eq!(
        told(m.commit(&end.tx_id, FinishEvent::Requested)).0,
        Err(error("[rbatis] tx:tx:1 not exist！"))
    );
}

#[test]
fn out_of_time_names_the_timeout() {
    assert_eq!(
        out_of_time_line("tx:1", "1.5s"),
        "[rbatis] rollback context_id:tx:1,out of time:1.5s"
    );
}
