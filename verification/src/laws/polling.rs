//! What a round of polling looks for, does and logs.

use vstd::prelude::*;

use crate::context::entries;
use crate::laws::transactions::{is_logging, is_open, keeps_all, keeps_others, open_under};
use crate::time::{span_text, Instant, TimeSpan};
use crate::tx::{out_of_time_line, PollAction, PollQueue, PollStep, TxManager, TxState};

verus! {

/// `id` is in the queue.
pub open spec fn is_queued(queue: PollQueue, id: Seq<char>) -> bool {
    exists|i: int| 0 <= i < queue.ids@.len() && (#[trigger] queue.ids@[i])@ == id
}

/// A span in nanoseconds.
pub open spec fn nanoseconds(span: TimeSpan) -> int {
    1_000_000_000 * span.secs + span.nanos
}

/// A round starts with what is to be rolled back, each once: while the manager is
/// alive, what began more than the timeout ago; once it is not, all that is open.
pub proof fn law_queue(manager: &TxManager, now: Instant, queue: PollQueue, id: Seq<char>)
    requires
        call_ensures(TxManager::polling_check, (manager, now), queue),
    ensures
        queue.next == 0,
        queue.closing == !manager.alive,
        forall|i: int, j: int|
            0 <= i < j < queue.ids@.len() ==> (#[trigger] queue.ids@[i])@ != (
            #[trigger] queue.ids@[j])@,
        is_queued(queue, id) ==> is_open(*manager, id),
        !manager.alive && is_open(*manager, id) ==> is_queued(queue, id),
        manager.alive && is_open(*manager, id) ==> (match open_under(*manager, id).1 {
            TxState::StateBegin(since) => is_queued(queue, id) <==> now.nanos > since.nanos
                + nanoseconds(manager.tx_lock_wait_timeout),
            TxState::StateFinish(_) => !is_queued(queue, id),
        }),
{
    let ids = crate::tx::id_texts(queue.ids@);
    assert forall|i: int, j: int| 0 <= i < j < queue.ids@.len() implies (
    #[trigger] queue.ids@[i])@ != (#[trigger] queue.ids@[j])@ by {
        assert(ids[i] != ids[j]);
    }
    assert(is_queued(queue, id) <==> ids.to_set().contains(id)) by {
        if is_queued(queue, id) {
            let i = choose|i: int| 0 <= i < queue.ids@.len() && (#[trigger] queue.ids@[i])@ == id;
            assert(ids[i] == id);
        }
        if ids.to_set().contains(id) {
            let i = ids.index_of(id);
            assert(queue.ids@[i]@ == id);
        }
    }
}

/// A round goes on with the next in its queue that is still open, passes over what
/// is not, and takes that one out, to be rolled back.
pub proof fn law_poll_rolls_back(
    manager: &mut TxManager,
    queue: &mut PollQueue,
    step: PollStep,
    at: int,
)
    requires
        call_ensures(TxManager::poll_next, (manager, queue), step),
        old(queue).next <= at < old(queue).ids@.len(),
        is_open(*old(manager), old(queue).ids@[at]@),
        forall|k: int|
            old(queue).next <= k < at ==> !is_open(*old(manager), (#[trigger] old(queue).ids@[k])@),
    ensures
        step.action matches PollAction::Rollback { context_id, tx } && context_id@
            == old(queue).ids@[at]@ && tx == open_under(*old(manager), context_id@).0,
        !is_open(*final(manager), old(queue).ids@[at]@),
        keeps_others(*old(manager), *final(manager), old(queue).ids@[at]@),
        final(queue).next == at + 1,
        final(queue).ids@ == old(queue).ids@,
        final(queue).closing == old(queue).closing,
{
    let ids = crate::tx::id_texts(old(queue).ids@);
    lemma_next_open_is(ids, old(queue).next as int, at, *old(manager));
}

/// A round in whose queue nothing is open any more is over: it was the last of a
/// manager that ends, and otherwise the next follows after the interval.
pub proof fn law_poll_ends(manager: &mut TxManager, queue: &mut PollQueue, step: PollStep)
    requires
        old(queue).next <= old(queue).ids@.len(),
        call_ensures(TxManager::poll_next, (manager, queue), step),
        forall|k: int|
            old(queue).next <= k < old(queue).ids@.len() ==> !is_open(
                *old(manager),
                (#[trigger] old(queue).ids@[k])@,
            ),
    ensures
        old(queue).closing ==> step.action is Exit,
        !old(queue).closing ==> step.action == PollAction::Sleep(old(manager).tx_check_interval),
        keeps_all(*old(manager), *final(manager)),
        final(queue).next == old(queue).ids@.len(),
        final(queue).ids@ == old(queue).ids@,
        final(queue).closing == old(queue).closing,
{
    let ids = crate::tx::id_texts(old(queue).ids@);
    lemma_next_open_is(ids, old(queue).next as int, ids.len() as int, *old(manager));
}

proof fn lemma_next_open_is(ids: Seq<Seq<char>>, from: int, at: int, manager: TxManager)
    requires
        0 <= from <= at <= ids.len(),
        at < ids.len() ==> is_open(manager, ids[at]),
        forall|k: int| from <= k < at ==> !is_open(manager, #[trigger] ids[k]),
    ensures
        crate::tx::next_open(ids, from, entries(manager.tx_context)) == at,
    decreases at - from,
{
    if from < at {
        assert(!is_open(manager, ids[from]));
        lemma_next_open_is(ids, from + 1, at, manager);
    }
}

/// Where the manager logs, a step has one line for each of the queue that it dealt
/// with, in order, which says why that is rolled back: because the manager ends, or
/// because of the timeout. Where it does not, there is none.
pub proof fn law_poll_logs(manager: &mut TxManager, queue: &mut PollQueue, step: PollStep)
    requires
        old(queue).next <= old(queue).ids@.len(),
        call_ensures(TxManager::poll_next, (manager, queue), step),
    ensures
        old(queue).next <= final(queue).next <= old(queue).ids@.len(),
        !is_logging(*old(manager)) ==> step.log@.len() == 0,
        is_logging(*old(manager)) ==> step.log@.len() == final(queue).next - old(queue).next,
        forall|i: int|
            0 <= i < step.log@.len() ==> {
                let id = old(queue).ids@[old(queue).next + i]@;
                let timeout = old(manager).tx_lock_wait_timeout;
                &&& (#[trigger] step.log@[i]).context_id@ == id
                &&& step.log@[i].text@ == "[rbatis] rollback context_id:"@ + id + (
                if old(queue).closing {
                    ",Because the manager exits"@
                } else {
                    ",out of time:"@ + span_text(timeout.secs, timeout.nanos)
                })
            },
{
    let ids = crate::tx::id_texts(old(queue).ids@);
    let lines = crate::log::line_views(step.log@);
    let timeout = old(manager).tx_lock_wait_timeout;
    lemma_next_open_between(ids, old(queue).next as int, *old(manager));
    assert(lines.len() == step.log@.len());
    assert forall|i: int| 0 <= i < step.log@.len() implies {
        let id = old(queue).ids@[old(queue).next + i]@;
        &&& (#[trigger] step.log@[i]).context_id@ == id
        &&& step.log@[i].text@ == "[rbatis] rollback context_id:"@ + id + (if old(queue).closing {
            ",Because the manager exits"@
        } else {
            ",out of time:"@ + span_text(timeout.secs, timeout.nanos)
        })
    } by {
        let id = old(queue).ids@[old(queue).next + i]@;
        assert(lines[i] == step.log@[i]@);
        assert("[rbatis] rollback context_id:"@ + id + ",out of time:"@ + span_text(
            timeout.secs,
            timeout.nanos,
        ) =~= "[rbatis] rollback context_id:"@ + id + (",out of time:"@ + span_text(
            timeout.secs,
            timeout.nanos,
        )));
    }
}

proof fn lemma_next_open_between(ids: Seq<Seq<char>>, from: int, manager: TxManager)
    requires
        0 <= from <= ids.len(),
    ensures
        from <= crate::tx::next_open(ids, from, entries(manager.tx_context)) <= ids.len(),
    decreases ids.len() - from,
{
    if from < ids.len() {
        lemma_next_open_between(ids, from + 1, manager);
    }
}

/// The line on a transaction that has been open for too long.
pub proof fn law_out_of_time_line(id: &str, timeout: &str, r: String)
    requires
        call_ensures(out_of_time_line, (id, timeout), r),
    ensures
        r@ == "[rbatis] rollback context_id:"@ + id@ + ",out of time:"@ + timeout@,
{
}

/// Spans add up to nanoseconds, print as durations do, and what has elapsed since a
/// moment leads from it to now; before the moment nothing has.
pub proof fn law_time(
    span: &TimeSpan,
    nanos: u128,
    text: String,
    since: &Instant,
    now: Instant,
    elapsed: u128,
)
    requires
        call_ensures(TimeSpan::as_nanos, (span,), nanos),
        call_ensures(TimeSpan::to_text, (span,), text),
        call_ensures(Instant::elapsed, (since, now), elapsed),
    ensures
        nanos == 1_000_000_000 * span.secs + span.nanos,
        text@ == span_text(span.secs, span.nanos),
        now.nanos >= since.nanos ==> since.nanos + elapsed == now.nanos,
        now.nanos <= since.nanos ==> elapsed == 0,
{
}

} // verus!
