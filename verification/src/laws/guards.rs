//! What a guard of a transaction asks for and answers.

use vstd::prelude::*;

use crate::error::Error;
use crate::tx::{Finish, GuardEnd, GuardEvent, GuardStep, TxGuard};

verus! {

/// A new guard has its manager and what it was made with.
pub proof fn law_new_guard<M>(tx_id: &str, is_drop_commit: bool, manager: M, guard: TxGuard<M>)
    requires
        call_ensures(TxGuard::<M>::new, (tx_id, is_drop_commit, manager), guard),
    ensures
        guard.tx_id@ == tx_id@,
        guard.is_drop_commit == is_drop_commit,
        guard.manager == Some(manager),
{
}

/// Whatever is to happen to its transaction when it goes away, a guard that has its
/// manager asks it for a commit where a commit is tried, and for a rollback where a
/// rollback is tried, of its own transaction. It keeps its manager until it is told
/// how that went.
pub proof fn law_guard_asks_for_what_is_tried<M>(
    commits: &mut TxGuard<M>,
    rolls_back: &mut TxGuard<M>,
    commit_step: GuardStep,
    rollback_step: GuardStep,
)
    requires
        old(commits).manager is Some,
        old(rolls_back).manager is Some,
        call_ensures(TxGuard::<M>::try_commit, (commits, GuardEvent::Requested), commit_step),
        call_ensures(
            TxGuard::<M>::try_rollback,
            (rolls_back, GuardEvent::Requested),
            rollback_step,
        ),
    ensures
        commit_step matches GuardStep::Run { finish, tx_id } && finish == Finish::Commit && tx_id@
            == old(commits).tx_id@,
        rollback_step matches GuardStep::Run { finish, tx_id } && finish == Finish::Rollback
            && tx_id@ == old(rolls_back).tx_id@,
        final(commits).manager == old(commits).manager,
        final(rolls_back).manager == old(rolls_back).manager,
{
}

/// An answer of the manager is the answer of the guard. Success lets go of the
/// manager, failure does not.
pub proof fn law_guard_hands_on_the_answer<M>(
    commits: &mut TxGuard<M>,
    rolls_back: &mut TxGuard<M>,
    answer: Result<String, Error>,
    commit_step: GuardStep,
    rollback_step: GuardStep,
)
    requires
        old(commits).manager is Some,
        old(rolls_back).manager is Some,
        call_ensures(
            TxGuard::<M>::try_commit,
            (commits, GuardEvent::Finished(answer)),
            commit_step,
        ),
        call_ensures(
            TxGuard::<M>::try_rollback,
            (rolls_back, GuardEvent::Finished(answer)),
            rollback_step,
        ),
    ensures
        commit_step == GuardStep::Done(answer),
        rollback_step == GuardStep::Done(answer),
        answer is Ok ==> final(commits).manager is None && final(rolls_back).manager is None,
        answer is Err ==> final(commits).manager == old(commits).manager,
        answer is Err ==> final(rolls_back).manager == old(rolls_back).manager,
{
}

/// A guard that has let go of its manager asks nothing more and answers with its id.
pub proof fn law_guard_without_manager<M>(
    commits: &mut TxGuard<M>,
    rolls_back: &mut TxGuard<M>,
    event: GuardEvent,
    commit_step: GuardStep,
    rollback_step: GuardStep,
)
    requires
        old(commits).manager is None,
        old(rolls_back).manager is None,
        call_ensures(TxGuard::<M>::try_commit, (commits, event), commit_step),
        call_ensures(TxGuard::<M>::try_rollback, (rolls_back, event), rollback_step),
    ensures
        commit_step matches GuardStep::Done(Ok(id)) && id@ == old(commits).tx_id@,
        rollback_step matches GuardStep::Done(Ok(id)) && id@ == old(rolls_back).tx_id@,
        final(commits).manager is None,
        final(rolls_back).manager is None,
{
}

/// Which transaction a guard is of, and what is to happen to it at the end, never
/// changes.
pub proof fn law_guard_stays_itself<M>(
    commits: &mut TxGuard<M>,
    rolls_back: &mut TxGuard<M>,
    goes: &mut TxGuard<M>,
    event: GuardEvent,
    commit_step: GuardStep,
    rollback_step: GuardStep,
    end: Option<GuardEnd<M>>,
)
    requires
        call_ensures(TxGuard::<M>::try_commit, (commits, event), commit_step),
        call_ensures(TxGuard::<M>::try_rollback, (rolls_back, event), rollback_step),
        call_ensures(TxGuard::<M>::on_drop, (goes,), end),
    ensures
        final(commits).tx_id@ == old(commits).tx_id@,
        final(commits).is_drop_commit == old(commits).is_drop_commit,
        final(rolls_back).tx_id@ == old(rolls_back).tx_id@,
        final(rolls_back).is_drop_commit == old(rolls_back).is_drop_commit,
        final(goes).tx_id@ == old(goes).tx_id@,
        final(goes).is_drop_commit == old(goes).is_drop_commit,
{
}

/// When a guard goes away, a manager that it still has is to commit its transaction
/// if the guard was made to commit, and to roll it back if not. Without a manager
/// nothing is left to do.
pub proof fn law_guard_goes_away<M>(guard: &mut TxGuard<M>, end: Option<GuardEnd<M>>)
    requires
        call_ensures(TxGuard::<M>::on_drop, (guard,), end),
    ensures
        end is Some <==> old(guard).manager is Some,
        end matches Some(e) ==> Some(e.manager) == old(guard).manager,
        end matches Some(e) ==> e.tx_id@ == old(guard).tx_id@,
        end matches Some(e) ==> (e.finish == Finish::Commit <==> old(guard).is_drop_commit),
        end matches Some(e) ==> (e.finish == Finish::Rollback <==> !old(guard).is_drop_commit),
        final(guard).manager is None,
{
}

/// A guard that was made, tried once with success and then goes away has ended its
/// transaction in the way that was tried, and in no other.
pub proof fn law_tried_end_is_the_only_one<M>(
    asks: &mut TxGuard<M>,
    told: &mut TxGuard<M>,
    goes: &mut TxGuard<M>,
    tx_id: &str,
    is_drop_commit: bool,
    manager: M,
    answer: String,
    asked: GuardStep,
    done: GuardStep,
    end: Option<GuardEnd<M>>,
)
    requires
        call_ensures(TxGuard::<M>::new, (tx_id, is_drop_commit, manager), *old(asks)),
        call_ensures(TxGuard::<M>::try_commit, (asks, GuardEvent::Requested), asked),
        *old(told) == *final(asks),
        call_ensures(TxGuard::<M>::try_commit, (told, GuardEvent::Finished(Ok(answer))), done),
        *old(goes) == *final(told),
        call_ensures(TxGuard::<M>::on_drop, (goes,), end),
    ensures
        asked matches GuardStep::Run { finish: Finish::Commit, tx_id: id } && id@ == tx_id@,
        done == GuardStep::Done(Ok(answer)),
        end is None,
{
}

} // verus!
