//! What holds across calls.

use dashmap::mapref::one::RefMut;
use proc_macro2::{Span, TokenStream};
use vstd::prelude::*;

use crate::context::{held, settles, Contexts};
use crate::error::Error;
use crate::plugin::intercept::{filled, formatted, hits_whole_table, SqlKeyword};
use crate::py_sql::{
    all_idents, arg_of, args_of, collects, collects_at, context_arg, generated, insert_tokens,
    inserts, is_context_name, replaces, ArgTokens, PyFn, PySqlError,
};
use crate::text::{
    is_quote_char, is_white_space_char, lower_char, lowered, next_at, occurs, occurs_at,
    outside_quotes, quoted_up_to, trim_end, trim_start, trimmed,
};
use crate::time::Instant;
use crate::tokens::{is_word, one, printed, quoted, tokens, Texts};
use crate::tx::{
    begins, connection_of, drops, finishes, gives_access, id_texts, next_open, not_exist_text,
    polls, starts_round, tries, BeginEvent, BeginStep, DBTx, Finish, FinishEvent, FinishStep,
    GuardEnd, GuardEvent, GuardStep, PollAction, PollQueue, PollStep, TxGuard, TxManager, TxState,
};

pub mod code;
pub mod guards;
pub mod polling;
pub mod statements;
pub mod texts;
pub mod transactions;

verus! {

/// What was begun under an id is what a commit or rollback of that id is handed,
/// and then nothing is open under the id.
pub proof fn law_finish_hands_out_what_began(
    m0: TxManager,
    m1: TxManager,
    m2: TxManager,
    id: Seq<char>,
    conn: DBTx,
    now: Instant,
    begun: BeginStep,
    finish: Finish,
    step: FinishStep,
)
    requires
        id.len() > 0,
        begins(m0, id, BeginEvent::Opened(Ok(conn), now), m1, begun),
        finishes(finish, m1, id, FinishEvent::Requested, m2, step),
    ensures
        step == FinishStep::Run(finish, conn),
        m2.contexts() == m0.contexts().remove(id),
{
    assert(m2.contexts() =~= m0.contexts().remove(id));
}

/// A transaction is handed out for its end once: whoever asks next, for a commit
/// or a rollback, is told that it does not exist. That the first attempt fails
/// at the database makes no difference.
pub proof fn law_finished_once(
    m0: TxManager,
    m1: TxManager,
    m2: TxManager,
    m3: TxManager,
    id: Seq<char>,
    first: Finish,
    first_step: FinishStep,
    outcome: Result<(), Error>,
    first_end: FinishStep,
    second: Finish,
    second_step: FinishStep,
)
    requires
        finishes(first, m0, id, FinishEvent::Requested, m1, first_step),
        finishes(first, m1, id, FinishEvent::Finished(outcome), m2, first_end),
        finishes(second, m2, id, FinishEvent::Requested, m3, second_step),
    ensures
        second_step matches FinishStep::Done { result: Err(e), log: None } && e@
            == not_exist_text(id),
        m3.contexts() == m2.contexts(),
{
    assert(m3.contexts() =~= m2.contexts());
}

/// Beginning a second time under an id hands back the first transaction, and the
/// second is the one that is open.
pub proof fn law_second_begin_gives_back_the_first(
    m0: TxManager,
    m1: TxManager,
    m2: TxManager,
    id: Seq<char>,
    first: DBTx,
    second: DBTx,
    at_first: Instant,
    at_second: Instant,
    step1: BeginStep,
    step2: BeginStep,
)
    requires
        id.len() > 0,
        begins(m0, id, BeginEvent::Opened(Ok(first), at_first), m1, step1),
        begins(m1, id, BeginEvent::Opened(Ok(second), at_second), m2, step2),
    ensures
        step2 matches BeginStep::Done { result: Ok(_), log: _, released } && released == Some(first),
        connection_of(m2.contexts(), id) == Some(second),
{
}

/// Beginning under one id and ending under it leave every other id alone.
pub proof fn law_other_ids_stay(
    m0: TxManager,
    m1: TxManager,
    m2: TxManager,
    id: Seq<char>,
    begin: BeginEvent,
    begun: BeginStep,
    finish: Finish,
    end: FinishEvent,
    step: FinishStep,
    other: Seq<char>,
)
    requires
        other != id,
        begins(m0, id, begin, m1, begun),
        finishes(finish, m1, id, end, m2, step),
    ensures
        m1.contexts().contains_key(other) == m0.contexts().contains_key(other),
        m2.contexts().contains_key(other) == m0.contexts().contains_key(other),
        m0.contexts().contains_key(other) ==> m1.contexts()[other] == m0.contexts()[other]
            && m2.contexts()[other] == m0.contexts()[other],
{
}

/// What a guard leaves behind is what the next one to look finds and what a commit
/// or rollback is handed. No entry comes or goes, and every other id is left alone.
pub proof fn law_access_is_to_one_entry(
    m0: TxManager,
    m1: TxManager,
    m2: TxManager,
    id: Seq<char>,
    guard: RefMut<'_, String, (DBTx, TxState)>,
    again: Option<RefMut<'_, String, (DBTx, TxState)>>,
    finish: Finish,
    step: FinishStep,
)
    requires
        gives_access(m0, id, m1, Some(guard)),
    ensures
        m1.contexts()[id] == settles(guard),
        m1.contexts().dom() == m0.contexts().dom(),
        m1.contexts().remove(id) == m0.contexts().remove(id),
        gives_access(m1, id, m2, again) ==> (again matches Some(g) && held(g) == (
            id,
            settles(guard),
        )),
        finishes(finish, m1, id, FinishEvent::Requested, m2, step) ==> step == FinishStep::Run(
            finish,
            settles(guard).0,
        ),
{
    assert(m1.contexts().dom() =~= m0.contexts().dom());
    assert(m1.contexts().remove(id) =~= m0.contexts().remove(id));
}

/// While logging is off, no operation has anything to log.
pub proof fn law_nothing_is_logged_while_off(
    before: TxManager,
    after: TxManager,
    id: Seq<char>,
    begin: BeginEvent,
    begun: BeginStep,
    finish: Finish,
    end: FinishEvent,
    ended: FinishStep,
    queue: PollQueue,
    queue_after: PollQueue,
    polled: PollStep,
)
    requires
        !before.logging(),
    ensures
        begins(before, id, begin, after, begun) ==> (begun matches BeginStep::Done {
            result: _,
            log,
            released: _,
        } ==> log is None),
        finishes(finish, before, id, end, after, ended) ==> (ended matches FinishStep::Done {
            result: _,
            log,
        } ==> log is None),
        polls(before, queue, after, queue_after, polled) ==> polled.log@.len() == 0,
{
    if polls(before, queue, after, queue_after, polled) {
        assert(crate::log::line_views(polled.log@).len() == 0);
    }
}

/// A transaction that is due stays due as time goes on.
pub proof fn law_due_stays_due(manager: TxManager, earlier: Instant, later: Instant)
    requires
        earlier.nanos <= later.nanos,
    ensures
        manager.due(earlier).subset_of(manager.due(later)),
{
}

/// While the manager is alive, a transaction is due exactly when it began more
/// than the timeout ago; once it is not, every open transaction is.
pub proof fn law_what_is_due(manager: TxManager, id: Seq<char>, now: Instant)
    requires
        manager.contexts().contains_key(id),
    ensures
        manager.alive && manager.contexts()[id].1 is StateBegin ==> (manager.due(now).contains(id)
            <==> now.nanos - manager.contexts()[id].1->StateBegin_0.nanos
            > manager.tx_lock_wait_timeout.total()),
        manager.alive && manager.contexts()[id].1 is StateFinish ==> !manager.due(now).contains(id),
        !manager.alive ==> manager.due(now).contains(id),
{
}

/// A round of polling that goes on without a rollback is over, and one that has a
/// rollback has come further: a round has at most as many rollbacks as the
/// queue has ids.
pub proof fn law_round_makes_progress(
    before: TxManager,
    queue: PollQueue,
    after: TxManager,
    queue_after: PollQueue,
    step: PollStep,
)
    requires
        queue.valid(),
        polls(before, queue, after, queue_after, step),
    ensures
        queue_after.valid(),
        step.action is Rollback ==> queue_after.next > queue.next,
        !(step.action is Rollback) ==> queue_after.next == queue.ids@.len(),
{
    lemma_next_open(id_texts(queue.ids@), queue.next as int, before.contexts());
}

/// Whatever else happens during a round of polling, a step of it touches nothing
/// that is not in its queue.
pub proof fn law_round_keeps_to_its_queue(
    before: TxManager,
    queue: PollQueue,
    after: TxManager,
    queue_after: PollQueue,
    step: PollStep,
    other: Seq<char>,
)
    requires
        queue.valid(),
        polls(before, queue, after, queue_after, step),
        !id_texts(queue.ids@).contains(other),
    ensures
        after.contexts().contains_key(other) == before.contexts().contains_key(other),
        before.contexts().contains_key(other) ==> after.contexts()[other]
            == before.contexts()[other],
{
    let ids = id_texts(queue.ids@);
    lemma_next_open(ids, queue.next as int, before.contexts());
    let at = next_open(ids, queue.next as int, before.contexts());
    if at < ids.len() {
        assert(ids.contains(ids[at]));
    }
}

proof fn lemma_next_open(ids: Seq<Seq<char>>, from: int, contexts: Contexts)
    requires
        0 <= from <= ids.len(),
    ensures
        from <= next_open(ids, from, contexts) <= ids.len(),
    decreases ids.len() - from,
{
    if from < ids.len() && !contexts.contains_key(ids[from]) {
        lemma_next_open(ids, from + 1, contexts);
    }
}

/// A round of polling in which nothing else comes to the manager. Each step but
/// the last is a rollback, and what the database says to it comes back before
/// the next step.
pub struct Round {
    /// The manager before each step.
    pub managers: Seq<TxManager>,
    /// The queue before each step, and after the last.
    pub queues: Seq<PollQueue>,
    pub steps: Seq<PollStep>,
    /// The manager after each step.
    pub polled: Seq<TxManager>,
    /// What the database says to each rollback.
    pub outcomes: Seq<Result<(), Error>>,
    /// What the manager makes of that.
    pub ends: Seq<FinishStep>,
}

impl Round {
    /// The number of rollbacks.
    pub open spec fn rollbacks(self) -> int {
        self.steps.len() - 1
    }

    /// Step `i` leads from the manager and the queue before it to those after it.
    pub open spec fn step_follows(self, i: int) -> bool {
        polls(self.managers[i], self.queues[i], self.polled[i], self.queues[i + 1], self.steps[i])
    }

    /// Step `i` is a rollback, and what the database says to it goes to the
    /// manager before the next step.
    pub open spec fn rollback_follows(self, i: int) -> bool {
        &&& self.steps[i].action matches PollAction::Rollback { context_id, tx: _ }
        &&& finishes(
            Finish::Rollback,
            self.polled[i],
            context_id@,
            FinishEvent::Finished(self.outcomes[i]),
            self.managers[i + 1],
            self.ends[i],
        )
    }

    /// The parts belong together.
    pub open spec fn valid(self) -> bool {
        &&& self.steps.len() > 0
        &&& forall|i: int| 0 <= i <= self.rollbacks() ==> #[trigger] self.step_follows(i)
        &&& forall|i: int| 0 <= i < self.rollbacks() ==> #[trigger] self.rollback_follows(i)
        &&& !(self.steps[self.rollbacks()].action is Rollback)
    }

    /// Step `i` rolls back the transaction that was open under `ids[i]` when the
    /// round began.
    pub open spec fn rolls_back(self, i: int) -> bool {
        &&& self.steps[i].action matches PollAction::Rollback { context_id, tx }
        &&& context_id@ == self.queues[0].ids@[i]@
        &&& tx == self.managers[0].contexts()[context_id@].0
    }
}

/// A round of polling rolls back every transaction that was due when it began,
/// each once, and no other; then nothing that was due is open, whatever the
/// database said, and all else is as it was. So one that is open for too long is
/// rolled back. Once the manager is no longer alive nothing at all is left, and
/// polling is over; before that the next round follows after
/// `tx_check_interval`.
pub proof fn law_round(round: Round, now: Instant)
    requires
        round.valid(),
        starts_round(round.managers[0], now, round.queues[0]),
    ensures
        round.rollbacks() == round.queues[0].ids@.len(),
        forall|i: int| 0 <= i < round.rollbacks() ==> #[trigger] round.rolls_back(i),
        round.polled[round.rollbacks()].contexts() == round.managers[0].contexts().remove_keys(
            round.managers[0].due(now),
        ),
        !round.managers[0].alive ==> {
            &&& round.polled[round.rollbacks()].contexts() == Contexts::empty()
            &&& round.steps[round.rollbacks()].action is Exit
        },
        round.managers[0].alive ==> round.steps[round.rollbacks()].action == PollAction::Sleep(
            round.managers[0].tx_check_interval,
        ),
{
    let ids = id_texts(round.queues[0].ids@);
    let start = round.managers[0].contexts();
    let n = round.rollbacks();
    assert forall|i: int| 0 <= i < ids.len() implies start.contains_key(#[trigger] ids[i]) by {
        assert(ids.to_set().contains(ids[i]));
    }
    lemma_round_prefix(round, now, n);
    lemma_still_open(ids, start, n);
    assert(round.step_follows(n));
    assert(ids.take(n) =~= ids);
    assert(round.polled[n].contexts() == start.remove_keys(round.managers[0].due(now)));
    assert forall|i: int| 0 <= i < n implies #[trigger] round.rolls_back(i) by {
        lemma_round_prefix(round, now, i);
        lemma_still_open(ids, start, i);
        assert(round.step_follows(i));
    }
    if !round.managers[0].alive {
        assert(round.polled[n].contexts() =~= Contexts::empty());
    }
}

/// Where the first `i` of `ids` are gone, the next is still open.
proof fn lemma_still_open(ids: Seq<Seq<char>>, start: Contexts, i: int)
    requires
        0 <= i <= ids.len(),
        ids.no_duplicates(),
        forall|k: int| 0 <= k < ids.len() ==> start.contains_key(#[trigger] ids[k]),
    ensures
        next_open(ids, i, start.remove_keys(ids.take(i).to_set())) == i,
        i < ids.len() ==> start.remove_keys(ids.take(i).to_set()).contains_key(ids[i]),
{
    if i < ids.len() {
        assert(!ids.take(i).contains(ids[i])) by {
            if ids.take(i).contains(ids[i]) {
                let k = ids.take(i).index_of(ids[i]);
                assert(ids[k] == ids[i]);
            }
        }
        assert(start.remove_keys(ids.take(i).to_set()).contains_key(ids[i]));
    }
}

/// Before step `i` the first `i` ids are gone, and nothing else.
proof fn lemma_round_prefix(round: Round, now: Instant, i: int)
    requires
        round.valid(),
        starts_round(round.managers[0], now, round.queues[0]),
        0 <= i <= round.rollbacks(),
    ensures
        i <= round.queues[0].ids@.len(),
        round.queues[i].ids == round.queues[0].ids,
        round.queues[i].closing == round.queues[0].closing,
        round.queues[i].next == i,
        round.managers[i].settings_of(&round.managers[0]),
        round.managers[i].contexts() == round.managers[0].contexts().remove_keys(
            id_texts(round.queues[0].ids@).take(i).to_set(),
        ),
    decreases i,
{
    let ids = id_texts(round.queues[0].ids@);
    let start = round.managers[0].contexts();
    if i == 0 {
        assert(ids.take(0) =~= Seq::empty());
        assert(start.remove_keys(ids.take(0).to_set()) =~= start);
    } else {
        lemma_round_prefix(round, now, i - 1);
        assert forall|k: int| 0 <= k < ids.len() implies start.contains_key(#[trigger] ids[k]) by {
            assert(ids.to_set().contains(ids[k]));
        }
        lemma_still_open(ids, start, i - 1);
        assert(round.step_follows(i - 1));
        assert(round.rollback_follows(i - 1));
        assert(ids.take(i) =~= ids.take(i - 1).push(ids[i - 1]));
        assert forall|x: Seq<char>| ids.take(i).contains(x) <==> (ids.take(i - 1).contains(x) || x
            == ids[i - 1]) by {
            if ids.take(i - 1).contains(x) {
                let k = ids.take(i - 1).index_of(x);
                assert(ids.take(i)[k] == x);
            }
            if x == ids[i - 1] {
                assert(ids.take(i)[i - 1] == x);
            }
        }
        assert(round.managers[i].contexts() =~= start.remove_keys(ids.take(i).to_set()));
    }
}

/// A guard that has ended its transaction answers with its id from then on and
/// asks nothing of the manager, and nothing is left to do when it goes away.
pub proof fn law_guard_ends_once<M>(
    g0: TxGuard<M>,
    g1: TxGuard<M>,
    g2: TxGuard<M>,
    g3: TxGuard<M>,
    first: Finish,
    answer: String,
    step1: GuardStep,
    second: Finish,
    event: GuardEvent,
    step2: GuardStep,
    left: Option<GuardEnd<M>>,
)
    requires
        tries(first, g0, GuardEvent::Finished(Ok(answer)), g1, step1),
        tries(second, g1, event, g2, step2),
        drops(g2, g3, left),
    ensures
        step2 matches GuardStep::Done(Ok(id)) && id@ == g0.tx_id@,
        left is None,
{
}

/// A guard goes to its manager at most once when it goes away.
pub proof fn law_guard_drops_once<M>(
    g0: TxGuard<M>,
    g1: TxGuard<M>,
    g2: TxGuard<M>,
    first: Option<GuardEnd<M>>,
    second: Option<GuardEnd<M>>,
)
    requires
        drops(g0, g1, first),
        drops(g1, g2, second),
    ensures
        second is None,
{
}

/// An attempt through a guard that the database refuses: the guard hands on the
/// error and keeps its manager, and the next attempt, of either kind, learns that
/// the transaction does not exist.
pub proof fn law_refused_attempt<M>(
    g0: TxGuard<M>,
    g1: TxGuard<M>,
    g2: TxGuard<M>,
    m0: TxManager,
    m1: TxManager,
    m2: TxManager,
    m3: TxManager,
    finish: Finish,
    asked: GuardStep,
    handed: FinishStep,
    refusal: Error,
    told: FinishStep,
    answer: Error,
    end: GuardStep,
    again: Finish,
    retold: FinishStep,
)
    requires
        g0.manager is Some,
        tries(finish, g0, GuardEvent::Requested, g1, asked),
        finishes(finish, m0, g0.tx_id@, FinishEvent::Requested, m1, handed),
        finishes(finish, m1, g0.tx_id@, FinishEvent::Finished(Err(refusal)), m2, told),
        told == (FinishStep::Done { result: Err(answer), log: None }),
        tries(finish, g1, GuardEvent::Finished(Err(answer)), g2, end),
        finishes(again, m2, g0.tx_id@, FinishEvent::Requested, m3, retold),
    ensures
        end == GuardStep::Done(Err(refusal)),
        g2.manager == g0.manager,
        retold matches FinishStep::Done { result: Err(e), log: None } && e@ == not_exist_text(
            g0.tx_id@,
        ),
{
}

/// Nothing but white space.
pub open spec fn is_blank(s: Seq<char>) -> bool {
    forall|i: int| 0 <= i < s.len() ==> is_white_space_char(#[trigger] s[i])
}

/// White space around a text does not matter to what is left of it when
/// trimmed.
pub proof fn law_padding(before: Seq<char>, s: Seq<char>, after: Seq<char>)
    requires
        is_blank(before),
        is_blank(after),
    ensures
        trimmed(before + s + after) == trimmed(s),
{
    assert(before + s + after =~= before + (s + after));
    lemma_blank_start(before, s + after);
    lemma_start_of_padded(s, after);
    if is_blank(s) {
        lemma_blank_start(s, Seq::empty());
        assert(s + Seq::<char>::empty() =~= s);
    } else {
        lemma_blank_end(trim_start(s), after);
    }
}

proof fn lemma_blank_start(blank: Seq<char>, s: Seq<char>)
    requires
        is_blank(blank),
    ensures
        trim_start(blank + s) == trim_start(s),
    decreases blank.len(),
{
    if blank.len() == 0 {
        assert(blank + s =~= s);
    } else {
        assert((blank + s).first() == blank[0]);
        assert((blank + s).drop_first() =~= blank.drop_first() + s);
        lemma_blank_start(blank.drop_first(), s);
    }
}

proof fn lemma_blank_end(s: Seq<char>, blank: Seq<char>)
    requires
        is_blank(blank),
    ensures
        trim_end(s + blank) == trim_end(s),
    decreases blank.len(),
{
    if blank.len() == 0 {
        assert(s + blank =~= s);
    } else {
        assert((s + blank).last() == blank.last());
        assert((s + blank).drop_last() =~= s + blank.drop_last());
        lemma_blank_end(s, blank.drop_last());
    }
}

proof fn lemma_start_of_padded(s: Seq<char>, blank: Seq<char>)
    requires
        is_blank(blank),
    ensures
        is_blank(s) ==> trim_start(s + blank) == Seq::<char>::empty(),
        !is_blank(s) ==> trim_start(s + blank) == trim_start(s) + blank,
    decreases s.len(),
{
    if is_blank(s) {
        assert(is_blank(s + blank));
        lemma_blank_start(s + blank, Seq::empty());
        assert((s + blank) + Seq::<char>::empty() =~= s + blank);
    } else if is_white_space_char(s.first()) {
        assert((s + blank).first() == s.first());
        assert((s + blank).drop_first() =~= s.drop_first() + blank);
        assert(!is_blank(s.drop_first())) by {
            let i = choose|i: int| 0 <= i < s.len() && !is_white_space_char(#[trigger] s[i]);
            assert(s.drop_first()[i - 1] == s[i]);
        }
        lemma_start_of_padded(s.drop_first(), blank);
    } else {
        assert((s + blank).first() == s.first());
    }
}

/// Neither interceptor against whole-table statements can be got round, or set
/// off, by white space around the statement.
pub proof fn law_padding_does_not_hide(
    before: Seq<char>,
    sql: Seq<char>,
    after: Seq<char>,
    keyword: SqlKeyword,
    r_where: SqlKeyword,
)
    requires
        is_blank(before),
        is_blank(after),
    ensures
        hits_whole_table(before + sql + after, keyword, r_where) == hits_whole_table(
            sql,
            keyword,
            r_where,
        ),
{
    law_padding(before, sql, after);
}

proof fn lemma_lower_char(c: char)
    ensures
        is_white_space_char(lower_char(c)) == is_white_space_char(c),
        is_quote_char(lower_char(c)) == is_quote_char(c),
        is_quote_char(c) ==> lower_char(c) == c,
{
}

proof fn lemma_lowered_trimmed(s: Seq<char>)
    ensures
        lowered(trimmed(s)) == trimmed(lowered(s)),
{
    lemma_lowered_trim_start(s);
    lemma_lowered_trim_end(trim_start(s));
}

proof fn lemma_lowered_trim_start(s: Seq<char>)
    ensures
        lowered(trim_start(s)) == trim_start(lowered(s)),
    decreases s.len(),
{
    if s.len() > 0 {
        lemma_lower_char(s.first());
        assert(lowered(s).drop_first() =~= lowered(s.drop_first()));
        lemma_lowered_trim_start(s.drop_first());
    }
}

proof fn lemma_lowered_trim_end(s: Seq<char>)
    ensures
        lowered(trim_end(s)) == trim_end(lowered(s)),
    decreases s.len(),
{
    if s.len() > 0 {
        lemma_lower_char(s.last());
        assert(lowered(s).drop_last() =~= lowered(s.drop_last()));
        lemma_lowered_trim_end(s.drop_last());
    }
}

proof fn lemma_lowered_next_at(s: Seq<char>, c: char, from: int)
    requires
        is_quote_char(c),
        0 <= from,
    ensures
        next_at(lowered(s), c, from) == next_at(s, c, from),
    decreases s.len() - from,
{
    if from < s.len() {
        lemma_lower_char(s[from]);
        if s[from] != c {
            lemma_lowered_next_at(s, c, from + 1);
        }
    }
}

proof fn lemma_lowered_outside_quotes(s: Seq<char>)
    ensures
        lowered(outside_quotes(s)) == outside_quotes(lowered(s)),
    decreases s.len(),
{
    let low = lowered(s);
    if s.len() == 0 {
        assert(lowered(s) =~= s);
    } else {
        lemma_lower_char(s[0]);
        let end = next_at(s, s[0], 1);
        if is_quote_char(s[0]) {
            lemma_lowered_next_at(s, s[0], 1);
        }
        if quoted_up_to(s, end) {
            assert(quoted_up_to(low, end));
            assert(lowered(s.skip(end + 1)) =~= low.skip(end + 1));
            lemma_lowered_outside_quotes(s.skip(end + 1));
            assert(lowered(outside_quotes(s)) =~= outside_quotes(low));
        } else {
            assert(!quoted_up_to(low, next_at(low, low[0], 1)));
            assert(lowered(s.drop_first()) =~= low.drop_first());
            lemma_lowered_outside_quotes(s.drop_first());
            assert(lowered(outside_quotes(s)) =~= outside_quotes(low));
        }
    }
}

/// The case of letters makes no difference to either interceptor against
/// whole-table statements, be it in the statement or in the keywords.
pub proof fn law_letter_case_does_not_matter(
    sql: Seq<char>,
    other_sql: Seq<char>,
    keyword: SqlKeyword,
    other_keyword: SqlKeyword,
    r_where: SqlKeyword,
    other_where: SqlKeyword,
)
    requires
        lowered(sql) == lowered(other_sql),
        lowered(keyword.value@) == lowered(other_keyword.value@),
        lowered(r_where.left_right_space@) == lowered(other_where.left_right_space@),
    ensures
        hits_whole_table(sql, keyword, r_where) == hits_whole_table(
            other_sql,
            other_keyword,
            other_where,
        ),
{
    lemma_lowered_trimmed(sql);
    lemma_lowered_trimmed(other_sql);
    lemma_lowered_outside_quotes(trimmed(sql));
    lemma_lowered_outside_quotes(trimmed(other_sql));
}

/// Every quote in `s` that opens is closed.
pub open spec fn quotes_closed(s: Seq<char>) -> bool
    decreases s.len(),
{
    if s.len() == 0 {
        true
    } else if is_quote_char(s[0]) {
        let end = next_at(s, s[0], 1);
        quoted_up_to(s, end) && quotes_closed(s.skip(end + 1))
    } else {
        quotes_closed(s.drop_first())
    }
}

/// No quote stands in `s`.
pub open spec fn has_no_quote(s: Seq<char>) -> bool {
    forall|i: int| 0 <= i < s.len() ==> !is_quote_char(#[trigger] s[i])
}

proof fn lemma_next_at_appended(s: Seq<char>, more: Seq<char>, c: char, from: int)
    requires
        0 <= from,
        next_at(s, c, from) < s.len(),
    ensures
        next_at(s + more, c, from) == next_at(s, c, from),
    decreases s.len() - from,
{
    if s[from] != c {
        lemma_next_at_appended(s, more, c, from + 1);
    }
}

pub(crate) proof fn lemma_outside_quotes_appended(s: Seq<char>, more: Seq<char>)
    requires
        quotes_closed(s),
    ensures
        outside_quotes(s + more) == outside_quotes(s) + outside_quotes(more),
    decreases s.len(),
{
    if s.len() == 0 {
        assert(s + more =~= more);
        assert(outside_quotes(s) + outside_quotes(more) =~= outside_quotes(more));
    } else if is_quote_char(s[0]) {
        let end = next_at(s, s[0], 1);
        lemma_next_at_appended(s, more, s[0], 1);
        assert(quoted_up_to(s + more, end));
        assert((s + more).skip(end + 1) =~= s.skip(end + 1) + more);
        lemma_outside_quotes_appended(s.skip(end + 1), more);
        assert(outside_quotes(s + more) =~= outside_quotes(s) + outside_quotes(more));
    } else {
        assert((s + more).drop_first() =~= s.drop_first() + more);
        lemma_outside_quotes_appended(s.drop_first(), more);
        assert(outside_quotes(s + more) =~= outside_quotes(s) + outside_quotes(more));
    }
}

pub(crate) proof fn lemma_no_quote(s: Seq<char>)
    requires
        has_no_quote(s),
    ensures
        quotes_closed(s),
        outside_quotes(s) == s,
    decreases s.len(),
{
    if s.len() > 0 {
        assert(has_no_quote(s.drop_first()));
        lemma_no_quote(s.drop_first());
        assert(outside_quotes(s) =~= s);
    }
}

proof fn lemma_first_char(s: Seq<char>, c: char, from: int, at: int)
    requires
        0 <= from <= at < s.len(),
        s[at] == c,
        forall|i: int| from <= i < at ==> s[i] != c,
    ensures
        next_at(s, c, from) == at,
    decreases at - from,
{
    if from < at {
        lemma_first_char(s, c, from + 1, at);
    }
}

/// `text` between two quotes `q`.
pub open spec fn in_quotes(q: char, text: Seq<char>) -> Seq<char> {
    seq![q] + text + seq![q]
}

pub(crate) proof fn lemma_in_quotes(q: char, text: Seq<char>)
    requires
        is_quote_char(q),
        !text.contains(q),
    ensures
        quotes_closed(in_quotes(q, text)),
        outside_quotes(in_quotes(q, text)) == seq![q, q],
{
    let s = in_quotes(q, text);
    let end = text.len() as int + 1;
    assert forall|i: int| 1 <= i < end implies s[i] != q by {
        assert(s[i] == text[i - 1]);
        assert(text.contains(text[i - 1]));
    }
    lemma_first_char(s, q, 1, end);
    assert(quoted_up_to(s, end));
    let rest = s.skip(end + 1);
    assert(rest.len() == 0);
    assert(quotes_closed(rest));
    assert(outside_quotes(rest) =~= Seq::empty());
    assert(outside_quotes(s) =~= seq![q, q]);
}

/// What stands between quotes in a statement, behind the keyword, makes no
/// difference: it is no condition. The statement has no white space at its ends.
pub proof fn law_quoted_text_is_no_condition(
    head: Seq<char>,
    q: char,
    text: Seq<char>,
    other: Seq<char>,
    tail: Seq<char>,
    keyword: SqlKeyword,
    r_where: SqlKeyword,
)
    requires
        is_quote_char(q),
        !text.contains(q),
        !other.contains(q),
        quotes_closed(head),
        head.len() > 0,
        head.len() >= keyword.value@.len(),
        !is_white_space_char(head.first()),
        tail.len() > 0 ==> !is_white_space_char(tail.last()),
    ensures
        hits_whole_table(head + in_quotes(q, text) + tail, keyword, r_where) == hits_whole_table(
            head + in_quotes(q, other) + tail,
            keyword,
            r_where,
        ),
{
    lemma_quoted_part(head, q, text, tail, keyword);
    lemma_quoted_part(head, q, other, tail, keyword);
}

proof fn lemma_quoted_part(
    head: Seq<char>,
    q: char,
    text: Seq<char>,
    tail: Seq<char>,
    keyword: SqlKeyword,
)
    requires
        is_quote_char(q),
        !text.contains(q),
        quotes_closed(head),
        head.len() > 0,
        head.len() >= keyword.value@.len(),
        !is_white_space_char(head.first()),
        tail.len() > 0 ==> !is_white_space_char(tail.last()),
    ensures
        trimmed(head + in_quotes(q, text) + tail) == head + in_quotes(q, text) + tail,
        outside_quotes(head + in_quotes(q, text) + tail) == outside_quotes(head) + seq![q, q]
            + outside_quotes(tail),
        occurs_at(lowered(head + in_quotes(q, text) + tail), lowered(keyword.value@), 0)
            == occurs_at(lowered(head), lowered(keyword.value@), 0),
{
    let sql = head + in_quotes(q, text) + tail;
    assert(sql.first() == head.first());
    assert(sql.last() == if tail.len() > 0 {
        tail.last()
    } else {
        q
    });
    assert(trimmed(sql) == sql);
    lemma_in_quotes(q, text);
    lemma_outside_quotes_appended(head, in_quotes(q, text) + tail);
    lemma_outside_quotes_appended(in_quotes(q, text), tail);
    assert(sql =~= head + (in_quotes(q, text) + tail));
    assert(outside_quotes(sql) =~= outside_quotes(head) + seq![q, q] + outside_quotes(tail));
    assert(lowered(sql).subrange(0, keyword.value@.len() as int) =~= lowered(head).subrange(
        0,
        keyword.value@.len() as int,
    ));
}

/// A statement with the where keyword between spaces, in any case of letters, passes,
/// whatever it begins with, if that stands outside quotes and has something on
/// either side of it.
pub proof fn law_condition_passes(
    head: Seq<char>,
    condition: Seq<char>,
    tail: Seq<char>,
    keyword: SqlKeyword,
    r_where: SqlKeyword,
)
    requires
        lowered(condition) == lowered(r_where.left_right_space@),
        has_no_quote(condition),
        quotes_closed(head),
        head.len() > 0,
        !is_white_space_char(head.first()),
        tail.len() > 0,
        !is_white_space_char(tail.last()),
    ensures
        !hits_whole_table(head + condition + tail, keyword, r_where),
{
    let sql = head + condition + tail;
    assert(sql.first() == head.first());
    assert(sql.last() == tail.last());
    assert(trimmed(sql) == sql);
    lemma_no_quote(condition);
    lemma_outside_quotes_appended(head, condition + tail);
    lemma_outside_quotes_appended(condition, tail);
    assert(sql =~= head + (condition + tail));
    let from = outside_quotes(head).len() as int;
    let low = lowered(outside_quotes(sql));
    assert(low.subrange(from, from + condition.len()) =~= lowered(condition));
    assert(occurs_at(low, lowered(r_where.left_right_space@), from));
}

/// A statement that begins with the keyword, in any case of letters, has something
/// after it and holds no where keyword between spaces outside quotes is refused.
pub proof fn law_whole_table_is_refused(
    start: Seq<char>,
    tail: Seq<char>,
    keyword: SqlKeyword,
    r_where: SqlKeyword,
)
    requires
        lowered(start) == lowered(keyword.value@),
        start.len() > 0,
        !is_white_space_char(start.first()),
        tail.len() > 0,
        !is_white_space_char(tail.last()),
        !occurs(lowered(outside_quotes(start + tail)), lowered(r_where.left_right_space@)),
    ensures
        hits_whole_table(start + tail, keyword, r_where),
{
    let sql = start + tail;
    assert(sql.first() == start.first());
    assert(sql.last() == tail.last());
    assert(trimmed(sql) == sql);
    assert(lowered(sql).subrange(0, start.len() as int) =~= lowered(start));
    assert(occurs_at(lowered(sql), lowered(keyword.value@), 0));
}

/// Without arguments a statement is logged as it is.
pub proof fn law_no_arguments(sql: Seq<char>, placeholders: Seq<String>)
    ensures
        formatted(sql, placeholders, Seq::empty()) == "[format_sql]"@ + sql,
{
}

/// Where no placeholder stands in the statement, it is logged as it is.
pub proof fn law_nothing_to_fill(
    sql: Seq<char>,
    placeholders: Seq<String>,
    args: Seq<Seq<char>>,
    n: nat,
)
    requires
        n <= args.len(),
        n <= placeholders.len(),
        forall|i: int|
            0 <= i < n ==> !occurs("[format_sql]"@ + sql, (#[trigger] placeholders[i])@),
    ensures
        filled(sql, placeholders, args, n) == "[format_sql]"@ + sql,
    decreases n,
{
    if n > 0 {
        law_nothing_to_fill(sql, placeholders, args, (n - 1) as nat);
        assert(!occurs("[format_sql]"@ + sql, placeholders[n - 1]@));
    }
}

/// The positions of those of the first `n` names that are not `rbatis_name`.
pub open spec fn kept(rbatis_name: Seq<char>, names: Seq<String>, n: nat) -> Seq<int> {
    Seq::new(n, |i: int| i).filter(|i: int| names[i]@ != rbatis_name)
}

/// The code that collects the arguments is one statement after another, one for
/// each argument that is not the ORM, in the order of the parameters.
pub proof fn law_arguments_are_collected_in_order(
    rbatis_name: Seq<char>,
    names: Seq<String>,
    args: Seq<ArgTokens>,
    n: nat,
)
    requires
        n <= names.len(),
        args.len() == names.len(),
    ensures
        inserts(rbatis_name, names, args, n) == kept(rbatis_name, names, n).map_values(
            |i: int| insert_tokens(tokens(args[i].ident), tokens(args[i].label)),
        ).flatten(),
    decreases n,
{
    reveal(Seq::filter);
    let statement = |i: int| insert_tokens(tokens(args[i].ident), tokens(args[i].label));
    let before = kept(rbatis_name, names, (n - 1) as nat);
    if n == 0 {
        assert(kept(rbatis_name, names, 0).map_values(statement) =~= Seq::empty());
    } else {
        law_arguments_are_collected_in_order(rbatis_name, names, args, (n - 1) as nat);
        assert(Seq::new(n, |i: int| i).drop_last() =~= Seq::new((n - 1) as nat, |i: int| i));
        if names[n - 1]@ != rbatis_name {
            assert(kept(rbatis_name, names, n) == before.push(n - 1));
            assert(before.push(n - 1).map_values(statement) =~= before.map_values(statement).push(
                statement(n - 1),
            ));
            before.map_values(statement).lemma_flatten_push(statement(n - 1));
        }
    }
}

/// The last parameter that is a context id is the context to run in.
pub proof fn law_last_context_wins(
    rbatis_name: Seq<char>,
    names: Seq<String>,
    args: Seq<ArgTokens>,
    k: int,
    n: nat,
)
    requires
        0 <= k < n <= names.len(),
        args.len() == names.len(),
        names[k]@ != rbatis_name,
        is_context_name(names[k]@),
        forall|i: int|
            k < i < n ==> (#[trigger] names[i])@ == rbatis_name || !is_context_name(names[i]@),
    ensures
        context_arg(rbatis_name, names, args, n) == tokens(args[k].ident),
    decreases n,
{
    if n > k + 1 {
        assert(names[n - 1]@ == rbatis_name || !is_context_name(names[n - 1]@));
        law_last_context_wins(rbatis_name, names, args, k, (n - 1) as nat);
    }
}

/// Without a parameter that is a context id the context to run in is the empty
/// text.
pub proof fn law_no_context(
    rbatis_name: Seq<char>,
    names: Seq<String>,
    args: Seq<ArgTokens>,
    n: nat,
)
    requires
        n <= names.len(),
        forall|i: int|
            0 <= i < n ==> (#[trigger] names[i])@ == rbatis_name || !is_context_name(names[i]@),
    ensures
        context_arg(rbatis_name, names, args, n) == one(quoted(Seq::empty())),
    decreases n,
{
    if n > 0 {
        assert(names[n - 1]@ == rbatis_name || !is_context_name(names[n - 1]@));
        law_no_context(rbatis_name, names, args, (n - 1) as nat);
    }
}

/// Of a function whose parameters are identifiers there is code exactly where the
/// macro has its two arguments and the function is async.
pub proof fn law_code_for_every_async_function(
    target_fn: PyFn,
    args: Seq<TokenStream>,
    is_fetch: bool,
    page_req: TokenStream,
    r: Result<TokenStream, PySqlError>,
)
    requires
        all_idents(target_fn.arg_names@),
        replaces(target_fn, args, is_fetch, page_req, r),
    ensures
        r is Err <==> args.len() < 2 || !target_fn.is_async,
{
}

/// Each of `names` is made of letters and digits of ASCII and underscores.
pub open spec fn all_words(names: Seq<String>) -> bool {
    forall|i: int| 0 <= i < names.len() ==> is_word((#[trigger] names[i])@)
}

/// The first `n` parameters have the same names in `names` and `more_names`, and
/// appear in the code in the same way in `args` and `more_args`.
pub(crate) open spec fn agree(
    names: Seq<String>,
    args: Seq<ArgTokens>,
    more_names: Seq<String>,
    more_args: Seq<ArgTokens>,
    n: int,
) -> bool {
    forall|i: int|
        #![trigger names[i]]
        #![trigger args[i]]
        0 <= i < n ==> names[i]@ == more_names[i]@ && tokens(args[i].ident) == tokens(
            more_args[i].ident,
        ) && tokens(args[i].label) == tokens(more_args[i].label)
}

pub(crate) proof fn lemma_agree(
    rbatis_name: Seq<char>,
    names: Seq<String>,
    args: Seq<ArgTokens>,
    more_names: Seq<String>,
    more_args: Seq<ArgTokens>,
    n: nat,
)
    requires
        agree(names, args, more_names, more_args, n as int),
    ensures
        inserts(rbatis_name, names, args, n) == inserts(rbatis_name, more_names, more_args, n),
        context_arg(rbatis_name, names, args, n) == context_arg(
            rbatis_name,
            more_names,
            more_args,
            n,
        ),
    decreases n,
{
    if n > 0 {
        assert(names[n - 1]@ == more_names[n - 1]@);
        lemma_agree(rbatis_name, names, args, more_names, more_args, (n - 1) as nat);
    }
}

/// Names of ASCII appear in the code in one way only.
proof fn lemma_words_agree(
    names: Seq<String>,
    args: Seq<ArgTokens>,
    span: Span,
    more_args: Seq<ArgTokens>,
    more_span: Span,
)
    requires
        all_words(names),
        args_of(names, args, span),
        args_of(names, more_args, more_span),
    ensures
        agree(names, args, names, more_args, names.len() as int),
{
    assert forall|i: int| #![trigger names[i]] #![trigger args[i]] 0 <= i < names.len() implies
        tokens(args[i].ident) == tokens(more_args[i].ident) && tokens(args[i].label) == tokens(
        more_args[i].label,
    ) by {
        assert(is_word(names[i]@));
        assert(arg_of(names[i]@, args[i], span));
        assert(arg_of(names[i]@, more_args[i], more_span));
    }
}

/// The parameters that `code` and `context` are made from.
pub(crate) open spec fn args_behind(
    rbatis_name: Seq<char>,
    names: Seq<String>,
    span: Span,
    code: Texts,
    context: Texts,
) -> Seq<ArgTokens> {
    choose|args: Seq<ArgTokens>|
        {
            &&& #[trigger] args_of(names, args, span)
            &&& code == inserts(rbatis_name, names, args, names.len())
            &&& context == context_arg(rbatis_name, names, args, names.len())
        }
}

/// The code that collects the same arguments is the same each time, for names of
/// ASCII.
proof fn lemma_collected_alike(
    rbatis_name: Seq<char>,
    names: Seq<String>,
    code: Texts,
    context: Texts,
    more_code: Texts,
    more_context: Texts,
)
    requires
        all_words(names),
        collects(rbatis_name, names, code, context),
        collects(rbatis_name, names, more_code, more_context),
    ensures
        code == more_code,
        context == more_context,
{
    let span = choose|span: Span| #[trigger]
        collects_at(rbatis_name, names, span, code, context);
    let more_span = choose|span: Span| #[trigger]
        collects_at(rbatis_name, names, span, more_code, more_context);
    let args = args_behind(rbatis_name, names, span, code, context);
    let more_args = args_behind(rbatis_name, names, more_span, more_code, more_context);
    lemma_words_agree(names, args, span, more_args, more_span);
    lemma_agree(rbatis_name, names, args, names, more_args, names.len());
}

/// What the macro is given after its first two arguments is ignored: what it may
/// answer with it and without it is the same, and where the names of the parameters
/// are ASCII, so are the tokens of the code.
pub proof fn law_later_arguments_are_ignored(
    target_fn: PyFn,
    args: Seq<TokenStream>,
    more_args: Seq<TokenStream>,
    is_fetch: bool,
    page_req: TokenStream,
    r: Result<TokenStream, PySqlError>,
    more_r: Result<TokenStream, PySqlError>,
)
    requires
        args.len() >= 2,
        more_args.len() >= 2,
        args[0] == more_args[0],
        args[1] == more_args[1],
        replaces(target_fn, args, is_fetch, page_req, r),
        replaces(target_fn, more_args, is_fetch, page_req, more_r),
    ensures
        replaces(target_fn, more_args, is_fetch, page_req, r),
        replaces(target_fn, args, is_fetch, page_req, more_r),
        r is Ok <==> more_r is Ok,
        r is Ok && all_words(target_fn.arg_names@) ==> tokens(r->Ok_0) == tokens(more_r->Ok_0),
{
    lemma_later_arguments(target_fn, args, more_args, is_fetch, page_req, r);
    lemma_later_arguments(target_fn, more_args, args, is_fetch, page_req, more_r);
    if r is Ok && all_words(target_fn.arg_names@) {
        let names = target_fn.arg_names@;
        let rbatis_name = printed(args[0]);
        let (code, context) = choose|code: Texts, context: Texts|
            {
                &&& #[trigger] collects(rbatis_name, names, code, context)
                &&& tokens(r->Ok_0) == generated(target_fn, args, is_fetch, page_req, code, context)
            };
        let (more_code, more_context) = choose|code: Texts, context: Texts|
            {
                &&& #[trigger] collects(rbatis_name, names, code, context)
                &&& tokens(more_r->Ok_0) == generated(
                    target_fn,
                    more_args,
                    is_fetch,
                    page_req,
                    code,
                    context,
                )
            };
        lemma_collected_alike(rbatis_name, names, code, context, more_code, more_context);
    }
}

proof fn lemma_later_arguments(
    target_fn: PyFn,
    args: Seq<TokenStream>,
    more_args: Seq<TokenStream>,
    is_fetch: bool,
    page_req: TokenStream,
    r: Result<TokenStream, PySqlError>,
)
    requires
        args.len() >= 2,
        more_args.len() >= 2,
        args[0] == more_args[0],
        args[1] == more_args[1],
        replaces(target_fn, args, is_fetch, page_req, r),
    ensures
        replaces(target_fn, more_args, is_fetch, page_req, r),
{
    assert forall|code: Texts, context: Texts| #[trigger]
        generated(target_fn, args, is_fetch, page_req, code, context) == generated(
            target_fn,
            more_args,
            is_fetch,
            page_req,
            code,
            context,
        ) by {}
}

/// The context to run in for two lists of parameters: that of the second, unless
/// it has none.
pub open spec fn later_context(first: Texts, second: Texts) -> Texts {
    if second == one(quoted(Seq::empty())) {
        first
    } else {
        second
    }
}

proof fn lemma_appended(
    rbatis_name: Seq<char>,
    names: Seq<String>,
    args: Seq<ArgTokens>,
    more_names: Seq<String>,
    more_args: Seq<ArgTokens>,
    more_span: Span,
    n: nat,
)
    requires
        args.len() == names.len(),
        args_of(more_names, more_args, more_span),
        n <= more_names.len(),
    ensures
        inserts(rbatis_name, names + more_names, args + more_args, names.len() + n) == inserts(
            rbatis_name,
            names,
            args,
            names.len(),
        ) + inserts(rbatis_name, more_names, more_args, n),
        context_arg(rbatis_name, names + more_names, args + more_args, names.len() + n)
            == later_context(
            context_arg(rbatis_name, names, args, names.len()),
            context_arg(rbatis_name, more_names, more_args, n),
        ),
    decreases n,
{
    let all_names = names + more_names;
    let all_args = args + more_args;
    if n == 0 {
        assert(agree(all_names, all_args, names, args, names.len() as int));
        lemma_agree(rbatis_name, all_names, all_args, names, args, names.len());
        assert(inserts(rbatis_name, names, args, names.len()) + Texts::empty() =~= inserts(
            rbatis_name,
            names,
            args,
            names.len(),
        ));
    } else {
        lemma_appended(rbatis_name, names, args, more_names, more_args, more_span, (n - 1) as nat);
        let last = names.len() + n - 1;
        assert(all_names[last] == more_names[n - 1]);
        assert(all_args[last] == more_args[n - 1]);
        let name = more_names[n - 1]@;
        assert(arg_of(name, more_args[n - 1], more_span));
        assert(inserts(rbatis_name, all_names, all_args, names.len() + n) =~= inserts(
            rbatis_name,
            names,
            args,
            names.len(),
        ) + inserts(rbatis_name, more_names, more_args, n));
        if name != rbatis_name && is_context_name(name) {
            lemma_context_name(name);
            assert(one(name)[0].0[0] == name[0]);
            assert(one(quoted(Seq::empty()))[0].0[0] == '"');
        }
    }
}

pub(crate) proof fn lemma_context_name(name: Seq<char>)
    requires
        is_context_name(name),
    ensures
        is_word(name),
        name.len() > 0,
        name[0] != '"',
{
    reveal_strlit("ctx_id");
    reveal_strlit("context_id");
    reveal_strlit("tx_id");
}

/// The code that collects the parameters of two lists put together is that of the
/// first followed by that of the second, and the context of the second wins where
/// it has one.
pub proof fn law_two_lists_of_parameters(
    rbatis_name: Seq<char>,
    first: Seq<String>,
    second: Seq<String>,
    span: Span,
    code: Texts,
    context: Texts,
)
    ensures
        collects_at(rbatis_name, first + second, span, code, context) <==> exists|
            code1: Texts,
            context1: Texts,
            code2: Texts,
            context2: Texts,
        |
            {
                &&& #[trigger] collects_at(rbatis_name, first, span, code1, context1)
                &&& #[trigger] collects_at(rbatis_name, second, span, code2, context2)
                &&& code == code1 + code2
                &&& context == later_context(context1, context2)
            },
{
    let all = first + second;
    if collects_at(rbatis_name, all, span, code, context) {
        let args = args_behind(rbatis_name, all, span, code, context);
        let args1 = args.take(first.len() as int);
        let args2 = args.skip(first.len() as int);
        assert(args =~= args1 + args2);
        assert forall|i: int| 0 <= i < args1.len() implies arg_of(
            first[i]@,
            #[trigger] args1[i],
            span,
        ) by {
            assert(arg_of(all[i]@, args[i], span));
        }
        assert forall|i: int| 0 <= i < args2.len() implies arg_of(
            second[i]@,
            #[trigger] args2[i],
            span,
        ) by {
            assert(arg_of(all[first.len() + i]@, args[first.len() + i], span));
        }
        assert(args_of(first, args1, span));
        assert(args_of(second, args2, span));
        lemma_appended(rbatis_name, first, args1, second, args2, span, second.len());
        let code1 = inserts(rbatis_name, first, args1, first.len());
        let context1 = context_arg(rbatis_name, first, args1, first.len());
        let code2 = inserts(rbatis_name, second, args2, second.len());
        let context2 = context_arg(rbatis_name, second, args2, second.len());
        assert(collects_at(rbatis_name, first, span, code1, context1));
        assert(collects_at(rbatis_name, second, span, code2, context2));
    }
    assert forall|code1: Texts, context1: Texts, code2: Texts, context2: Texts|
        {
            &&& #[trigger] collects_at(rbatis_name, first, span, code1, context1)
            &&& #[trigger] collects_at(rbatis_name, second, span, code2, context2)
        } implies collects_at(
        rbatis_name,
        all,
        span,
        code1 + code2,
        later_context(context1, context2),
    ) by {
        let args1 = args_behind(rbatis_name, first, span, code1, context1);
        let args2 = args_behind(rbatis_name, second, span, code2, context2);
        lemma_appended(rbatis_name, first, args1, second, args2, span, second.len());
        lemma_args_appended(first, args1, second, args2, span);
        assert(args_of(all, args1 + args2, span));
    }
}

proof fn lemma_args_appended(
    first: Seq<String>,
    args1: Seq<ArgTokens>,
    second: Seq<String>,
    args2: Seq<ArgTokens>,
    span: Span,
)
    requires
        args_of(first, args1, span),
        args_of(second, args2, span),
    ensures
        args_of(first + second, args1 + args2, span),
{
    let all = first + second;
    let args = args1 + args2;
    assert forall|i: int| 0 <= i < args.len() implies arg_of(all[i]@, #[trigger] args[i], span) by {
        if i < first.len() {
            assert(arg_of(first[i]@, args1[i], span));
        } else {
            assert(arg_of(second[i - first.len()]@, args2[i - first.len()], span));
        }
    }
}

/// For names of ASCII, three calls of `filter_args_context_id`, with two lists of
/// parameters and with both put together, answer with code that adds up and with the
/// context of the second list where it has one.
pub proof fn law_two_lists_of_words(
    rbatis_name: Seq<char>,
    first: Seq<String>,
    second: Seq<String>,
    code1: Texts,
    context1: Texts,
    code2: Texts,
    context2: Texts,
    code: Texts,
    context: Texts,
)
    requires
        all_words(first),
        all_words(second),
        collects(rbatis_name, first, code1, context1),
        collects(rbatis_name, second, code2, context2),
        collects(rbatis_name, first + second, code, context),
    ensures
        code == code1 + code2,
        context == later_context(context1, context2),
{
    let span = choose|span: Span| #[trigger]
        collects_at(rbatis_name, first + second, span, code, context);
    law_two_lists_of_parameters(rbatis_name, first, second, span, code, context);
    let (a, b, c, d) = choose|a: Texts, b: Texts, c: Texts, d: Texts|
        {
            &&& #[trigger] collects_at(rbatis_name, first, span, a, b)
            &&& #[trigger] collects_at(rbatis_name, second, span, c, d)
            &&& code == a + c
            &&& context == later_context(b, d)
        };
    lemma_collected_alike(rbatis_name, first, code1, context1, a, b);
    lemma_collected_alike(rbatis_name, second, code2, context2, c, d);
}

/// Without parameters there is nothing to collect, and the context to run in is the
/// empty text.
pub proof fn law_no_parameters(rbatis_name: Seq<char>, code: Texts, context: Texts)
    requires
        collects(rbatis_name, Seq::empty(), code, context),
    ensures
        code == Texts::empty(),
        context == one(quoted(Seq::empty())),
{
}

} // verus!
