//! What the interceptors answer to a statement.

use serde_json::Value;
use vstd::prelude::*;

use crate::error::Error;
use crate::laws::is_blank;
use crate::laws::texts::{
    holds_alike, is_any_quote, is_closed, is_leftmost, is_part, is_tight, is_unquoted,
    lemma_around_quoted, lemma_found_outside, lemma_holds_alike, lemma_holds_outside,
    lemma_is_part, lemma_replaced_is, lemma_starts_alike, lemma_trimmed_is, same_text,
    starts_alike,
};
use crate::log::LogLine;
use crate::plugin::intercept::{
    filled, format_sql, json_text, json_texts, BlockAttackDeleteInterceptor,
    BlockAttackUpdateInterceptor, DriverType, Rbatis, RbatisLogFormatSqlIntercept, SqlIntercept,
};
use crate::text::outside_quotes;

verus! {

/// `sql` is `core`, which has no white space at its ends, with white space around it.
pub open spec fn is_padded(
    sql: Seq<char>,
    before: Seq<char>,
    core: Seq<char>,
    after: Seq<char>,
) -> bool {
    &&& sql == before + core + after
    &&& is_blank(before)
    &&& is_blank(after)
    &&& is_tight(core)
}

/// A statement is refused exactly where, white space around it put aside, it begins
/// with the delete keyword in any case of letters and the where keyword does not stand
/// outside its quotes. The message shows it without the white space. Any other
/// passes without a word. Neither it nor its arguments change.
pub proof fn law_delete_is_refused_or_passes(
    interceptor: &BlockAttackDeleteInterceptor,
    rb: &Rbatis,
    context_id: &str,
    sql: &mut String,
    args: &mut Vec<Value>,
    is_prepared_sql: bool,
    r: Result<Option<LogLine>, Error>,
    before: Seq<char>,
    core: Seq<char>,
    after: Seq<char>,
)
    requires
        call_ensures(
            <BlockAttackDeleteInterceptor as SqlIntercept>::do_intercept,
            (interceptor, rb, context_id, sql, args, is_prepared_sql),
            r,
        ),
        is_padded(old(sql)@, before, core, after),
    ensures
        r is Err <==> starts_alike(core, rb.template.delete_from.value@) && !holds_alike(
            outside_quotes(core),
            rb.template.r_where.left_right_space@,
        ),
        r matches Err(e) ==> e.message@
            == "[rbatis][BlockAttackDeleteInterceptor] not allow attack sql:"@ + core,
        r matches Ok(log) ==> log is None,
        final(sql)@ == old(sql)@,
        final(args)@ == old(args)@,
{
    lemma_trimmed_is(before, core, after);
    lemma_starts_alike(core, rb.template.delete_from.value@);
    lemma_holds_alike(outside_quotes(core), rb.template.r_where.left_right_space@);
}

/// Whatever comes behind the delete keyword, in any case of letters and with any white
/// space around it all: a statement in which the where keyword does not stand at all
/// is refused, and shown.
pub proof fn law_delete_of_a_whole_table_is_refused(
    interceptor: &BlockAttackDeleteInterceptor,
    rb: &Rbatis,
    context_id: &str,
    sql: &mut String,
    args: &mut Vec<Value>,
    is_prepared_sql: bool,
    r: Result<Option<LogLine>, Error>,
    before: Seq<char>,
    start: Seq<char>,
    tail: Seq<char>,
    after: Seq<char>,
)
    requires
        call_ensures(
            <BlockAttackDeleteInterceptor as SqlIntercept>::do_intercept,
            (interceptor, rb, context_id, sql, args, is_prepared_sql),
            r,
        ),
        is_padded(old(sql)@, before, start + tail, after),
        same_text(start, rb.template.delete_from.value@),
        rb.template.r_where.left_right_space@.len() > 0,
        is_unquoted(rb.template.r_where.left_right_space@),
        !holds_alike(start + tail, rb.template.r_where.left_right_space@),
    ensures
        r matches Err(e) && e.message@
            == "[rbatis][BlockAttackDeleteInterceptor] not allow attack sql:"@ + start + tail,
{
    let core = start + tail;
    law_delete_is_refused_or_passes(
        interceptor, rb, context_id, sql, args, is_prepared_sql, r, before, core, after,
    );
    assert(core.take(start.len() as int) =~= start);
    let condition = rb.template.r_where.left_right_space@;
    if holds_alike(outside_quotes(core), condition) {
        lemma_holds_outside(core, condition);
    }
    let message = "[rbatis][BlockAttackDeleteInterceptor] not allow attack sql:"@;
    assert(message + start + tail =~= message + core);
}

/// A statement with the where keyword outside its quotes, in any case of letters,
/// passes, whatever it begins with; so does one that does not begin with the delete
/// keyword, whatever it holds.
pub proof fn law_other_than_delete_of_a_whole_table_passes(
    interceptor: &BlockAttackDeleteInterceptor,
    rb: &Rbatis,
    context_id: &str,
    sql: &mut String,
    args: &mut Vec<Value>,
    is_prepared_sql: bool,
    r: Result<Option<LogLine>, Error>,
    before: Seq<char>,
    head: Seq<char>,
    condition: Seq<char>,
    tail: Seq<char>,
    after: Seq<char>,
)
    requires
        call_ensures(
            <BlockAttackDeleteInterceptor as SqlIntercept>::do_intercept,
            (interceptor, rb, context_id, sql, args, is_prepared_sql),
            r,
        ),
        is_padded(old(sql)@, before, head + condition + tail, after),
    ensures
        is_closed(head) && is_unquoted(condition) && same_text(
            condition,
            rb.template.r_where.left_right_space@,
        ) ==> (r matches Ok(log) && log is None),
        !starts_alike(head + condition + tail, rb.template.delete_from.value@) ==> (
        r matches Ok(log) && log is None),
{
    law_delete_is_refused_or_passes(
        interceptor,
        rb,
        context_id,
        sql,
        args,
        is_prepared_sql,
        r,
        before,
        head + condition + tail,
        after,
    );
    if is_closed(head) && is_unquoted(condition) && same_text(
        condition,
        rb.template.r_where.left_right_space@,
    ) {
        lemma_found_outside(head, condition, tail, rb.template.r_where.left_right_space@);
    }
}

/// Two statements that begin with the delete keyword and differ in what stands between
/// two quotes only are both refused or both pass.
pub proof fn law_quoted_text_and_delete(
    interceptor: &BlockAttackDeleteInterceptor,
    rb: &Rbatis,
    context_id: &str,
    sql: &mut String,
    other_sql: &mut String,
    args: &mut Vec<Value>,
    other_args: &mut Vec<Value>,
    is_prepared_sql: bool,
    r: Result<Option<LogLine>, Error>,
    other_r: Result<Option<LogLine>, Error>,
    before: Seq<char>,
    head: Seq<char>,
    q: char,
    text: Seq<char>,
    other_text: Seq<char>,
    tail: Seq<char>,
    after: Seq<char>,
)
    requires
        call_ensures(
            <BlockAttackDeleteInterceptor as SqlIntercept>::do_intercept,
            (interceptor, rb, context_id, sql, args, is_prepared_sql),
            r,
        ),
        call_ensures(
            <BlockAttackDeleteInterceptor as SqlIntercept>::do_intercept,
            (interceptor, rb, context_id, other_sql, other_args, is_prepared_sql),
            other_r,
        ),
        is_padded(old(sql)@, before, head + (seq![q] + text + seq![q]) + tail, after),
        is_padded(old(other_sql)@, before, head + (seq![q] + other_text + seq![q]) + tail, after),
        starts_alike(head, rb.template.delete_from.value@),
        is_closed(head),
        is_any_quote(q),
        !text.contains(q),
        !other_text.contains(q),
    ensures
        r is Err <==> other_r is Err,
{
    let core = head + (seq![q] + text + seq![q]) + tail;
    let other = head + (seq![q] + other_text + seq![q]) + tail;
    law_delete_is_refused_or_passes(
        interceptor, rb, context_id, sql, args, is_prepared_sql, r, before, core, after,
    );
    law_delete_is_refused_or_passes(
        interceptor,
        rb,
        context_id,
        other_sql,
        other_args,
        is_prepared_sql,
        other_r,
        before,
        other,
        after,
    );
    lemma_around_quoted(head, q, text, tail);
    lemma_around_quoted(head, q, other_text, tail);
    let n = rb.template.delete_from.value@.len() as int;
    assert(core.take(n) =~= head.take(n));
    assert(other.take(n) =~= head.take(n));
}

/// A statement is refused exactly where, white space around it put aside, it begins
/// with the update keyword in any case of letters and the where keyword does not stand
/// outside its quotes. The message shows it without the white space. Any other
/// passes without a word. Neither it nor its arguments change.
pub proof fn law_update_is_refused_or_passes(
    interceptor: &BlockAttackUpdateInterceptor,
    rb: &Rbatis,
    context_id: &str,
    sql: &mut String,
    args: &mut Vec<Value>,
    is_prepared_sql: bool,
    r: Result<Option<LogLine>, Error>,
    before: Seq<char>,
    core: Seq<char>,
    after: Seq<char>,
)
    requires
        call_ensures(
            <BlockAttackUpdateInterceptor as SqlIntercept>::do_intercept,
            (interceptor, rb, context_id, sql, args, is_prepared_sql),
            r,
        ),
        is_padded(old(sql)@, before, core, after),
    ensures
        r is Err <==> starts_alike(core, rb.template.update.value@) && !holds_alike(
            outside_quotes(core),
            rb.template.r_where.left_right_space@,
        ),
        r matches Err(e) ==> e.message@
            == "[rbatis][BlockAttackUpdateInterceptor] not allow attack sql:"@ + core,
        r matches Ok(log) ==> log is None,
        final(sql)@ == old(sql)@,
        final(args)@ == old(args)@,
{
    lemma_trimmed_is(before, core, after);
    lemma_starts_alike(core, rb.template.update.value@);
    lemma_holds_alike(outside_quotes(core), rb.template.r_where.left_right_space@);
}

/// Whatever comes behind the update keyword, in any case of letters and with any white
/// space around it all: a statement in which the where keyword does not stand at all
/// is refused, and shown.
pub proof fn law_update_of_a_whole_table_is_refused(
    interceptor: &BlockAttackUpdateInterceptor,
    rb: &Rbatis,
    context_id: &str,
    sql: &mut String,
    args: &mut Vec<Value>,
    is_prepared_sql: bool,
    r: Result<Option<LogLine>, Error>,
    before: Seq<char>,
    start: Seq<char>,
    tail: Seq<char>,
    after: Seq<char>,
)
    requires
        call_ensures(
            <BlockAttackUpdateInterceptor as SqlIntercept>::do_intercept,
            (interceptor, rb, context_id, sql, args, is_prepared_sql),
            r,
        ),
        is_padded(old(sql)@, before, start + tail, after),
        same_text(start, rb.template.update.value@),
        rb.template.r_where.left_right_space@.len() > 0,
        is_unquoted(rb.template.r_where.left_right_space@),
        !holds_alike(start + tail, rb.template.r_where.left_right_space@),
    ensures
        r matches Err(e) && e.message@
            == "[rbatis][BlockAttackUpdateInterceptor] not allow attack sql:"@ + start + tail,
{
    let core = start + tail;
    law_update_is_refused_or_passes(
        interceptor, rb, context_id, sql, args, is_prepared_sql, r, before, core, after,
    );
    assert(core.take(start.len() as int) =~= start);
    let condition = rb.template.r_where.left_right_space@;
    if holds_alike(outside_quotes(core), condition) {
        lemma_holds_outside(core, condition);
    }
    let message = "[rbatis][BlockAttackUpdateInterceptor] not allow attack sql:"@;
    assert(message + start + tail =~= message + core);
}

/// A statement with the where keyword outside its quotes, in any case of letters,
/// passes, whatever it begins with; so does one that does not begin with the update
/// keyword, whatever it holds.
pub proof fn law_other_than_update_of_a_whole_table_passes(
    interceptor: &BlockAttackUpdateInterceptor,
    rb: &Rbatis,
    context_id: &str,
    sql: &mut String,
    args: &mut Vec<Value>,
    is_prepared_sql: bool,
    r: Result<Option<LogLine>, Error>,
    before: Seq<char>,
    head: Seq<char>,
    condition: Seq<char>,
    tail: Seq<char>,
    after: Seq<char>,
)
    requires
        call_ensures(
            <BlockAttackUpdateInterceptor as SqlIntercept>::do_intercept,
            (interceptor, rb, context_id, sql, args, is_prepared_sql),
            r,
        ),
        is_padded(old(sql)@, before, head + condition + tail, after),
    ensures
        is_closed(head) && is_unquoted(condition) && same_text(
            condition,
            rb.template.r_where.left_right_space@,
        ) ==> (r matches Ok(log) && log is None),
        !starts_alike(head + condition + tail, rb.template.update.value@) ==> (r matches Ok(log)
            && log is None),
{
    law_update_is_refused_or_passes(
        interceptor,
        rb,
        context_id,
        sql,
        args,
        is_prepared_sql,
        r,
        before,
        head + condition + tail,
        after,
    );
    if is_closed(head) && is_unquoted(condition) && same_text(
        condition,
        rb.template.r_where.left_right_space@,
    ) {
        lemma_found_outside(head, condition, tail, rb.template.r_where.left_right_space@);
    }
}

/// Two statements that begin with the update keyword and differ in what stands between
/// two quotes only are both refused or both pass.
pub proof fn law_quoted_text_and_update(
    interceptor: &BlockAttackUpdateInterceptor,
    rb: &Rbatis,
    context_id: &str,
    sql: &mut String,
    other_sql: &mut String,
    args: &mut Vec<Value>,
    other_args: &mut Vec<Value>,
    is_prepared_sql: bool,
    r: Result<Option<LogLine>, Error>,
    other_r: Result<Option<LogLine>, Error>,
    before: Seq<char>,
    head: Seq<char>,
    q: char,
    text: Seq<char>,
    other_text: Seq<char>,
    tail: Seq<char>,
    after: Seq<char>,
)
    requires
        call_ensures(
            <BlockAttackUpdateInterceptor as SqlIntercept>::do_intercept,
            (interceptor, rb, context_id, sql, args, is_prepared_sql),
            r,
        ),
        call_ensures(
            <BlockAttackUpdateInterceptor as SqlIntercept>::do_intercept,
            (interceptor, rb, context_id, other_sql, other_args, is_prepared_sql),
            other_r,
        ),
        is_padded(old(sql)@, before, head + (seq![q] + text + seq![q]) + tail, after),
        is_padded(old(other_sql)@, before, head + (seq![q] + other_text + seq![q]) + tail, after),
        starts_alike(head, rb.template.update.value@),
        is_closed(head),
        is_any_quote(q),
        !text.contains(q),
        !other_text.contains(q),
    ensures
        r is Err <==> other_r is Err,
{
    let core = head + (seq![q] + text + seq![q]) + tail;
    let other = head + (seq![q] + other_text + seq![q]) + tail;
    law_update_is_refused_or_passes(
        interceptor, rb, context_id, sql, args, is_prepared_sql, r, before, core, after,
    );
    law_update_is_refused_or_passes(
        interceptor,
        rb,
        context_id,
        other_sql,
        other_args,
        is_prepared_sql,
        other_r,
        before,
        other,
        after,
    );
    lemma_around_quoted(head, q, text, tail);
    lemma_around_quoted(head, q, other_text, tail);
    let n = rb.template.update.value@.len() as int;
    assert(core.take(n) =~= head.take(n));
    assert(other.take(n) =~= head.take(n));
}

/// `pieces` with `fills` between them, up to the piece at `n`.
pub open spec fn woven(pieces: Seq<Seq<char>>, fills: Seq<Seq<char>>, n: nat) -> Seq<char>
    decreases n,
{
    if n == 0 {
        pieces[0]
    } else {
        woven(pieces, fills, (n - 1) as nat) + fills[n - 1] + pieces[n as int]
    }
}

/// What is behind the piece at `n`: `fills` and `pieces` in turn.
pub open spec fn woven_behind(
    pieces: Seq<Seq<char>>,
    fills: Seq<Seq<char>>,
    n: nat,
) -> Seq<char>
    decreases fills.len() - n,
{
    if n >= fills.len() {
        Seq::empty()
    } else {
        fills[n as int] + pieces[n as int + 1] + woven_behind(pieces, fills, n + 1)
    }
}

/// The texts of strings.
pub open spec fn texts(strings: Seq<String>) -> Seq<Seq<char>> {
    strings.map_values(|s: String| s@)
}

proof fn lemma_woven(pieces: Seq<Seq<char>>, fills: Seq<Seq<char>>, n: nat)
    requires
        n <= fills.len(),
        pieces.len() == fills.len() + 1,
    ensures
        woven(pieces, fills, fills.len()) == woven(pieces, fills, n) + woven_behind(
            pieces,
            fills,
            n,
        ),
    decreases fills.len() - n,
{
    if n < fills.len() {
        lemma_woven(pieces, fills, n + 1);
        assert(woven(pieces, fills, n + 1) + woven_behind(pieces, fills, n + 1) =~= woven(
            pieces,
            fills,
            n,
        ) + woven_behind(pieces, fills, n));
    } else {
        assert(woven(pieces, fills, n) + Seq::<char>::empty() =~= woven(pieces, fills, n));
    }
}

proof fn lemma_filled_pieces(
    sql: Seq<char>,
    placeholders: Seq<String>,
    args: Seq<Seq<char>>,
    pieces: Seq<Seq<char>>,
    n: nat,
)
    requires
        n <= args.len(),
        args.len() == placeholders.len(),
        pieces.len() == args.len() + 1,
        sql == woven(pieces, texts(placeholders), args.len()),
        forall|k: int|
            0 <= k < args.len() ==> #[trigger] is_next(pieces, texts(placeholders), args, k),
    ensures
        filled(sql, placeholders, args, n) == "[format_sql]"@ + woven(pieces, args, n)
            + woven_behind(pieces, texts(placeholders), n),
    decreases n,
{
    let marks = texts(placeholders);
    if n == 0 {
        lemma_woven(pieces, marks, 0);
        assert("[format_sql]"@ + sql =~= "[format_sql]"@ + woven(pieces, args, 0) + woven_behind(
            pieces,
            marks,
            0,
        ));
    } else {
        let k = (n - 1) as nat;
        lemma_filled_pieces(sql, placeholders, args, pieces, k);
        assert(is_next(pieces, marks, args, k as int));
        let before = "[format_sql]"@ + woven(pieces, args, k);
        let after = pieces[n as int] + woven_behind(pieces, marks, n);
        let text = before + woven_behind(pieces, marks, k);
        assert(text =~= before + marks[k as int] + after);
        lemma_replaced_is(text, before, marks[k as int], after, args[k as int]);
        assert(before + args[k as int] + after =~= "[format_sql]"@ + woven(pieces, args, n)
            + woven_behind(pieces, marks, n));
    }
}

/// Where the arguments before `k` are put in, the placeholder of the argument at `k`
/// does not stand further left than behind the piece at `k`.
pub open spec fn is_next(
    pieces: Seq<Seq<char>>,
    marks: Seq<Seq<char>>,
    args: Seq<Seq<char>>,
    k: int,
) -> bool {
    let before = "[format_sql]"@ + woven(pieces, args, k as nat);
    is_leftmost(before + woven_behind(pieces, marks, k as nat), before, marks[k])
}

/// A statement is logged with every argument in the place of its placeholder, however
/// many there are, where each placeholder is the leftmost of its kind when its turn
/// comes.
pub proof fn law_every_argument_is_put_in(
    sql: &str,
    placeholders: &Vec<String>,
    args: &Vec<String>,
    r: String,
    pieces: Seq<Seq<char>>,
)
    requires
        call_ensures(format_sql, (sql, placeholders, args), r),
        placeholders@.len() == args@.len(),
        pieces.len() == args@.len() + 1,
        sql@ == woven(pieces, texts(placeholders@), args@.len()),
        forall|k: int|
            0 <= k < args@.len() ==> #[trigger] is_next(
                pieces,
                texts(placeholders@),
                texts(args@),
                k,
            ),
    ensures
        r@ == "[format_sql]"@ + woven(pieces, texts(args@), args@.len()),
{
    assert(texts(args@) =~= args@.map_values(|arg: String| arg@));
    lemma_filled_pieces(sql@, placeholders@, texts(args@), pieces, args@.len());
    let result = "[format_sql]"@ + woven(pieces, texts(args@), args@.len());
    assert(result + woven_behind(pieces, texts(placeholders@), args@.len()) =~= result);
}

/// Where every placeholder is the same one character, and that stands neither in the
/// statement around them nor in the arguments, every argument is put in at its place.
pub proof fn law_every_question_mark_is_filled(
    sql: &str,
    placeholders: &Vec<String>,
    args: &Vec<String>,
    r: String,
    pieces: Seq<Seq<char>>,
    c: char,
)
    requires
        call_ensures(format_sql, (sql, placeholders, args), r),
        placeholders@.len() == args@.len(),
        pieces.len() == args@.len() + 1,
        sql@ == woven(pieces, texts(placeholders@), args@.len()),
        forall|k: int| 0 <= k < args@.len() ==> (#[trigger] placeholders@[k])@ == seq![c],
        forall|k: int| 0 <= k < args@.len() ==> !(#[trigger] args@[k])@.contains(c),
        forall|k: int| 0 <= k < pieces.len() ==> !(#[trigger] pieces[k]).contains(c),
        !"[format_sql]"@.contains(c),
    ensures
        r@ == "[format_sql]"@ + woven(pieces, texts(args@), args@.len()),
{
    let marks = texts(placeholders@);
    assert forall|k: int| 0 <= k < args@.len() implies #[trigger] is_next(
        pieces,
        marks,
        texts(args@),
        k,
    ) by {
        let before = "[format_sql]"@ + woven(pieces, texts(args@), k as nat);
        assert(placeholders@[k]@ == seq![c]);
        lemma_woven_without(pieces, texts(args@), k as nat, c);
        let after = pieces[k + 1] + woven_behind(pieces, marks, (k + 1) as nat);
        lemma_one_mark(before, marks[k], c, after);
        assert(before + woven_behind(pieces, marks, k as nat) =~= before + marks[k] + after);
    }
    law_every_argument_is_put_in(sql, placeholders, args, r, pieces);
}

proof fn lemma_woven_without(pieces: Seq<Seq<char>>, fills: Seq<Seq<char>>, n: nat, c: char)
    requires
        n <= fills.len(),
        n < pieces.len(),
        forall|k: int| 0 <= k < pieces.len() ==> !(#[trigger] pieces[k]).contains(c),
        forall|k: int| 0 <= k < n ==> !(#[trigger] fills[k]).contains(c),
    ensures
        !woven(pieces, fills, n).contains(c),
    decreases n,
{
    if n > 0 {
        lemma_woven_without(pieces, fills, (n - 1) as nat, c);
        let s = woven(pieces, fills, (n - 1) as nat);
        let t = fills[n - 1];
        let u = pieces[n as int];
        assert(!t.contains(c));
        assert(!u.contains(c));
        assert forall|i: int| 0 <= i < (s + t + u).len() implies (s + t + u)[i] != c by {
            if i < s.len() {
                assert(s.contains(s[i]));
            } else if i < s.len() + t.len() {
                assert(t.contains(t[i - s.len()]));
            } else {
                assert(u.contains(u[i - s.len() - t.len()]));
            }
        }
    }
}

proof fn lemma_one_mark(before: Seq<char>, mark: Seq<char>, c: char, after: Seq<char>)
    requires
        mark == seq![c],
        forall|i: int| 0 <= i < before.len() ==> before[i] != c,
    ensures
        is_leftmost(before + mark + after, before, mark),
{
    let s = before + mark + after;
    assert(s.take((before.len() + mark.len()) as int) =~= before + mark);
    assert forall|x: Seq<char>, y: Seq<char>| s == #[trigger] (x + mark + y) implies x.len()
        >= before.len() by {
        assert((x + mark + y)[x.len() as int] == c);
    }
}

/// With one argument and one placeholder more, the argument takes the place of the
/// placeholder where that stands leftmost in the line as it was, and where it does not
/// stand there the line stays as it was.
pub proof fn law_one_argument_more(
    sql: &str,
    placeholders: &Vec<String>,
    args: &Vec<String>,
    more_placeholders: &Vec<String>,
    more_args: &Vec<String>,
    r: String,
    more_r: String,
    mark: String,
    arg: String,
    before: Seq<char>,
    after: Seq<char>,
)
    requires
        placeholders@.len() == args@.len(),
        more_placeholders@ == placeholders@.push(mark),
        more_args@ == args@.push(arg),
        call_ensures(format_sql, (sql, placeholders, args), r),
        call_ensures(format_sql, (sql, more_placeholders, more_args), more_r),
    ensures
        r@ == before + mark@ + after && is_leftmost(r@, before, mark@) ==> more_r@ == before + arg@
            + after,
        !is_part(r@, mark@) ==> more_r@ == r@,
{
    let n = args@.len();
    let a = args@.map_values(|arg: String| arg@);
    let b = more_args@.map_values(|arg: String| arg@);
    lemma_filled_alike(sql@, placeholders@, a, more_placeholders@, b, n);
    assert(b[n as int] == arg@);
    assert(more_placeholders@[n as int] == mark);
    if r@ == before + mark@ + after && is_leftmost(r@, before, mark@) {
        lemma_replaced_is(r@, before, mark@, after, arg@);
    }
    lemma_is_part(r@, mark@);
}

/// Without arguments, or without placeholders, the line is the statement as it is.
/// Arguments without placeholders, and placeholders without arguments, make no
/// difference.
pub proof fn law_what_is_left_over(
    sql: &str,
    placeholders: &Vec<String>,
    args: &Vec<String>,
    fewer_placeholders: &Vec<String>,
    fewer_args: &Vec<String>,
    r: String,
    fewer_r: String,
    n: int,
)
    requires
        call_ensures(format_sql, (sql, placeholders, args), r),
        call_ensures(format_sql, (sql, fewer_placeholders, fewer_args), fewer_r),
        n == placeholders@.len() <= args@.len() || n == args@.len() <= placeholders@.len(),
        fewer_placeholders@ == placeholders@.take(n),
        fewer_args@ == args@.take(n),
    ensures
        r@ == fewer_r@,
        n == 0 ==> r@ == "[format_sql]"@ + sql@,
{
    let a = args@.map_values(|arg: String| arg@);
    let b = fewer_args@.map_values(|arg: String| arg@);
    lemma_filled_alike(sql@, placeholders@, a, fewer_placeholders@, b, n as nat);
}

proof fn lemma_filled_alike(
    sql: Seq<char>,
    placeholders: Seq<String>,
    args: Seq<Seq<char>>,
    other_placeholders: Seq<String>,
    other_args: Seq<Seq<char>>,
    n: nat,
)
    requires
        forall|i: int|
            #![trigger placeholders[i]]
            #![trigger args[i]]
            0 <= i < n ==> placeholders[i]@ == other_placeholders[i]@ && args[i] == other_args[i],
    ensures
        filled(sql, placeholders, args, n) == filled(sql, other_placeholders, other_args, n),
    decreases n,
{
    if n > 0 {
        assert(placeholders[n - 1]@ == other_placeholders[n - 1]@);
        lemma_filled_alike(sql, placeholders, args, other_placeholders, other_args, (n - 1) as nat);
    }
}

/// For a statement of any of the databases there is a line, under its context: the
/// one that `format_sql` makes of it and of its arguments as they print. Without a
/// database there is none, and where it is not known which one it is, why that is so
/// is the answer. Neither the statement nor its arguments change.
pub proof fn law_statement_is_logged(
    interceptor: &RbatisLogFormatSqlIntercept,
    rb: &Rbatis,
    context_id: &str,
    sql: &mut String,
    args: &mut Vec<Value>,
    is_prepared_sql: bool,
    r: Result<Option<LogLine>, Error>,
    text: &str,
    printed_args: &Vec<String>,
    line_text: String,
)
    requires
        call_ensures(
            <RbatisLogFormatSqlIntercept as SqlIntercept>::do_intercept,
            (interceptor, rb, context_id, sql, args, is_prepared_sql),
            r,
        ),
        text@ == old(sql)@,
        printed_args@.len() == old(args)@.len(),
        forall|i: int|
            0 <= i < old(args)@.len() ==> (#[trigger] printed_args@[i])@ == json_text(
                old(args)@[i],
            ),
        call_ensures(format_sql, (text, &rb.placeholders, printed_args), line_text),
    ensures
        rb.driver_type matches Ok(driver) ==> !(driver is NoDriver) ==> (r matches Ok(Some(line))
            && line.context_id@ == context_id@ && line.text@ == line_text@),
        rb.driver_type matches Ok(DriverType::NoDriver) ==> (r matches Ok(log) && log is None),
        rb.driver_type matches Err(missing) ==> (r matches Err(e) && e.message@
            == missing.message@),
        final(sql)@ == old(sql)@,
        final(args)@ == old(args)@,
{
    let a = json_texts(old(args)@);
    let b = printed_args@.map_values(|arg: String| arg@);
    assert(a =~= b) by {
        assert forall|i: int| 0 <= i < a.len() implies a[i] == b[i] by {
            assert(printed_args@[i]@ == json_text(old(args)@[i]));
        }
    }
}

} // verus!
