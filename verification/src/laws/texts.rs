//! What the functions on texts answer, in terms of how a text is put together.

use vstd::prelude::*;

use crate::laws::{
    is_blank, law_padding, lemma_no_quote, lemma_outside_quotes_appended,
    quotes_closed,
};
use crate::text::{
    chars_of, contains, contains_outside_quotes, is_white_space_char, joined, lower_char, lowered,
    next_at, occurs, occurs_at, outside_quotes, part_of, quoted_up_to, replace_first,
    replaced_first, starts_in_any_case, starts_with, trim, trim_end, trim_start, trimmed,
};

verus! {

/// No white space at either end.
pub open spec fn is_tight(s: Seq<char>) -> bool {
    s.len() > 0 ==> !is_white_space_char(s.first()) && !is_white_space_char(s.last())
}

/// A trimmed text is the text without white space around it, and has none at its
/// ends.
pub proof fn law_trim(s: &str, r: String)
    requires
        call_ensures(trim, (s,), r),
    ensures
        is_tight(r@),
        exists|before: Seq<char>, after: Seq<char>|
            s@ == #[trigger] (before + r@ + after) && is_blank(before) && is_blank(after),
{
    lemma_trimmed_parts(s@);
}

/// Whatever white space is put around a text that has none at its ends, trimming
/// gives that text back.
pub proof fn law_trim_takes_padding_off(
    s: &str,
    r: String,
    before: Seq<char>,
    core: Seq<char>,
    after: Seq<char>,
)
    requires
        call_ensures(trim, (s,), r),
        s@ == before + core + after,
        is_blank(before),
        is_blank(after),
        is_tight(core),
    ensures
        r@ == core,
{
    lemma_trimmed_is(before, core, after);
}

pub(crate) proof fn lemma_trimmed_is(before: Seq<char>, core: Seq<char>, after: Seq<char>)
    requires
        is_blank(before),
        is_blank(after),
        is_tight(core),
    ensures
        trimmed(before + core + after) == core,
{
    law_padding(before, core, after);
    if core.len() == 0 {
        assert(trimmed(core) =~= core);
    }
}

pub(crate) proof fn lemma_trimmed_parts(s: Seq<char>)
    ensures
        is_tight(trimmed(s)),
        exists|before: Seq<char>, after: Seq<char>|
            s == #[trigger] (before + trimmed(s) + after) && is_blank(before) && is_blank(after),
{
    lemma_trim_start_parts(s);
    lemma_trim_end_parts(trim_start(s));
    let before = s.take(s.len() - trim_start(s).len());
    let after = trim_start(s).skip(trimmed(s).len() as int);
    assert(s =~= before + trimmed(s) + after);
    if trimmed(s).len() > 0 {
        assert(trimmed(s).first() == trim_start(s).first());
    }
}

proof fn lemma_trim_start_parts(s: Seq<char>)
    ensures
        trim_start(s).len() <= s.len(),
        s.skip(s.len() - trim_start(s).len()) == trim_start(s),
        is_blank(s.take(s.len() - trim_start(s).len())),
        trim_start(s).len() > 0 ==> !is_white_space_char(trim_start(s).first()),
    decreases s.len(),
{
    if s.len() > 0 && is_white_space_char(s.first()) {
        lemma_trim_start_parts(s.drop_first());
        let n = s.len() - trim_start(s).len();
        assert(s.skip(n) =~= s.drop_first().skip(n - 1));
        assert forall|i: int| 0 <= i < n implies is_white_space_char(#[trigger] s.take(n)[i]) by {
            if i > 0 {
                assert(s.take(n)[i] == s.drop_first().take(n - 1)[i - 1]);
            }
        }
    } else {
        assert(s.skip(0) =~= s);
    }
}

proof fn lemma_trim_end_parts(s: Seq<char>)
    ensures
        trim_end(s).len() <= s.len(),
        s.take(trim_end(s).len() as int) == trim_end(s),
        is_blank(s.skip(trim_end(s).len() as int)),
        trim_end(s).len() > 0 ==> !is_white_space_char(trim_end(s).last()),
    decreases s.len(),
{
    if s.len() > 0 && is_white_space_char(s.last()) {
        lemma_trim_end_parts(s.drop_last());
        let n = trim_end(s).len() as int;
        assert(s.take(n) =~= s.drop_last().take(n));
        assert forall|i: int| 0 <= i < s.len() - n implies is_white_space_char(
            #[trigger] s.skip(n)[i],
        ) by {
            if i < s.len() - n - 1 {
                assert(s.skip(n)[i] == s.drop_last().skip(n)[i]);
            }
        }
    } else {
        assert(s.take(s.len() as int) =~= s);
        assert(s.skip(s.len() as int).len() == 0);
    }
}

/// `part` stands somewhere in `s`.
pub open spec fn is_part(s: Seq<char>, part: Seq<char>) -> bool {
    exists|before: Seq<char>, after: Seq<char>| s == #[trigger] (before + part + after)
}

/// A text begins with another exactly where it is that one with something, or
/// nothing, behind it, and holds another exactly where it is that one with
/// something, or nothing, on either side.
pub proof fn law_searching(s: &str, part: &str, starts: bool, holds: bool)
    requires
        call_ensures(starts_with, (s, part), starts),
        call_ensures(contains, (s, part), holds),
    ensures
        starts <==> exists|rest: Seq<char>| s@ == #[trigger] (part@ + rest),
        holds <==> is_part(s@, part@),
{
    lemma_starts(s@, part@);
    lemma_is_part(s@, part@);
}

pub(crate) proof fn lemma_starts(s: Seq<char>, part: Seq<char>)
    ensures
        occurs_at(s, part, 0) <==> exists|rest: Seq<char>| s == #[trigger] (part + rest),
{
    if occurs_at(s, part, 0) {
        assert(s =~= part + s.skip(part.len() as int));
    }
    if exists|rest: Seq<char>| s == #[trigger] (part + rest) {
        let rest = choose|rest: Seq<char>| s == #[trigger] (part + rest);
        assert(s.subrange(0, part.len() as int) =~= part);
    }
}

pub(crate) proof fn lemma_is_part(s: Seq<char>, part: Seq<char>)
    ensures
        occurs(s, part) <==> is_part(s, part),
{
    if occurs(s, part) {
        let at = choose|at: int| occurs_at(s, part, at);
        assert(s =~= s.take(at) + part + s.skip(at + part.len()));
    }
    if is_part(s, part) {
        let (before, after) = choose|before: Seq<char>, after: Seq<char>|
            s == #[trigger] (before + part + after);
        assert(s.subrange(before.len() as int, (before.len() + part.len()) as int) =~= part);
        assert(occurs_at(s, part, before.len() as int));
    }
}

/// `part` stands in `s` behind `before`, and nowhere further left.
pub open spec fn is_leftmost(s: Seq<char>, before: Seq<char>, part: Seq<char>) -> bool {
    &&& before.len() + part.len() <= s.len()
    &&& s.take((before.len() + part.len()) as int) == before + part
    &&& forall|x: Seq<char>, y: Seq<char>|
        s == #[trigger] (x + part + y) ==> x.len() >= before.len()
}

/// Where a part stands leftmost in a text it is replaced, and all else stays; a text
/// that does not hold it stays as it is.
pub proof fn law_replaced_first(
    s: &str,
    part: &str,
    by: &str,
    r: String,
    before: Seq<char>,
    after: Seq<char>,
)
    requires
        call_ensures(replaced_first, (s, part, by), r),
    ensures
        s@ == before + part@ + after && is_leftmost(s@, before, part@) ==> r@ == before + by@
            + after,
        !is_part(s@, part@) ==> r@ == s@,
{
    if s@ == before + part@ + after && is_leftmost(s@, before, part@) {
        lemma_replaced_is(s@, before, part@, after, by@);
    }
    lemma_is_part(s@, part@);
}

pub(crate) proof fn lemma_replaced_is(
    s: Seq<char>,
    before: Seq<char>,
    part: Seq<char>,
    after: Seq<char>,
    by: Seq<char>,
)
    requires
        s == before + part + after,
        is_leftmost(s, before, part),
    ensures
        replace_first(s, part, by) == before + by + after,
{
    let at = before.len() as int;
    assert(s.subrange(at, at + part.len()) =~= part);
    assert forall|i: int| 0 <= i < at implies !occurs_at(s, part, i) by {
        if occurs_at(s, part, i) {
            assert(s =~= s.take(i) + part + s.skip(i + part.len()));
            assert(s.take(i).len() >= before.len());
        }
    }
    assert(crate::text::first_at(s, part, at));
    crate::text::lemma_first_at_unique(s, part, at);
    assert(s.subrange(0, at) =~= before);
    assert(s.subrange(at + part.len(), s.len() as int) =~= after);
}

/// Every text that holds a part holds it leftmost somewhere.
pub proof fn law_leftmost_exists(s: Seq<char>, part: Seq<char>)
    requires
        is_part(s, part),
    ensures
        exists|before: Seq<char>, after: Seq<char>|
            s == #[trigger] (before + part + after) && is_leftmost(s, before, part),
{
    lemma_is_part(s, part);
    let at = choose|at: int| occurs_at(s, part, at);
    lemma_leftmost_up_to(s, part, at);
}

proof fn lemma_leftmost_up_to(s: Seq<char>, part: Seq<char>, at: int)
    requires
        occurs_at(s, part, at),
    ensures
        exists|before: Seq<char>, after: Seq<char>|
            s == #[trigger] (before + part + after) && is_leftmost(s, before, part),
    decreases at,
{
    if exists|i: int| 0 <= i < at && occurs_at(s, part, i) {
        let i = choose|i: int| 0 <= i < at && occurs_at(s, part, i);
        lemma_leftmost_up_to(s, part, i);
    } else {
        let before = s.take(at);
        let after = s.skip(at + part.len());
        assert(s =~= before + part + after);
        assert(s.take((before.len() + part.len()) as int) =~= before + part);
        assert forall|x: Seq<char>, y: Seq<char>| s == #[trigger] (x + part + y) implies x.len()
            >= before.len() by {
            assert(s.subrange(x.len() as int, (x.len() + part.len()) as int) =~= part);
            assert(occurs_at(s, part, x.len() as int));
        }
        assert(is_leftmost(s, before, part));
    }
}

/// Texts are put together, taken apart and read character by character.
pub proof fn law_parts(
    a: &str,
    b: &str,
    c: &str,
    whole: String,
    from: usize,
    to: usize,
    part: String,
    chars: Vec<char>,
)
    requires
        call_ensures(joined, (a, b, c), whole),
        from <= to <= a@.len(),
        call_ensures(part_of, (a, from, to), part),
        call_ensures(chars_of, (a,), chars),
    ensures
        whole@ == a@ + (b@ + c@),
        a@ == a@.take(from as int) + part@ + a@.skip(to as int),
        part@.len() == to - from,
        chars@.len() == a@.len(),
        forall|i: int| 0 <= i < a@.len() ==> chars@[i] == #[trigger] a@[i],
{
    assert(whole@ =~= a@ + (b@ + c@));
    assert(a@ =~= a@.take(from as int) + part@ + a@.skip(to as int));
}

/// The same character, or the same letter of ASCII in the other case.
pub open spec fn same_letter(c: char, d: char) -> bool {
    ||| c == d
    ||| 'A' <= c <= 'Z' && d as int == c as int + 32
    ||| 'A' <= d <= 'Z' && c as int == d as int + 32
}

/// The same text, the case of letters of ASCII put aside.
pub open spec fn same_text(s: Seq<char>, t: Seq<char>) -> bool {
    &&& s.len() == t.len()
    &&& forall|i: int| 0 <= i < s.len() ==> same_letter(#[trigger] s[i], t[i])
}

proof fn lemma_same_letter(c: char, d: char)
    ensures
        lower_char(c) == lower_char(d) <==> same_letter(c, d),
{
}

pub(crate) proof fn lemma_same_text(s: Seq<char>, t: Seq<char>)
    ensures
        lowered(s) == lowered(t) <==> same_text(s, t),
{
    assert forall|i: int| 0 <= i < s.len() && i < t.len() implies (lowered(s)[i] == lowered(t)[i]
        <==> same_letter(#[trigger] s[i], t[i])) by {
        lemma_same_letter(s[i], t[i]);
    }
    if same_text(s, t) {
        assert(lowered(s) =~= lowered(t));
    }
    if lowered(s) == lowered(t) {
        assert(s.len() == lowered(s).len());
        assert(t.len() == lowered(t).len());
        assert forall|i: int| 0 <= i < s.len() implies same_letter(#[trigger] s[i], t[i]) by {
            assert(lowered(s)[i] == lowered(t)[i]);
        }
    }
}

/// `s` begins with `start`, the case of letters put aside.
pub open spec fn starts_alike(s: Seq<char>, start: Seq<char>) -> bool {
    start.len() <= s.len() && same_text(s.take(start.len() as int), start)
}

/// `part` stands somewhere in `s`, the case of letters put aside.
pub open spec fn holds_alike(s: Seq<char>, part: Seq<char>) -> bool {
    exists|before: Seq<char>, found: Seq<char>, after: Seq<char>|
        s == #[trigger] (before + found + after) && same_text(found, part)
}

pub(crate) proof fn lemma_starts_alike(s: Seq<char>, start: Seq<char>)
    ensures
        occurs_at(lowered(s), lowered(start), 0) <==> starts_alike(s, start),
{
    let n = start.len() as int;
    if n <= s.len() {
        assert(lowered(s).subrange(0, n) =~= lowered(s.take(n)));
        lemma_same_text(s.take(n), start);
    }
}

pub(crate) proof fn lemma_holds_alike(s: Seq<char>, part: Seq<char>)
    ensures
        occurs(lowered(s), lowered(part)) <==> holds_alike(s, part),
{
    let n = part.len() as int;
    if occurs(lowered(s), lowered(part)) {
        let at = choose|at: int| occurs_at(lowered(s), lowered(part), at);
        let found = s.subrange(at, at + n);
        assert(lowered(s).subrange(at, at + n) =~= lowered(found));
        lemma_same_text(found, part);
        assert(s =~= s.take(at) + found + s.skip(at + n));
    }
    if holds_alike(s, part) {
        let (before, found, after) = choose|
            before: Seq<char>,
            found: Seq<char>,
            after: Seq<char>,
        |
            s == #[trigger] (before + found + after) && same_text(found, part);
        lemma_same_text(found, part);
        let at = before.len() as int;
        assert(lowered(s).subrange(at, at + n) =~= lowered(found));
        assert(occurs_at(lowered(s), lowered(part), at));
    }
}

/// A text begins with another in any case exactly where it does so letter by letter.
pub proof fn law_starts_in_any_case(s: &str, start: &str, r: bool)
    requires
        call_ensures(starts_in_any_case, (s, start), r),
    ensures
        r <==> starts_alike(s@, start@),
{
    lemma_starts_alike(s@, start@);
}

/// A quote of SQL.
pub open spec fn is_any_quote(c: char) -> bool {
    c == '\'' || c == '"' || c == '`'
}

/// Without quotes.
pub open spec fn is_unquoted(s: Seq<char>) -> bool {
    forall|i: int| 0 <= i < s.len() ==> !is_any_quote(#[trigger] s[i])
}

/// The quote that is open behind `s`, where `open` is before it: a quote opens where
/// none is open, and is closed by the next of its kind.
pub open spec fn open_behind(open: Option<char>, s: Seq<char>) -> Option<char>
    decreases s.len(),
{
    if s.len() == 0 {
        open
    } else {
        open_behind(
            match open {
                None => if is_any_quote(s[0]) {
                    Some(s[0])
                } else {
                    None
                },
                Some(q) => if s[0] == q {
                    None
                } else {
                    open
                },
            },
            s.drop_first(),
        )
    }
}

/// No quote is open behind `s`.
pub open spec fn is_closed(s: Seq<char>) -> bool {
    open_behind(None, s) is None
}

pub(crate) proof fn lemma_closed(s: Seq<char>)
    requires
        is_closed(s),
    ensures
        quotes_closed(s),
    decreases s.len(),
{
    if s.len() > 0 {
        if is_any_quote(s[0]) {
            assert(s.skip(1) =~= s.drop_first());
            lemma_closes(s, s[0], 1);
            lemma_closed(s.skip(next_at(s, s[0], 1) + 1));
        } else {
            lemma_closed(s.drop_first());
        }
    }
}

proof fn lemma_closes(s: Seq<char>, q: char, from: int)
    requires
        0 <= from <= s.len(),
        open_behind(Some(q), s.skip(from)) is None,
    ensures
        from <= next_at(s, q, from) < s.len(),
        is_closed(s.skip(next_at(s, q, from) + 1)),
    decreases s.len() - from,
{
    let rest = s.skip(from);
    if rest.len() > 0 {
        assert(rest.drop_first() =~= s.skip(from + 1));
        if s[from] != q {
            lemma_closes(s, q, from + 1);
        }
    }
}

pub(crate) proof fn lemma_unquoted(s: Seq<char>)
    requires
        is_unquoted(s),
    ensures
        crate::laws::has_no_quote(s),
        outside_quotes(s) == s,
        quotes_closed(s),
{
    lemma_no_quote(s);
}

/// What stands outside quotes, from how a text is put together: all of a text
/// without quotes; the two quotes of a text between them; a quote that is not closed
/// and what stands outside quotes behind it; and of a text in which no quote is left
/// open with another behind it, what stands outside quotes in either.
pub proof fn law_outside_quotes(s: Seq<char>, t: Seq<char>, q: char)
    ensures
        is_unquoted(s) ==> outside_quotes(s) == s,
        is_any_quote(q) && !s.contains(q) ==> outside_quotes(seq![q] + s + seq![q]) == seq![q, q],
        is_any_quote(q) && !s.contains(q) ==> outside_quotes(seq![q] + s) == seq![q]
            + outside_quotes(s),
        is_closed(s) ==> outside_quotes(s + t) == outside_quotes(s) + outside_quotes(t),
{
    if is_unquoted(s) {
        lemma_unquoted(s);
    }
    if is_any_quote(q) && !s.contains(q) {
        crate::laws::lemma_in_quotes(q, s);
        let open = seq![q] + s;
        assert forall|i: int| 1 <= i < open.len() implies open[i] != q by {
            assert(open[i] == s[i - 1]);
            assert(s.contains(s[i - 1]));
        }
        lemma_absent(open, q, 1);
        assert(open.drop_first() =~= s);
    }
    if is_closed(s) {
        lemma_closed(s);
        lemma_outside_quotes_appended(s, t);
    }
}

proof fn lemma_absent(s: Seq<char>, c: char, from: int)
    requires
        0 <= from <= s.len(),
        forall|i: int| from <= i < s.len() ==> s[i] != c,
    ensures
        next_at(s, c, from) == s.len(),
    decreases s.len() - from,
{
    if from < s.len() {
        lemma_absent(s, c, from + 1);
    }
}

/// What stands in a text outside quotes is found in any case of letters; what stands
/// between quotes makes no difference; and what does not stand in the text at all is
/// not found.
pub proof fn law_contains_outside_quotes(
    s: &str,
    other: &str,
    part: &str,
    r: bool,
    other_r: bool,
    head: Seq<char>,
    q: char,
    found: Seq<char>,
    instead: Seq<char>,
    tail: Seq<char>,
)
    requires
        call_ensures(contains_outside_quotes, (s, part), r),
        call_ensures(contains_outside_quotes, (other, part), other_r),
    ensures
        r <==> holds_alike(outside_quotes(s@), part@),
        s@ == head + found + tail && is_closed(head) && is_unquoted(found) && same_text(
            found,
            part@,
        ) ==> r,
        s@ == head + (seq![q] + found + seq![q]) + tail && other@ == head + (seq![q] + instead
            + seq![q]) + tail && is_closed(head) && is_any_quote(q) && !found.contains(q)
            && !instead.contains(q) ==> r == other_r,
        is_unquoted(part@) && part@.len() > 0 && !holds_alike(s@, part@) ==> !r,
{
    lemma_holds_alike(outside_quotes(s@), part@);
    if s@ == head + found + tail && is_closed(head) && is_unquoted(found) && same_text(
        found,
        part@,
    ) {
        lemma_found_outside(head, found, tail, part@);
    }
    if s@ == head + (seq![q] + found + seq![q]) + tail && other@ == head + (seq![q] + instead
        + seq![q]) + tail && is_closed(head) && is_any_quote(q) && !found.contains(q)
        && !instead.contains(q) {
        lemma_around_quoted(head, q, found, tail);
        lemma_around_quoted(head, q, instead, tail);
    }
    if is_unquoted(part@) && part@.len() > 0 && r {
        lemma_holds_outside(s@, part@);
    }
}

pub(crate) proof fn lemma_found_outside(
    head: Seq<char>,
    found: Seq<char>,
    tail: Seq<char>,
    part: Seq<char>,
)
    requires
        is_closed(head),
        is_unquoted(found),
        same_text(found, part),
    ensures
        holds_alike(outside_quotes(head + found + tail), part),
{
    lemma_closed(head);
    lemma_unquoted(found);
    lemma_outside_quotes_appended(head, found + tail);
    lemma_outside_quotes_appended(found, tail);
    assert(head + found + tail =~= head + (found + tail));
    assert(outside_quotes(head + found + tail) =~= outside_quotes(head) + found + outside_quotes(
        tail,
    ));
}

pub(crate) proof fn lemma_around_quoted(head: Seq<char>, q: char, text: Seq<char>, tail: Seq<char>)
    requires
        is_closed(head),
        is_any_quote(q),
        !text.contains(q),
    ensures
        outside_quotes(head + (seq![q] + text + seq![q]) + tail) == outside_quotes(head) + (seq![
            q,
            q,
        ] + outside_quotes(tail)),
{
    let quoted = seq![q] + text + seq![q];
    lemma_closed(head);
    crate::laws::lemma_in_quotes(q, text);
    assert(crate::laws::in_quotes(q, text) =~= quoted);
    lemma_outside_quotes_appended(head, quoted + tail);
    lemma_outside_quotes_appended(quoted, tail);
    assert(head + quoted + tail =~= head + (quoted + tail));
}

/// What stands outside the quotes of a text stands in the text.
pub(crate) proof fn lemma_holds_outside(s: Seq<char>, part: Seq<char>)
    requires
        is_unquoted(part),
        part.len() > 0,
        holds_alike(outside_quotes(s), part),
    ensures
        holds_alike(s, part),
    decreases s.len(),
{
    let out = outside_quotes(s);
    let (before, found, after) = choose|before: Seq<char>, found: Seq<char>, after: Seq<char>|
        out == #[trigger] (before + found + after) && same_text(found, part);
    assert(is_unquoted(found)) by {
        assert forall|i: int| 0 <= i < found.len() implies !is_any_quote(#[trigger] found[i]) by {
            assert(same_letter(found[i], part[i]));
            assert(!is_any_quote(part[i]));
        }
    }
    let at = before.len() as int;
    assert(out.subrange(at, at + found.len()) =~= found);
    lemma_part_outside(s, at, found);
    let (b, a) = choose|b: Seq<char>, a: Seq<char>| s == #[trigger] (b + found + a);
    assert(s == b + found + a);
}

proof fn lemma_part_outside(s: Seq<char>, at: int, found: Seq<char>)
    requires
        is_unquoted(found),
        found.len() > 0,
        0 <= at,
        at + found.len() <= outside_quotes(s).len(),
        outside_quotes(s).subrange(at, at + found.len()) == found,
    ensures
        is_part(s, found),
    decreases s.len(),
{
    let out = outside_quotes(s);
    assert(out.subrange(at, at + found.len())[0] == out[at]);
    assert(!is_any_quote(found[0]));
    let end = next_at(s, s[0], 1);
    if quoted_up_to(s, end) {
        let rest = outside_quotes(s.skip(end + 1));
        assert(out == seq![s[0], s[0]] + rest);
        assert(at >= 2);
        assert(rest.subrange(at - 2, at - 2 + found.len()) =~= found);
        lemma_part_outside(s.skip(end + 1), at - 2, found);
        lemma_part_of_rest(s, end + 1, found);
    } else {
        let rest = outside_quotes(s.drop_first());
        assert(out == seq![s[0]] + rest);
        if at > 0 {
            assert(rest.subrange(at - 1, at - 1 + found.len()) =~= found);
            lemma_part_outside(s.drop_first(), at - 1, found);
            assert(s.drop_first() =~= s.skip(1));
            lemma_part_of_rest(s, 1, found);
        } else {
            lemma_start_outside(s, found);
            assert(s =~= Seq::<char>::empty() + found + s.skip(found.len() as int));
        }
    }
}

proof fn lemma_part_of_rest(s: Seq<char>, from: int, found: Seq<char>)
    requires
        0 <= from <= s.len(),
        is_part(s.skip(from), found),
    ensures
        is_part(s, found),
{
    let (b, a) = choose|b: Seq<char>, a: Seq<char>| s.skip(from) == #[trigger] (b + found + a);
    assert(s =~= (s.take(from) + b) + found + a) by {
        assert(s =~= s.take(from) + s.skip(from));
    }
}

proof fn lemma_start_outside(s: Seq<char>, found: Seq<char>)
    requires
        is_unquoted(found),
        found.len() <= outside_quotes(s).len(),
        outside_quotes(s).take(found.len() as int) == found,
    ensures
        found.len() <= s.len(),
        s.take(found.len() as int) == found,
    decreases s.len(),
{
    if found.len() > 0 {
        let out = outside_quotes(s);
        assert(out.take(found.len() as int)[0] == out[0]);
        assert(!is_any_quote(found[0]));
        let end = next_at(s, s[0], 1);
        assert(!quoted_up_to(s, end));
        let rest = outside_quotes(s.drop_first());
        assert(out == seq![s[0]] + rest);
        assert(rest.take(found.len() - 1) =~= found.drop_first());
        assert(is_unquoted(found.drop_first()));
        lemma_start_outside(s.drop_first(), found.drop_first());
        assert(s.take(found.len() as int) =~= found) by {
            assert(found =~= seq![found[0]] + found.drop_first());
            assert(s.take(found.len() as int) =~= seq![s[0]] + s.drop_first().take(
                found.len() - 1,
            ));
        }
    }
}

} // verus!
