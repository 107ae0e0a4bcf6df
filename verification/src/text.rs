//! Strings as sequences of characters: trimming, searching, replacing, letter
//! case and quotes.

use vstd::prelude::*;
use vstd::string::*;

verus! {

/// The Unicode property White_Space.
pub open spec fn is_white_space_char(c: char) -> bool {
    ||| '\u{9}' <= c <= '\u{d}'
    ||| c == '\u{20}'
    ||| c == '\u{85}'
    ||| c == '\u{a0}'
    ||| c == '\u{1680}'
    ||| '\u{2000}' <= c <= '\u{200a}'
    ||| c == '\u{2028}'
    ||| c == '\u{2029}'
    ||| c == '\u{202f}'
    ||| c == '\u{205f}'
    ||| c == '\u{3000}'
}

/// `part` stands in `s` from position `at` on.
pub open spec fn occurs_at(s: Seq<char>, part: Seq<char>, at: int) -> bool {
    0 <= at && at + part.len() <= s.len() && s.subrange(at, at + part.len()) == part
}

/// `part` stands somewhere in `s`.
pub open spec fn occurs(s: Seq<char>, part: Seq<char>) -> bool {
    exists|at: int| occurs_at(s, part, at)
}

/// `part` stands in `s` from `at` on, and nowhere further left.
pub open spec fn first_at(s: Seq<char>, part: Seq<char>, at: int) -> bool {
    occurs_at(s, part, at) && forall|i: int| 0 <= i < at ==> !occurs_at(s, part, i)
}

/// `s` with the leftmost occurrence of `part` replaced by `by`; `s` itself
/// where there is none.
pub open spec fn replace_first(s: Seq<char>, part: Seq<char>, by: Seq<char>) -> Seq<char> {
    if occurs(s, part) {
        let at = choose|at: int| first_at(s, part, at);
        s.subrange(0, at) + by + s.subrange(at + part.len(), s.len() as int)
    } else {
        s
    }
}

/// `s` without the white space at its start.
pub open spec fn trim_start(s: Seq<char>) -> Seq<char>
    decreases s.len(),
{
    if s.len() > 0 && is_white_space_char(s.first()) {
        trim_start(s.drop_first())
    } else {
        s
    }
}

/// `s` without the white space at its end.
pub open spec fn trim_end(s: Seq<char>) -> Seq<char>
    decreases s.len(),
{
    if s.len() > 0 && is_white_space_char(s.last()) {
        trim_end(s.drop_last())
    } else {
        s
    }
}

/// `s` without the white space at its two ends.
pub open spec fn trimmed(s: Seq<char>) -> Seq<char> {
    trim_end(trim_start(s))
}

/// `c`, in lower case where it is a letter of ASCII.
pub open spec fn lower_char(c: char) -> char {
    if 'A' <= c <= 'Z' {
        ((c as u8) + 32) as u8 as char
    } else {
        c
    }
}

/// `s` with its letters of ASCII in lower case.
pub open spec fn lowered(s: Seq<char>) -> Seq<char> {
    s.map_values(|c: char| lower_char(c))
}

/// A character that SQL puts around texts or names.
pub open spec fn is_quote_char(c: char) -> bool {
    c == '\'' || c == '"' || c == '`'
}

/// The first position of `c` in `s`, from `from` on; the length of `s` where there
/// is none.
pub open spec fn next_at(s: Seq<char>, c: char, from: int) -> int
    decreases s.len() - from,
{
    if from >= s.len() {
        s.len() as int
    } else if s[from] == c {
        from
    } else {
        next_at(s, c, from + 1)
    }
}

/// `s` begins with a quote that is closed at `end`.
pub open spec fn quoted_up_to(s: Seq<char>, end: int) -> bool {
    s.len() > 0 && is_quote_char(s[0]) && 1 <= end < s.len() && end == next_at(s, s[0], 1)
}

/// `s` with what stands between two quotes left out, the quotes kept. A quote that
/// is not closed is a character like any other.
pub open spec fn outside_quotes(s: Seq<char>) -> Seq<char>
    decreases s.len(),
{
    if s.len() == 0 {
        s
    } else {
        let end = next_at(s, s[0], 1);
        if quoted_up_to(s, end) {
            seq![s[0], s[0]] + outside_quotes(s.skip(end + 1))
        } else {
            seq![s[0]] + outside_quotes(s.drop_first())
        }
    }
}

/// Whether `c` is white space.
pub fn is_white_space(c: char) -> (r: bool)
    ensures
        r == is_white_space_char(c),
{
    ('\u{9}' <= c && c <= '\u{d}') || c == '\u{20}' || c == '\u{85}' || c == '\u{a0}' || c
        == '\u{1680}' || ('\u{2000}' <= c && c <= '\u{200a}') || c == '\u{2028}' || c == '\u{2029}'
        || c == '\u{202f}' || c == '\u{205f}' || c == '\u{3000}'
}

/// The characters of `s`, in order.
pub fn chars_of(s: &str) -> (r: Vec<char>)
    ensures
        r@ == s@,
{
    let mut out: Vec<char> = Vec::new();
    for c in it: s.chars()
        invariant
            out@ == it.seq().take(it.index()),
            it.seq() == s@,
    {
        out.push(c);
    }
    out
}

/// The part of `s` between the character positions `from` and `to`.
pub fn part_of(s: &str, from: usize, to: usize) -> (r: String)
    requires
        from <= to <= s@.len(),
    ensures
        r@ == s@.subrange(from as int, to as int),
{
    s.substring_char(from, to).to_owned()
}

/// Three texts in a row.
pub fn joined(a: &str, b: &str, c: &str) -> (r: String)
    ensures
        r@ == a@ + b@ + c@,
{
    let mut out: String = a.to_owned();
    out.append(b);
    out.append(c);
    out
}

/// Whether `part` stands in `s` from position `at` on.
fn stands_at(s: &Vec<char>, part: &Vec<char>, at: usize) -> (r: bool)
    requires
        at + part@.len() <= s@.len(),
    ensures
        r == occurs_at(s@, part@, at as int),
{
    let mut k: usize = 0;
    while k < part.len()
        invariant
            at + part@.len() <= s.len(),
            k <= part@.len(),
            forall|j: int| 0 <= j < k ==> s@[at + j] == part@[j],
        decreases part@.len() - k,
    {
        if s[at + k] != part[k] {
            assert(s@.subrange(at as int, at + part@.len())[k as int] != part@[k as int]);
            return false;
        }
        k = k + 1;
    }
    assert(s@.subrange(at as int, at + part@.len()) =~= part@);
    true
}

/// The leftmost position from which `part` stands in `s`.
fn find(s: &Vec<char>, part: &Vec<char>) -> (r: Option<usize>)
    ensures
        match r {
            Some(at) => first_at(s@, part@, at as int),
            None => !occurs(s@, part@),
        },
{
    if part.len() > s.len() {
        return None;
    }
    let last: usize = s.len() - part.len();
    let mut at: usize = 0;
    loop
        invariant
            last + part@.len() == s@.len(),
            at <= last,
            forall|i: int| 0 <= i < at ==> !occurs_at(s@, part@, i),
        decreases last - at,
    {
        if stands_at(s, part, at) {
            return Some(at);
        }
        if at == last {
            return None;
        }
        at = at + 1;
    }
}

/// Whether `s` begins with `start`.
pub fn starts_with(s: &str, start: &str) -> (r: bool)
    ensures
        r == occurs_at(s@, start@, 0),
{
    let s: Vec<char> = chars_of(s);
    let start: Vec<char> = chars_of(start);
    start.len() <= s.len() && stands_at(&s, &start, 0)
}

/// Whether `part` stands somewhere in `s`.
pub fn contains(s: &str, part: &str) -> (r: bool)
    ensures
        r == occurs(s@, part@),
{
    find(&chars_of(s), &chars_of(part)).is_some()
}

/// `c`, in lower case where it is a letter of ASCII.
fn lower(c: char) -> (r: char)
    ensures
        r == lower_char(c),
{
    if 'A' <= c && c <= 'Z' {
        ((c as u8) + 32) as char
    } else {
        c
    }
}

/// `s` with its letters of ASCII in lower case.
fn in_lower_case(s: &Vec<char>) -> (r: Vec<char>)
    ensures
        r@ == lowered(s@),
{
    let mut out: Vec<char> = Vec::new();
    let mut i: usize = 0;
    while i < s.len()
        invariant
            i <= s@.len(),
            out@ == lowered(s@.take(i as int)),
        decreases s@.len() - i,
    {
        out.push(lower(s[i]));
        i = i + 1;
        assert(out@ =~= lowered(s@.take(i as int)));
    }
    assert(s@.take(i as int) =~= s@);
    out
}

/// The first position of `c` in `s`, from `from` on; the length of `s` where there
/// is none.
fn position(s: &Vec<char>, c: char, from: usize) -> (r: usize)
    requires
        from <= s@.len(),
    ensures
        r == next_at(s@, c, from as int),
        from <= r <= s@.len(),
{
    let mut i: usize = from;
    while i < s.len() && s[i] != c
        invariant
            from <= i <= s@.len(),
            next_at(s@, c, from as int) == next_at(s@, c, i as int),
        decreases s@.len() - i,
    {
        i = i + 1;
    }
    i
}

/// `s` with what stands between two quotes left out, the quotes kept.
fn without_quoted(s: &Vec<char>) -> (r: Vec<char>)
    ensures
        r@ == outside_quotes(s@),
{
    let mut out: Vec<char> = Vec::new();
    let mut i: usize = 0;
    assert(s@.skip(0) =~= s@);
    assert(out@ + outside_quotes(s@) =~= outside_quotes(s@));
    while i < s.len()
        invariant
            i <= s@.len(),
            out@ + outside_quotes(s@.skip(i as int)) == outside_quotes(s@),
        decreases s@.len() - i,
    {
        let c: char = s[i];
        let end: usize = position(s, c, i + 1);
        let ghost rest = s@.skip(i as int);
        let ghost before = out@;
        proof {
            lemma_next_at_skip(s@, i as int, c, i + 1);
            assert(rest.drop_first() =~= s@.skip(i + 1));
        }
        if (c == '\'' || c == '"' || c == '`') && end < s.len() {
            out.push(c);
            out.push(c);
            i = end + 1;
            assert(rest.skip(end - (s@.len() - rest.len()) + 1) =~= s@.skip(i as int));
            assert(out@ + outside_quotes(s@.skip(i as int)) =~= before + outside_quotes(rest));
        } else {
            out.push(c);
            i = i + 1;
            assert(out@ + outside_quotes(s@.skip(i as int)) =~= before + outside_quotes(rest));
        }
    }
    assert(s@.skip(i as int) =~= Seq::empty());
    assert(out@ + outside_quotes(s@.skip(i as int)) =~= out@);
    out
}

/// Positions in a part of `s` that begins at `skipped`.
proof fn lemma_next_at_skip(s: Seq<char>, skipped: int, c: char, from: int)
    requires
        0 <= skipped <= from <= s.len(),
    ensures
        next_at(s.skip(skipped), c, from - skipped) == next_at(s, c, from) - skipped,
    decreases s.len() - from,
{
    if from < s.len() && s[from] != c {
        lemma_next_at_skip(s, skipped, c, from + 1);
    }
}

/// Whether `s` begins with `start`, the case of letters of ASCII put aside.
pub fn starts_in_any_case(s: &str, start: &str) -> (r: bool)
    ensures
        r == occurs_at(lowered(s@), lowered(start@), 0),
{
    let s: Vec<char> = in_lower_case(&chars_of(s));
    let start: Vec<char> = in_lower_case(&chars_of(start));
    start.len() <= s.len() && stands_at(&s, &start, 0)
}

/// Whether `part` stands somewhere in `s` outside quotes, the case of letters of
/// ASCII put aside.
pub fn contains_outside_quotes(s: &str, part: &str) -> (r: bool)
    ensures
        r == occurs(lowered(outside_quotes(s@)), lowered(part@)),
{
    let s: Vec<char> = in_lower_case(&without_quoted(&chars_of(s)));
    find(&s, &in_lower_case(&chars_of(part))).is_some()
}

/// Puts `by` where `part` stands leftmost in `s`.
pub fn replaced_first(s: &str, part: &str, by: &str) -> (r: String)
    ensures
        r@ == replace_first(s@, part@, by@),
{
    let chars: Vec<char> = chars_of(s);
    let searched: Vec<char> = chars_of(part);
    match find(&chars, &searched) {
        Some(at) => {
            let mut out: String = part_of(s, 0, at);
            assert(at + searched.len() <= chars.len());
            out.append(by);
            out.append(&part_of(s, at + searched.len(), chars.len()));
            proof {
                lemma_first_at_unique(s@, part@, at as int);
            }
            out
        },
        None => s.to_owned(),
    }
}

/// Takes the white space off the two ends of `s`.
pub fn trim(s: &str) -> (r: String)
    ensures
        r@ == trimmed(s@),
{
    let chars: Vec<char> = chars_of(s);
    let mut from: usize = 0;
    assert(s@.skip(0) =~= s@);
    while from < chars.len() && is_white_space(chars[from])
        invariant
            chars@ == s@,
            from <= chars@.len(),
            trim_start(s@) == trim_start(s@.skip(from as int)),
        decreases chars@.len() - from,
    {
        assert(s@.skip(from as int).drop_first() =~= s@.skip(from + 1));
        from = from + 1;
    }
    let ghost rest = s@.skip(from as int);
    let mut to: usize = chars.len();
    assert(rest.take(to - from) =~= rest);
    while to > from && is_white_space(chars[to - 1])
        invariant
            chars@ == s@,
            from <= to <= chars@.len(),
            rest == s@.skip(from as int),
            trim_end(rest) == trim_end(rest.take(to - from)),
        decreases to,
    {
        assert(rest.take(to - from).drop_last() =~= rest.take(to - 1 - from));
        to = to - 1;
    }
    assert(rest.take(to - from) =~= s@.subrange(from as int, to as int));
    part_of(s, from, to)
}

/// The leftmost position of a part that occurs is the one that
/// `replace_first` works on.
pub(crate) proof fn lemma_first_at_unique(s: Seq<char>, part: Seq<char>, at: int)
    requires
        first_at(s, part, at),
    ensures
        occurs(s, part),
        at == choose|i: int| first_at(s, part, i),
{
    let chosen = choose|i: int| first_at(s, part, i);
    assert(first_at(s, part, chosen));
    if chosen < at {
        assert(!occurs_at(s, part, chosen));
    }
    if at < chosen {
        assert(!occurs_at(s, part, at));
    }
}

} // verus!
