//! Rust tokens: streams of them, and the single tokens they are made of.

use proc_macro2::{Delimiter, Group, Ident, Punct, Spacing, Span, TokenStream, TokenTree};
use quote::ToTokens;
use vstd::prelude::*;

use crate::text::chars_of;

verus! {

/// Tokens in order: the text of each, and whether it is a punctuation character
/// that makes an operator with the one that follows.
pub type Texts = Seq<(Seq<char>, bool)>;

#[verifier::external_type_specification]
#[verifier::external_body]
pub struct ExTokenStream(TokenStream);

#[verifier::external_type_specification]
#[verifier::external_body]
pub struct ExSpan(Span);

/// The tokens of a stream. A group counts as its opening delimiter, the tokens
/// in it and its closing delimiter, as far as it has delimiters.
pub uninterp spec fn tokens(stream: TokenStream) -> Texts;

/// A stream as it prints.
pub uninterp spec fn printed(stream: TokenStream) -> Seq<char>;

/// The text of the identifier that is made from `text` for a place in the source:
/// `text` in the form that the compiler gives to identifiers there.
pub uninterp spec fn ident_text(text: Seq<char>, span: Span) -> Seq<char>;

/// The text that a string literal of Rust stands for, from the way it is written.
pub uninterp spec fn stands_for(written: Seq<char>) -> Seq<char>;

/// A character with the Unicode property XID_Start.
pub uninterp spec fn xid_start(c: char) -> bool;

/// A character with the Unicode property XID_Continue.
pub uninterp spec fn xid_continue(c: char) -> bool;

/// A letter of ASCII or an underscore.
pub open spec fn is_word_start(c: char) -> bool {
    'a' <= c <= 'z' || 'A' <= c <= 'Z' || c == '_'
}

/// A letter or digit of ASCII or an underscore.
pub open spec fn is_word_char(c: char) -> bool {
    is_word_start(c) || '0' <= c <= '9'
}

/// Nothing but letters and digits of ASCII and underscores.
pub open spec fn is_word(text: Seq<char>) -> bool {
    forall|i: int| 0 <= i < text.len() ==> is_word_char(#[trigger] text[i])
}

/// An identifier of Rust can be made from `text`.
pub open spec fn is_ident(text: Seq<char>) -> bool {
    &&& text.len() > 0
    &&& is_word_start(text[0]) || ('\u{7f}' < text[0] && xid_start(text[0]))
    &&& forall|i: int|
        0 < i < text.len() ==> is_word_char(#[trigger] text[i]) || ('\u{7f}' < text[i]
            && xid_continue(text[i]))
}

/// `text` between double quotes.
pub open spec fn quoted(text: Seq<char>) -> Seq<char> {
    seq!['"'] + text + seq!['"']
}

/// The one token `text`.
pub open spec fn one(text: Seq<char>) -> Texts {
    seq![(text, false)]
}

/// The one token `c`.
pub open spec fn mark(c: char) -> Texts {
    one(seq![c])
}

/// The one token `c`, which makes an operator with the one that follows.
pub open spec fn joint(c: char) -> Texts {
    seq![(seq![c], true)]
}

/// The tokens `inner` in parentheses.
pub open spec fn parens(inner: Texts) -> Texts {
    mark('(') + inner + mark(')')
}

/// The tokens `inner` in braces.
pub open spec fn braces(inner: Texts) -> Texts {
    mark('{') + inner + mark('}')
}

/// A character that is a token, or part of one, by itself.
pub open spec fn is_punct(c: char) -> bool {
    c == '!' || c == '&' || c == ',' || c == '-' || c == '.' || c == ':' || c == ';' || c == '='
        || c == '>'
}

/// `unicode_ident::is_xid_start`.
#[verifier::external_body]
fn has_xid_start(c: char) -> (r: bool)
    ensures
        r == xid_start(c),
{
    unicode_ident::is_xid_start(c)
}

/// `unicode_ident::is_xid_continue`.
#[verifier::external_body]
fn has_xid_continue(c: char) -> (r: bool)
    ensures
        r == xid_continue(c),
{
    unicode_ident::is_xid_continue(c)
}

/// `TokenStream::new`: a stream without tokens.
#[verifier::external_body]
pub(crate) fn no_tokens() -> (r: TokenStream)
    ensures
        tokens(r) == Texts::empty(),
{
    TokenStream::new()
}

/// `TokenStream::extend` with a copy of `more`: its tokens follow those of
/// `out`. Streams, spans and identifiers are the compiler's own inside a procedural
/// macro and a substitute elsewhere, which is a state of the process. The two do not
/// mix: here and in `Group::new`, a value that was made under the other state, by
/// the undocumented switch of `proc_macro2` between them, is a panic.
#[verifier::external_body]
pub(crate) fn append(out: &mut TokenStream, more: &TokenStream)
    ensures
        tokens(*final(out)) == tokens(*old(out)) + tokens(*more),
{
    out.extend(more.clone())
}

/// `Display` of `TokenStream`.
#[verifier::external_body]
pub(crate) fn print(stream: &TokenStream) -> (r: String)
    ensures
        r@ == printed(*stream),
{
    stream.to_string()
}

/// `Span::call_site`: the place where the running macro is called. Outside a
/// macro it is a place in no source.
#[verifier::external_body]
pub(crate) fn call_site() -> Span {
    Span::call_site()
}

/// `Ident::new`, as a stream: one token, which prints as its text. The text
/// depends on `text` and `span` alone, and where `text` is ASCII it is `text`. Of
/// any other the compiler may take the Unicode normal form.
#[verifier::external_body]
pub(crate) fn ident(text: &str, span: Span) -> (r: TokenStream)
    requires
        is_ident(text@),
    ensures
        tokens(r) == one(ident_text(text@, span)),
        printed(r) == ident_text(text@, span),
        is_word(text@) ==> printed(r) == text@,
{
    Ident::new(text, span).to_token_stream()
}

/// A string literal, by `ToTokens` of `str`: one token, a literal that stands for
/// `text`. A word is written between double quotes as it is. How any other
/// character is escaped is not claimed: inside a procedural macro that is up to
/// the compiler.
#[verifier::external_body]
pub(crate) fn literal(text: &str) -> (r: TokenStream)
    ensures
        tokens(r) == one(tokens(r)[0].0),
        stands_for(tokens(r)[0].0) == text@,
        is_word(text@) ==> tokens(r) == one(quoted(text@)),
{
    text.to_token_stream()
}

/// `Punct::new` with `Spacing::Alone`, as a stream: one token, the character.
#[verifier::external_body]
pub(crate) fn punct(c: char) -> (r: TokenStream)
    requires
        is_punct(c),
    ensures
        tokens(r) == mark(c),
{
    TokenStream::from(TokenTree::Punct(Punct::new(c, Spacing::Alone)))
}

/// `Punct::new` with `Spacing::Joint`, as a stream: one token, the character, to
/// be read together with the one that follows.
#[verifier::external_body]
pub(crate) fn joint_punct(c: char) -> (r: TokenStream)
    requires
        is_punct(c),
    ensures
        tokens(r) == joint(c),
{
    TokenStream::from(TokenTree::Punct(Punct::new(c, Spacing::Joint)))
}

/// `Group::new` with `Delimiter::Parenthesis`, as a stream: the tokens of
/// `inner` in parentheses.
#[verifier::external_body]
pub(crate) fn in_parens(inner: &TokenStream) -> (r: TokenStream)
    ensures
        tokens(r) == parens(tokens(*inner)),
{
    TokenStream::from(TokenTree::Group(Group::new(Delimiter::Parenthesis, inner.clone())))
}

/// `Group::new` with `Delimiter::Brace`, as a stream: the tokens of `inner` in
/// braces.
#[verifier::external_body]
pub(crate) fn in_braces(inner: &TokenStream) -> (r: TokenStream)
    ensures
        tokens(r) == braces(tokens(*inner)),
{
    TokenStream::from(TokenTree::Group(Group::new(Delimiter::Brace, inner.clone())))
}

/// Whether an identifier of Rust can be made from `text`.
pub fn can_be_ident(text: &str) -> (r: bool)
    ensures
        r == is_ident(text@),
{
    let chars: Vec<char> = chars_of(text);
    if chars.len() == 0 {
        return false;
    }
    let first: char = chars[0];
    if !(word_start(first) || ('\u{7f}' < first && has_xid_start(first))) {
        return false;
    }
    let mut i: usize = 1;
    while i < chars.len()
        invariant
            chars@ == text@,
            1 <= i <= chars@.len(),
            forall|k: int|
                0 < k < i ==> is_word_char(#[trigger] text@[k]) || ('\u{7f}' < text@[k]
                    && xid_continue(text@[k])),
        decreases chars@.len() - i,
    {
        let c: char = chars[i];
        if !(word_start(c) || ('0' <= c && c <= '9') || ('\u{7f}' < c && has_xid_continue(c))) {
            return false;
        }
        i = i + 1;
    }
    true
}

/// Whether `c` is a letter of ASCII or an underscore.
fn word_start(c: char) -> (r: bool)
    ensures
        r == is_word_start(c),
{
    ('a' <= c && c <= 'z') || ('A' <= c && c <= 'Z') || c == '_'
}

/// Adds the identifier or keyword `text` to `out`.
pub(crate) fn push_word(out: &mut TokenStream, text: &str)
    requires
        text@.len() > 0,
        is_word_start(text@[0]),
        is_word(text@),
    ensures
        tokens(*final(out)) == tokens(*old(out)) + one(text@),
{
    append(out, &ident(text, call_site()));
}

/// Adds `c` to `out`.
pub(crate) fn push_mark(out: &mut TokenStream, c: char)
    requires
        is_punct(c),
    ensures
        tokens(*final(out)) == tokens(*old(out)) + mark(c),
{
    append(out, &punct(c));
}

/// Adds the operator of two characters `a` and `b` to `out`.
pub(crate) fn push_marks(out: &mut TokenStream, a: char, b: char)
    requires
        is_punct(a),
        is_punct(b),
    ensures
        tokens(*final(out)) == tokens(*old(out)) + joint(a) + mark(b),
{
    append(out, &joint_punct(a));
    append(out, &punct(b));
}

} // verus!
