//! The token stream that the emitted code is written into, and the few
//! operations of `proc_macro2` that write it.
//!
//! Verus does not look into a `proc_macro2::TokenStream`. What a stream holds is
//! therefore named by [`stream_tokens`], and every operation below says what it
//! does to that sequence. These statements are taken from the source of
//! `proc_macro2` and are believed, not proved.
use vstd::prelude::*;
use crate::names::is_ident;

verus! {

/// What encloses a group of tokens.
#[derive(Clone, Copy, Debug, PartialEq, Eq, Structural)]
pub enum Delimiter {
    /// `( .. )`
    Parenthesis,
    /// `[ .. ]`
    Bracket,
    /// `{ .. }`
    Brace,
    /// Nothing that can be seen: the group only keeps its tokens together.
    Invisible,
}

/// Whether a punctuation character belongs together with the one after it.
#[derive(Clone, Copy, Debug, PartialEq, Eq, Structural)]
pub enum Spacing {
    /// The character ends an operator: what follows is no part of it.
    Alone,
    /// The character is joined with the punctuation after it, as the `-` of
    /// `->`.
    Joint,
}

/// One token tree, as the contracts of this library speak of it. Every token
/// carries the place in the source that it is reported at.
pub enum TokenView {
    /// An identifier or keyword with this text.
    Ident(Seq<char>, proc_macro2::Span),
    /// A punctuation character.
    Punct(char, Spacing, proc_macro2::Span),
    /// The string literal whose value is these characters.
    StringLiteral(Seq<char>, proc_macro2::Span),
    /// Any other literal, by its source text.
    Literal(Seq<char>, proc_macro2::Span),
    /// A group and the token trees inside it.
    Group(Delimiter, Seq<TokenView>, proc_macro2::Span),
}

#[verifier::external_type_specification]
#[verifier::external_body]
pub struct ExTokenStream(proc_macro2::TokenStream);

#[verifier::external_type_specification]
#[verifier::external_body]
pub struct ExSpan(proc_macro2::Span);

/// The token trees that a stream holds, in order.
pub uninterp spec fn stream_tokens(stream: proc_macro2::TokenStream) -> Seq<TokenView>;

/// The punctuation characters that `proc_macro2::Punct::new` accepts.
pub open spec fn is_punct_char(ch: char) -> bool {
    ch == '!' || ch == '#' || ch == '$' || ch == '%' || ch == '&' || ch == '\'' || ch == '*'
        || ch == '+' || ch == ',' || ch == '-' || ch == '.' || ch == '/' || ch == ':' || ch == ';'
        || ch == '<' || ch == '=' || ch == '>' || ch == '?' || ch == '@' || ch == '^' || ch == '|'
        || ch == '~'
}

/// `proc_macro2::TokenStream::new`: a stream that holds no token.
#[verifier::external_body]
pub(crate) fn new_stream() -> (stream: proc_macro2::TokenStream)
    ensures
        stream_tokens(stream) == Seq::<TokenView>::empty(),
{
    proc_macro2::TokenStream::new()
}

/// `Clone::clone` of `proc_macro2::TokenStream`: a stream of the same tokens,
/// at the same places.
pub assume_specification[ <proc_macro2::TokenStream as Clone>::clone ](
    stream: &proc_macro2::TokenStream,
) -> (copy: proc_macro2::TokenStream)
    ensures
        stream_tokens(copy) == stream_tokens(*stream),
;

/// `Clone::clone` of `proc_macro2::Span`, which is `Copy`: the same span.
pub assume_specification[ <proc_macro2::Span as Clone>::clone ](span: &proc_macro2::Span) -> (copy:
    proc_macro2::Span)
    ensures
        copy == *span,
;

/// `Extend<TokenStream>::extend` of `proc_macro2::TokenStream`, called with the
/// one stream `tail`: the tokens of `tail` are put behind those that `stream`
/// holds.
#[verifier::external_body]
pub(crate) fn append_stream(stream: &mut proc_macro2::TokenStream, tail: proc_macro2::TokenStream)
    ensures
        stream_tokens(*final(stream)) == stream_tokens(*old(stream)) + stream_tokens(tail),
{
    stream.extend(core::iter::once(tail));
}

/// `proc_macro2::Ident::new`, and `Extend<TokenTree>::extend` with the
/// identifier it made: an identifier with the text `name` at `span` is put
/// behind the tokens of `stream`. `Ident::new` panics on a text that is no
/// identifier; it takes every text of ASCII letters, digits and `_` that does
/// not begin with a digit.
#[verifier::external_body]
pub(crate) fn push_ident(stream: &mut proc_macro2::TokenStream, name: &str, span: proc_macro2::Span)
    requires
        is_ident(name@),
    ensures
        stream_tokens(*final(stream)) == stream_tokens(*old(stream)).push(
            TokenView::Ident(name@, span),
        ),
{
    let ident = proc_macro2::Ident::new(name, span);
    stream.extend(core::iter::once(proc_macro2::TokenTree::Ident(ident)));
}

/// `proc_macro2::Punct::new`, `Punct::set_span`, and `Extend<TokenTree>::extend`
/// with the punctuation they made: the character `ch` with the given spacing, at
/// `span`, is put behind the tokens of `stream`. `Punct::new` panics on a
/// character that is no punctuation.
#[verifier::external_body]
pub(crate) fn push_punct(
    stream: &mut proc_macro2::TokenStream,
    ch: char,
    spacing: Spacing,
    span: proc_macro2::Span,
)
    requires
        is_punct_char(ch),
    ensures
        stream_tokens(*final(stream)) == stream_tokens(*old(stream)).push(
            TokenView::Punct(ch, spacing, span),
        ),
{
    let spacing = match spacing {
        Spacing::Alone => proc_macro2::Spacing::Alone,
        Spacing::Joint => proc_macro2::Spacing::Joint,
    };
    let mut punct = proc_macro2::Punct::new(ch, spacing);
    punct.set_span(span);
    stream.extend(core::iter::once(proc_macro2::TokenTree::Punct(punct)));
}

/// `proc_macro2::Literal::string`, `Literal::set_span`, and
/// `Extend<TokenTree>::extend` with the literal they made: the string literal
/// whose value is `value`, at `span`, is put behind the tokens of `stream`.
#[verifier::external_body]
pub(crate) fn push_string_literal(
    stream: &mut proc_macro2::TokenStream,
    value: &str,
    span: proc_macro2::Span,
)
    ensures
        stream_tokens(*final(stream)) == stream_tokens(*old(stream)).push(
            TokenView::StringLiteral(value@, span),
        ),
{
    let mut literal = proc_macro2::Literal::string(value);
    literal.set_span(span);
    stream.extend(core::iter::once(proc_macro2::TokenTree::Literal(literal)));
}

/// `proc_macro2::Group::new`, `Group::set_span`, and `Extend<TokenTree>::extend`
/// with the group they made: the tokens of `inner` inside the given delimiter,
/// at `span`, are put behind the tokens of `stream`.
#[verifier::external_body]
pub(crate) fn push_group(
    stream: &mut proc_macro2::TokenStream,
    delimiter: Delimiter,
    inner: proc_macro2::TokenStream,
    span: proc_macro2::Span,
)
    ensures
        stream_tokens(*final(stream)) == stream_tokens(*old(stream)).push(
            TokenView::Group(delimiter, stream_tokens(inner), span),
        ),
{
    let delimiter = match delimiter {
        Delimiter::Parenthesis => proc_macro2::Delimiter::Parenthesis,
        Delimiter::Bracket => proc_macro2::Delimiter::Bracket,
        Delimiter::Brace => proc_macro2::Delimiter::Brace,
        Delimiter::Invisible => proc_macro2::Delimiter::None,
    };
    let mut group = proc_macro2::Group::new(delimiter, inner);
    group.set_span(span);
    stream.extend(core::iter::once(proc_macro2::TokenTree::Group(group)));
}

} // verus!
