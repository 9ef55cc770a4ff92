//! Text helpers: stripping surrounding white space and decoding HTML
//! character references.

use vstd::prelude::*;

verus! {

/// Whether `c`, a character beyond ASCII, is white space: whether
/// `char::is_whitespace` holds of it, which is to say that it has the
/// Unicode property `White_Space`.
pub uninterp spec fn unicode_white_space(c: char) -> bool;

/// What `html_escape::decode_html_entities` makes of `text`.
pub uninterp spec fn decoded_entities(text: Seq<char>) -> Seq<char>;

/// The characters of an optional string.
pub open spec fn text_of(value: Option<String>) -> Option<Seq<char>> {
    match value {
        Some(text) => Some(text@),
        None => None,
    }
}

/// Whether `c` is white space. Of the ASCII characters, the space and the
/// controls from tab to carriage return are.
pub open spec fn white_space(c: char) -> bool {
    if c <= '\u{7f}' {
        c == ' ' || '\t' <= c <= '\r'
    } else {
        unicode_white_space(c)
    }
}

/// `text` without its leading white space.
pub open spec fn strip_leading(text: Seq<char>) -> Seq<char>
    decreases text.len(),
{
    if text.len() > 0 && white_space(text.first()) {
        strip_leading(text.drop_first())
    } else {
        text
    }
}

/// `text` without its trailing white space.
pub open spec fn strip_trailing(text: Seq<char>) -> Seq<char>
    decreases text.len(),
{
    if text.len() > 0 && white_space(text.last()) {
        strip_trailing(text.drop_last())
    } else {
        text
    }
}

/// `text` without its leading and trailing white space.
pub open spec fn stripped(text: Seq<char>) -> Seq<char> {
    strip_trailing(strip_leading(text))
}

/// Calls `str::trim`, which removes leading and trailing white space as the
/// Unicode property `White_Space` defines it; so what is left neither begins
/// nor ends with white space.
#[verifier::external_body]
pub(crate) fn trim(text: &str) -> (trimmed: String)
    ensures
        trimmed@ == stripped(text@),
        trimmed@.len() > 0 && trimmed@.first() > '\u{7f}' ==> !unicode_white_space(
            trimmed@.first(),
        ),
        trimmed@.len() > 0 && trimmed@.last() > '\u{7f}' ==> !unicode_white_space(
            trimmed@.last(),
        ),
{
    text.trim().to_string()
}

/// Calls `html_escape::decode_html_entities`, which replaces named and
/// numeric character references that end in `;` by the characters they
/// stand for.
#[verifier::external_body]
pub(crate) fn decode_entities(text: &str) -> (decoded: String)
    ensures
        decoded@ == decoded_entities(text@),
{
    html_escape::decode_html_entities(text).into_owned()
}

/// Calls `String::push`.
#[verifier::external_body]
pub(crate) fn push_char(text: &mut String, c: char)
    ensures
        final(text)@ == old(text)@.push(c),
{
    text.push(c)
}

} // verus!
