//! Absolute URLs, kept in their serialized form.
//!
//! Parsing and resolving are left to the `url` crate; the two private
//! functions at the end make those calls and are not proved.

use crate::text::text_of;
use vstd::prelude::*;

verus! {

/// The serialization of the URL that `url::Url::parse` makes of `text`, or
/// `None` where it rejects `text`.
pub uninterp spec fn parsed_url(text: Seq<char>) -> Option<Seq<char>>;

/// The serialization of the URL that `url::Url::join` makes of `reference`
/// against the URL that `url::Url::parse` makes of `base`, or `None` where
/// either call rejects its input.
pub uninterp spec fn joined_url(base: Seq<char>, reference: Seq<char>) -> Option<Seq<char>>;

/// An absolute URL in serialized form.
#[derive(Debug, PartialEq, Eq)]
pub struct Url {
    text: String,
}

impl View for Url {
    type V = Seq<char>;

    closed spec fn view(&self) -> Seq<char> {
        self.text@
    }
}

impl Clone for Url {
    fn clone(&self) -> (copy: Self)
        ensures
            copy == *self,
    {
        Url { text: self.text.clone() }
    }
}

/// The serialized form of an optional URL.
pub open spec fn url_text(url: Option<Url>) -> Option<Seq<char>> {
    match url {
        Some(u) => Some(u@),
        None => None,
    }
}

impl Url {
    /// Parses `text` as an absolute URL.
    pub fn parse(text: &str) -> (url: Option<Url>)
        ensures
            url_text(url) == parsed_url(text@),
    {
        match parse_url(text) {
            Some(text) => Some(Url { text }),
            None => None,
        }
    }

    /// Resolves `reference`, which may be relative, against this URL.
    pub fn join(&self, reference: &str) -> (url: Option<Url>)
        ensures
            url_text(url) == joined_url(self@, reference@),
    {
        match join_url(self.text.as_str(), reference) {
            Some(text) => Some(Url { text }),
            None => None,
        }
    }

    /// The serialized form.
    pub fn as_str(&self) -> (text: &str)
        ensures
            text@ == self@,
    {
        self.text.as_str()
    }

    /// A URL whose serialized form is `text`, which the caller has built from
    /// a parsed URL.
    pub(crate) fn from_serialized(text: String) -> (url: Url)
        ensures
            url@ == text@,
    {
        Url { text }
    }
}

/// Calls `url::Url::parse` and hands back the URL's serialization.
#[verifier::external_body]
fn parse_url(text: &str) -> (parsed: Option<String>)
    ensures
        text_of(parsed) == parsed_url(text@),
{
    url::Url::parse(text).ok().map(String::from)
}

/// Calls `url::Url::parse` on `base` and `url::Url::join` on what it made,
/// and hands back the serialization of the result.
#[verifier::external_body]
fn join_url(base: &str, reference: &str) -> (joined: Option<String>)
    ensures
        text_of(joined) == joined_url(base@, reference@),
{
    url::Url::parse(base).ok()?.join(reference).ok().map(String::from)
}

} // verus!
