//! The boundary to the HTML parser: parsing a page, selecting elements with
//! CSS selectors and reading attributes and text from them.
//!
//! A parsed page is a tree of elements that the `scraper` crate keeps; an
//! `ElementRef` is a place in that tree. The proofs see neither the tree nor
//! the places. What they know is that the parser is a function: the same
//! markup gives the same tree, the same selector picks the same elements of
//! it, and the same element holds the same attributes and text.
//!
//! Nothing in this file is proved. Each function hands one request to the
//! `scraper` crate, and its contract only gives the answer a name, so that
//! the rest of the library can say what it does with that answer.

use crate::text::text_of;
use vstd::prelude::*;

verus! {

#[verifier::external_type_specification]
#[verifier::external_body]
pub struct ExHtml(scraper::Html);

#[verifier::external_type_specification]
#[verifier::external_body]
pub struct ExElementRef<'a>(scraper::ElementRef<'a>);

/// The document tree that `scraper::Html::parse_document` builds from `markup`.
pub uninterp spec fn parsed_document(markup: Seq<char>) -> scraper::Html;

/// Whether `scraper::Selector::parse` accepts `css`.
pub uninterp spec fn valid_selector(css: Seq<char>) -> bool;

/// The elements that `scraper::Html::select` yields for the selector `css`,
/// in the order in which it yields them.
pub uninterp spec fn document_matches(doc: scraper::Html, css: Seq<char>) -> Seq<
    scraper::ElementRef<'static>,
>;

/// The descendants of `element` that `scraper::ElementRef::select` yields for
/// the selector `css`, in the order in which it yields them.
pub uninterp spec fn element_matches(element: scraper::ElementRef<'static>, css: Seq<char>) -> Seq<
    scraper::ElementRef<'static>,
>;

/// What `scraper::ElementRef::attr` returns for the attribute `name`.
pub uninterp spec fn element_attr(element: scraper::ElementRef<'static>, name: Seq<char>) -> Option<
    Seq<char>,
>;

/// What `scraper::ElementRef::inner_html` returns.
pub uninterp spec fn element_inner_html(element: scraper::ElementRef<'static>) -> Seq<char>;

/// The first item of `scraper::ElementRef::text`, if there is one.
pub uninterp spec fn element_first_text(element: scraper::ElementRef<'static>) -> Option<Seq<char>>;

/// Calls `scraper::Html::parse_document`. Parsing is lenient and never fails;
/// the contract claims only that the tree depends on the markup alone.
#[verifier::external_body]
pub(crate) fn parse_document(markup: &str) -> (doc: scraper::Html)
    ensures
        doc == parsed_document(markup@),
{
    scraper::Html::parse_document(markup)
}

/// Calls `scraper::Selector::parse` and reports whether it accepted `css`.
#[verifier::external_body]
pub(crate) fn selector_parses(css: &str) -> (ok: bool)
    ensures
        ok == valid_selector(css@),
{
    scraper::Selector::parse(css).is_ok()
}

/// Calls `scraper::Html::select` and collects what it yields. The selector
/// must be one that `scraper::Selector::parse` accepts.
#[verifier::external_body]
pub(crate) fn select_in_document<'a>(doc: &'a scraper::Html, css: &str) -> (found: Vec<
    scraper::ElementRef<'a>,
>)
    requires
        valid_selector(css@),
    ensures
        found@ == document_matches(*doc, css@),
{
    let selector = scraper::Selector::parse(css).unwrap();
    doc.select(&selector).collect()
}

/// Calls `scraper::ElementRef::select` and collects what it yields. The
/// selector must be one that `scraper::Selector::parse` accepts.
#[verifier::external_body]
pub(crate) fn select_in_element<'a>(element: &scraper::ElementRef<'a>, css: &str) -> (found: Vec<
    scraper::ElementRef<'a>,
>)
    requires
        valid_selector(css@),
    ensures
        found@ == element_matches(*element, css@),
{
    let selector = scraper::Selector::parse(css).unwrap();
    element.select(&selector).collect()
}

/// Calls `scraper::ElementRef::attr` and copies the value, if there is one.
#[verifier::external_body]
pub(crate) fn attribute(element: &scraper::ElementRef<'_>, name: &str) -> (value: Option<String>)
    ensures
        text_of(value) == element_attr(*element, name@),
{
    element.attr(name).map(String::from)
}

/// Calls `scraper::ElementRef::inner_html`.
#[verifier::external_body]
pub(crate) fn inner_html(element: &scraper::ElementRef<'_>) -> (html: String)
    ensures
        html@ == element_inner_html(*element),
{
    element.inner_html()
}

/// Calls `scraper::ElementRef::text` and copies the first text node it
/// yields, if there is one.
#[verifier::external_body]
pub(crate) fn first_text(element: &scraper::ElementRef<'_>) -> (text: Option<String>)
    ensures
        text_of(text) == element_first_text(*element),
{
    element.text().next().map(String::from)
}

} // verus!
