//! One fetched page of the listing: where it is in the listing, and the
//! audiobooks on it.

use crate::address::{joined_url, url_text, Url};
use crate::audio_book::{AudioBook, BookView};
use crate::error::ExtractError;
use crate::listing::{
    extract_records, item_fails, lemma_failure_is_total, outcome_view, records_of,
};
use crate::markup::{parse_document, parsed_document};
use crate::pagination::{nav_target, page_index, page_index_of, target_of};
use crate::reader::{
    check_item_selectors, control_in, items_in, page_number_texts, read_control, read_items,
    read_page_numbers,
};
use crate::site::{NEXT_SELECTOR, PREVIOUS_SELECTOR, item_selectors_valid};
use vstd::prelude::*;

verus! {

/// A `PageResult` as mathematical values.
pub struct PageView {
    pub page: u32,
    pub has_next: bool,
    pub has_prev: bool,
    pub next_page_url: Option<Seq<char>>,
    pub prev_page_url: Option<Seq<char>>,
    pub url: Seq<char>,
    pub body: Seq<char>,
}

impl PageView {
    /// A page has a next page exactly where it has the address of one, and
    /// likewise a previous page.
    pub open spec fn well_formed(self) -> bool {
        &&& self.has_next == (self.next_page_url is Some)
        &&& self.has_prev == (self.prev_page_url is Some)
    }

    /// The page says of itself what its markup says. This holds of every
    /// `PageResult`.
    pub open spec fn faithful(self) -> bool {
        self == page_state(self.url, self.body)
    }
}

/// What the page fetched from `url` with the markup `body` says of its place
/// in the listing.
///
/// The number of the page is the one that the page itself shows, and 1 where
/// it shows none. The next page is where the page's link to it leads,
/// resolved against `url`; there is none where that link is missing,
/// switched off or cannot be resolved. The same holds of the previous page.
pub open spec fn page_state(url: Seq<char>, body: Seq<char>) -> PageView {
    let doc = parsed_document(body);
    let next = target_of(url, control_in(doc, NEXT_SELECTOR@));
    let prev = target_of(url, control_in(doc, PREVIOUS_SELECTOR@));
    PageView {
        page: page_index_of(page_number_texts(doc)),
        has_next: next is Some,
        has_prev: prev is Some,
        next_page_url: next,
        prev_page_url: prev,
        url,
        body,
    }
}

/// The audiobooks on a page with the markup `body`.
///
/// Only entries with a sample count. The page is refused where it has no
/// entry at all or where an entry with a sample is incomplete.
pub open spec fn page_records(body: Seq<char>) -> Result<Seq<BookView>, ExtractError> {
    if item_selectors_valid() {
        records_of(items_in(parsed_document(body)))
    } else {
        Err(ExtractError::InvalidSelector)
    }
}

/// A fetched page: its address, its markup, and its place in the listing.
#[derive(Debug)]
pub struct PageResult {
    page: u32,
    has_next: bool,
    has_prev: bool,
    next_page_url: Option<Url>,
    prev_page_url: Option<Url>,
    url: Url,
    body: String,
}

impl View for PageResult {
    type V = PageView;

    closed spec fn view(&self) -> PageView {
        PageView {
            page: self.page,
            has_next: self.has_next,
            has_prev: self.has_prev,
            next_page_url: url_text(self.next_page_url),
            prev_page_url: url_text(self.prev_page_url),
            url: self.url@,
            body: self.body@,
        }
    }
}

impl Clone for PageResult {
    fn clone(&self) -> (copy: Self)
        ensures
            copy@ == self@,
    {
        proof {
            use_type_invariant(self);
        }
        PageResult {
            page: self.page,
            has_next: self.has_next,
            has_prev: self.has_prev,
            next_page_url: match &self.next_page_url {
                Some(url) => Some(url.clone()),
                None => None,
            },
            prev_page_url: match &self.prev_page_url {
                Some(url) => Some(url.clone()),
                None => None,
            },
            url: self.url.clone(),
            body: self.body.clone(),
        }
    }
}

impl PageResult {
    /// A page says of itself what its markup says.
    #[verifier::type_invariant]
    spec fn is_what_the_markup_says(&self) -> bool {
        self@.faithful()
    }

    /// Reads the place in the listing of the page that was fetched from
    /// `url` and has the markup `body`.
    pub fn new(url: Url, body: String) -> (page: Self)
        ensures
            page@ == page_state(url@, body@),
            page@.faithful(),
            page@.well_formed(),
    {
        let doc = parse_document(body.as_str());
        let page = page_index(&read_page_numbers(&doc));
        let next_page_url = nav_target(&url, &read_control(&doc, NEXT_SELECTOR));
        let has_next = next_page_url.is_some();
        let prev_page_url = nav_target(&url, &read_control(&doc, PREVIOUS_SELECTOR));
        let has_prev = prev_page_url.is_some();
        Self { page, has_next, has_prev, next_page_url, prev_page_url, url, body }
    }

    /// Extracts the audiobooks on this page. Every call reads the markup
    /// anew and gives the same answer.
    pub fn collect(&self) -> (outcome: Result<Vec<AudioBook>, ExtractError>)
        ensures
            outcome_view(outcome) == page_records(self@.body),
            outcome matches Ok(books) ==> page_records(self@.body) matches Ok(views)
                && books.len() == views.len() && forall|k: int|
                0 <= k < books.len() ==> (#[trigger] books[k])@ == views[k],
    {
        if !check_item_selectors() {
            return Err(ExtractError::InvalidSelector);
        }
        let doc = parse_document(self.body.as_str());
        let items = read_items(&doc);
        extract_records(&items)
    }

    pub fn has_next(&self) -> (has_next: bool)
        ensures
            has_next == self@.has_next,
            self@.faithful(),
    {
        proof {
            use_type_invariant(self);
        }
        self.has_next
    }

    pub fn has_prev(&self) -> (has_prev: bool)
        ensures
            has_prev == self@.has_prev,
            self@.faithful(),
    {
        proof {
            use_type_invariant(self);
        }
        self.has_prev
    }

    pub fn next_page_url(&self) -> (url: Option<Url>)
        ensures
            url_text(url) == self@.next_page_url,
            self@.faithful(),
    {
        proof {
            use_type_invariant(self);
        }
        match &self.next_page_url {
            Some(url) => Some(url.clone()),
            None => None,
        }
    }

    pub fn prev_page_url(&self) -> (url: Option<Url>)
        ensures
            url_text(url) == self@.prev_page_url,
            self@.faithful(),
    {
        proof {
            use_type_invariant(self);
        }
        match &self.prev_page_url {
            Some(url) => Some(url.clone()),
            None => None,
        }
    }

    pub fn url(&self) -> (url: &Url)
        ensures
            url@ == self@.url,
            self@.faithful(),
    {
        proof {
            use_type_invariant(self);
        }
        &self.url
    }

    pub fn page(&self) -> (page: u32)
        ensures
            page == self@.page,
            self@.faithful(),
    {
        proof {
            use_type_invariant(self);
        }
        self.page
    }
}

/// A page that shows no page number is the first page.
pub proof fn lemma_page_without_number_is_first(url: Seq<char>, body: Seq<char>)
    requires
        page_number_texts(parsed_document(body)).len() == 0,
    ensures
        page_state(url, body).page == 1,
{
}

/// A page without a link to the previous page has no previous page, and a
/// page without a link to the next page has no next page.
pub proof fn lemma_page_without_link_has_no_neighbour(url: Seq<char>, body: Seq<char>)
    ensures
        control_in(parsed_document(body), PREVIOUS_SELECTOR@) is None ==> !page_state(
            url,
            body,
        ).has_prev && page_state(url, body).prev_page_url is None,
        control_in(parsed_document(body), NEXT_SELECTOR@) is None ==> !page_state(
            url,
            body,
        ).has_next && page_state(url, body).next_page_url is None,
{
}

/// A page has a next page only where it shows a link to it that is not
/// switched off and has a target, and that target is where the next page is.
pub proof fn lemma_next_page_needs_enabled_link(url: Seq<char>, body: Seq<char>)
    requires
        page_state(url, body).has_next,
    ensures
        ({
            &&& control_in(parsed_document(body), NEXT_SELECTOR@) matches Some(link)
            &&& !link.disabled
            &&& link.href matches Some(href)
            &&& page_state(url, body).next_page_url == joined_url(url, href)
        }),
{
}

/// A page without any product entry is refused.
pub proof fn lemma_page_without_entries_is_refused(body: Seq<char>)
    requires
        item_selectors_valid(),
        items_in(parsed_document(body)).len() == 0,
    ensures
        page_records(body) == Err::<Seq<BookView>, ExtractError>(ExtractError::NoItemsFound),
{
}

/// A page with an entry that is refused yields no audiobook at all.
pub proof fn lemma_page_with_incomplete_entry_is_refused(body: Seq<char>, index: int)
    requires
        0 <= index < items_in(parsed_document(body)).len(),
        item_fails(items_in(parsed_document(body))[index]),
    ensures
        page_records(body) is Err,
{
    lemma_failure_is_total(items_in(parsed_document(body)), index);
}

} // verus!
