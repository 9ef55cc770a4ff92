//! Walking the listing page by page.
//!
//! The library does not fetch anything itself. A `Crawl` says which address
//! to fetch next, takes the markup that came back, and says where to go from
//! there, until the listing is exhausted. Whoever drives it does the
//! fetching; a fetch that fails ends the crawl with nothing to show.

use crate::address::{url_text, Url};
use crate::error::UrlBuildError;
use crate::page_result::{page_state, PageResult, PageView};
use crate::params::{QueryParams, QueryView};
use vstd::prelude::*;

verus! {

/// The views of a sequence of pages.
pub open spec fn page_views(pages: Seq<PageResult>) -> Seq<PageView> {
    pages.map_values(|page: PageResult| page@)
}

/// A `Crawl` as mathematical values.
pub struct CrawlView {
    /// The address of the first page.
    pub start: Seq<char>,
    /// The pages fetched so far, in the order in which they were fetched.
    pub pages: Seq<PageView>,
    /// The address to fetch next; `None` when the crawl is over.
    pub pending: Option<Seq<char>>,
    /// The number of pages after which the crawl stops whatever the listing
    /// says, where such a number is set.
    pub limit: Option<usize>,
}

impl CrawlView {
    /// Whether the crawl has fetched as many pages as it may.
    pub open spec fn at_limit(self) -> bool {
        self.limit matches Some(limit) && self.pages.len() >= limit
    }

    /// Whether the crawl is over.
    pub open spec fn finished(self) -> bool {
        self.pending is None
    }

    /// Whether the page after the page at `index` was fetched from exactly
    /// the address that the page at `index` gave for its next page.
    pub open spec fn follows_on(self, index: int) -> bool {
        self.pages[index].next_page_url == Some(self.pages[index + 1].url)
    }

    /// What holds of every crawl: each page says of itself what its markup
    /// says; the first page was fetched from the address at which the crawl
    /// starts; each page but the last has a next page, and the page after it
    /// was fetched from exactly the address that it gave; and the crawl goes
    /// on from the address that the last page gave, unless it has fetched as
    /// many pages as it may.
    pub open spec fn well_formed(self) -> bool {
        &&& forall|i: int| 0 <= i < self.pages.len() ==> (#[trigger] self.pages[i]).faithful()
        &&& self.pages.len() > 0 ==> self.pages.first().url == self.start
        &&& forall|i: int| 0 <= i < self.pages.len() - 1 ==> #[trigger] self.follows_on(i)
        &&& self.at_limit() ==> self.pending is None
        &&& !self.at_limit() && self.pages.len() > 0 ==> self.pending
            == self.pages.last().next_page_url
        &&& !self.at_limit() && self.pages.len() == 0 ==> self.pending == Some(self.start)
    }

    /// The crawl after the page at the pending address came back with the
    /// markup `body`.
    pub open spec fn after_page(self, body: Seq<char>) -> CrawlView
        recommends
            self.pending is Some,
    {
        let page = page_state(self.pending->0, body);
        let fetched = CrawlView { pages: self.pages.push(page), pending: None, ..self };
        CrawlView {
            pending: if fetched.at_limit() {
                None
            } else {
                page.next_page_url
            },
            ..fetched
        }
    }
}

/// A crawl in progress: the pages fetched so far and where to go next.
#[derive(Debug)]
pub struct Crawl {
    start: Url,
    pages: Vec<PageResult>,
    pending: Option<Url>,
    limit: Option<usize>,
}

impl View for Crawl {
    type V = CrawlView;

    closed spec fn view(&self) -> CrawlView {
        CrawlView {
            start: self.start@,
            pages: page_views(self.pages@),
            pending: url_text(self.pending),
            limit: self.limit,
        }
    }
}

impl Crawl {
    #[verifier::type_invariant]
    spec fn holds_together(&self) -> bool {
        self@.well_formed()
    }

    /// The address to fetch next, or `None` when the crawl is over.
    pub fn next_request(&self) -> (url: Option<Url>)
        ensures
            url_text(url) == self@.pending,
            self@.well_formed(),
    {
        proof {
            use_type_invariant(self);
        }
        match &self.pending {
            Some(url) => Some(url.clone()),
            None => None,
        }
    }

    /// Takes the markup that came back from the pending address. The page
    /// joins the pages fetched so far, and the crawl goes on from the
    /// address of the next page that this page gives, where it gives one.
    /// Where nothing is pending, nothing changes.
    pub fn accept(self, body: String) -> (crawl: Crawl)
        ensures
            crawl@ == if self@.pending is Some {
                self@.after_page(body@)
            } else {
                self@
            },
            crawl@.well_formed(),
    {
        proof {
            use_type_invariant(&self);
        }
        let ghost before = self@;
        let Crawl { start, pages, pending, limit } = self;
        let url = match pending {
            Some(url) => url,
            None => { return Crawl { start, pages, pending: None, limit }; },
        };
        let page = PageResult::new(url, body);
        let next = page.next_page_url();
        let mut pages = pages;
        pages.push(page);
        let full = match limit {
            Some(limit) => pages.len() >= limit,
            None => false,
        };
        let pending = if full {
            None
        } else {
            next
        };
        proof {
            let after = CrawlView {
                start: start@,
                pages: page_views(pages@),
                pending: url_text(pending),
                limit,
            };
            assert(after.pages =~= before.pages.push(page@));
            assert forall|i: int| 0 <= i < after.pages.len() - 1 implies #[trigger] after.follows_on(
                i,
            ) by {
                if i < before.pages.len() - 1 {
                    assert(before.follows_on(i));
                }
            }
            assert(after == before.after_page(body@));
        }
        Crawl { start, pages, pending, limit }
    }

    /// Takes what came of fetching the pending address. Markup is accepted
    /// as `accept` does. A failure ends the crawl: it is handed back as it
    /// came, and the pages fetched so far are given up.
    pub fn advance<E>(self, fetched: Result<String, E>) -> (crawl: Result<Crawl, E>)
        ensures
            match fetched {
                Ok(body) => crawl matches Ok(c) && c@.well_formed() && c@ == if self@.pending
                    is Some {
                    self@.after_page(body@)
                } else {
                    self@
                },
                Err(failure) => crawl matches Err(e) && e == failure,
            },
    {
        match fetched {
            Ok(body) => Ok(self.accept(body)),
            Err(failure) => Err(failure),
        }
    }

    /// The pages fetched so far, in the order in which they were fetched.
    pub fn into_pages(self) -> (pages: Vec<PageResult>)
        ensures
            page_views(pages@) == self@.pages,
            pages.len() == self@.pages.len(),
            forall|i: int| 0 <= i < pages.len() ==> (#[trigger] pages[i])@ == self@.pages[i],
            self@.well_formed(),
    {
        proof {
            use_type_invariant(&self);
        }
        self.pages
    }
}

/// A crawl waiting to be started: the search criteria and, where one is
/// set, the number of pages after which to stop.
#[derive(Debug)]
pub struct Scrapper {
    params: QueryParams,
    limit: Option<usize>,
}

impl Scrapper {
    pub closed spec fn params_view(&self) -> QueryView {
        self.params@
    }

    pub closed spec fn limit_view(&self) -> Option<usize> {
        self.limit
    }

    /// A crawl of everything that matches `params`, however many pages
    /// that takes.
    pub fn new(params: QueryParams) -> (scrapper: Self)
        ensures
            scrapper.params_view() == params@,
            scrapper.limit_view() is None,
    {
        Self { params, limit: None }
    }

    /// The same crawl, stopped after `limit` pages at the latest.
    pub fn page_limit(self, limit: usize) -> (scrapper: Self)
        ensures
            scrapper.params_view() == self.params_view(),
            scrapper.limit_view() == Some(limit),
    {
        Self { params: self.params, limit: Some(limit) }
    }

    /// The address of the first page.
    pub fn first_request(&self) -> (url: Result<Url, UrlBuildError>)
        ensures
            url matches Ok(u) ==> self.starts_at(u@),
            url is Err <==> self.cannot_start(),
    {
        self.params.build_url()
    }

    /// Whether a crawl cannot start because the address of the search page
    /// is no URL.
    pub open spec fn cannot_start(&self) -> bool {
        crate::address::parsed_url(crate::site::SEARCH_URL@) is None
    }

    /// Whether the first page is at `url`.
    pub open spec fn starts_at(&self, url: Seq<char>) -> bool {
        crate::address::parsed_url(crate::site::SEARCH_URL@) matches Some(base) && url == base
            + crate::params::ascii_text(crate::params::query_text(self.params_view()))
    }

    /// Starts the crawl: nothing is fetched yet, and the page at the address
    /// that the search criteria make is pending, unless the crawl may fetch
    /// no page at all.
    pub fn begin(&self) -> (crawl: Result<Crawl, UrlBuildError>)
        ensures
            crawl is Err <==> self.cannot_start(),
            crawl matches Err(e) ==> e == UrlBuildError::InvalidBaseUrl,
            crawl matches Ok(c) ==> {
                &&& c@.well_formed()
                &&& c@.pages.len() == 0
                &&& c@.limit == self.limit_view()
                &&& self.starts_at(c@.start)
            },
    {
        let url = match self.params.build_url() {
            Ok(url) => url,
            Err(error) => { return Err(error); },
        };
        let pages: Vec<PageResult> = Vec::new();
        let pending = match self.limit {
            Some(0) => None,
            _ => Some(url.clone()),
        };
        assert(page_views(pages@) =~= Seq::<PageView>::empty());
        Ok(Crawl { start: url, pages, pending, limit: self.limit })
    }
}

/// Of a crawl that is over before it has fetched as many pages as it may,
/// the pages begin with the page at which the crawl starts, every page but
/// the last has a next page, and the last has none.
pub proof fn lemma_only_the_last_page_has_no_next(crawl: CrawlView)
    requires
        crawl.well_formed(),
        crawl.finished(),
        !crawl.at_limit(),
    ensures
        crawl.pages.len() > 0,
        crawl.pages.first().url == crawl.start,
        forall|i: int| 0 <= i < crawl.pages.len() - 1 ==> (#[trigger] crawl.pages[i]).has_next,
        !crawl.pages.last().has_next,
{
    assert forall|i: int| 0 <= i < crawl.pages.len() - 1 implies (#[trigger] crawl.pages[i]).has_next by {
        assert(crawl.follows_on(i));
    }
}

} // verus!
