//! Setting up a crawl.

use crate::params::{QueryParams, QueryView};
use crate::scrapper::Scrapper;
use crate::site::{ACCEPT, ACCEPT_LANGUAGE, CACHE_CONTROL, UPGRADE_INSECURE_REQUESTS, USER_AGENT};
use vstd::prelude::*;
use vstd::string::StringExecFns;

verus! {

/// One header of a request.
#[derive(Debug)]
pub struct Header {
    pub name: String,
    pub value: String,
}

/// Whether `header` has the name `name` and the value `value`.
pub open spec fn is_header(header: Header, name: Seq<char>, value: Seq<char>) -> bool {
    header.name@ == name && header.value@ == value
}

/// The headers that every request of a crawl carries, unless whoever does
/// the fetching decides otherwise: those of a browser that asks for a page
/// in Spanish.
pub fn default_headers() -> (headers: Vec<Header>)
    ensures
        headers.len() == 5,
        is_header(headers[0], "accept"@, ACCEPT@),
        is_header(headers[1], "accept-language"@, ACCEPT_LANGUAGE@),
        is_header(headers[2], "cache-control"@, CACHE_CONTROL@),
        is_header(headers[3], "user-agent"@, USER_AGENT@),
        is_header(headers[4], "upgrade-insecure-requests"@, UPGRADE_INSECURE_REQUESTS@),
{
    let mut headers: Vec<Header> = Vec::new();
    headers.push(Header { name: String::from_str("accept"), value: String::from_str(ACCEPT) });
    headers.push(
        Header {
            name: String::from_str("accept-language"),
            value: String::from_str(ACCEPT_LANGUAGE),
        },
    );
    headers.push(
        Header { name: String::from_str("cache-control"), value: String::from_str(CACHE_CONTROL) },
    );
    headers.push(
        Header { name: String::from_str("user-agent"), value: String::from_str(USER_AGENT) },
    );
    headers.push(
        Header {
            name: String::from_str("upgrade-insecure-requests"),
            value: String::from_str(UPGRADE_INSECURE_REQUESTS),
        },
    );
    headers
}

/// Collects what a crawl needs before it starts: the search criteria and,
/// where one is wanted, the number of pages after which to stop.
#[derive(Debug)]
pub struct Builder {
    params: QueryParams,
    limit: Option<usize>,
}

impl Builder {
    pub closed spec fn params_view(&self) -> QueryView {
        self.params@
    }

    pub closed spec fn limit_view(&self) -> Option<usize> {
        self.limit
    }

    /// A builder for a crawl of everything that matches `params`.
    pub fn new(params: QueryParams) -> (builder: Self)
        ensures
            builder.params_view() == params@,
            builder.limit_view() is None,
    {
        Self { params, limit: None }
    }

    /// Replaces the search criteria.
    pub fn params(&mut self, params: QueryParams) -> (builder: &mut Self)
        ensures
            builder.params_view() == params@,
            builder.limit_view() == old(self).limit_view(),
            *final(self) == *final(builder),
    {
        self.params = params;
        self
    }

    /// Stops the crawl after `limit` pages at the latest.
    pub fn page_limit(&mut self, limit: usize) -> (builder: &mut Self)
        ensures
            builder.params_view() == old(self).params_view(),
            builder.limit_view() == Some(limit),
            *final(self) == *final(builder),
    {
        self.limit = Some(limit);
        self
    }

    /// The crawl that was set up.
    pub fn build(&self) -> (scrapper: Scrapper)
        ensures
            scrapper.params_view() == self.params_view(),
            scrapper.limit_view() == self.limit_view(),
    {
        let scrapper = Scrapper::new(self.params.clone());
        match self.limit {
            Some(limit) => scrapper.page_limit(limit),
            None => scrapper,
        }
    }
}

} // verus!
