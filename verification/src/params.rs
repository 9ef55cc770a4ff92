//! The search criteria of a crawl and the request URL that they make.

use crate::address::{parsed_url, Url};
use crate::decimal::{decimal_bytes, decimal_digits, decimal_u32, lemma_decimal_round_trip};
use crate::error::UrlBuildError;
use crate::form::{
    all_ascii, append_pair, lemma_read_written_pair, lemma_read_written_pairs,
    lemma_write_pairs_ascii, lemma_write_pairs_push, read_pairs, write_pairs, Pair,
};
use crate::site::SEARCH_URL;
use crate::text::{push_char, text_of};
use vstd::prelude::*;
use vstd::string::StringExecFns;
use vstd::utf8::{
    decode_utf8, encode_utf8, encode_utf8_decode_utf8, is_ascii_chars_encode_utf8,
};

verus! {

/// The order in which results come where none is asked for.
pub const DEFAULT_SORT: &'static str = "title-asc-rank";

/// The number of results on a page where none is asked for.
pub const DEFAULT_PAGE_SIZE: u32 = 50;

/// The name of the query parameter that carries the narrator filter.
pub const NARRATOR_PARAMETER: &'static str = "searchNarrator";

/// The name of the query parameter that carries the sort order.
pub const SORT_PARAMETER: &'static str = "sort";

/// The name of the query parameter that carries the page size.
pub const PAGE_SIZE_PARAMETER: &'static str = "pageSize";

/// The name of the query parameter that carries the page number.
pub const PAGE_PARAMETER: &'static str = "page";

/// The search criteria as mathematical values.
pub struct QueryView {
    pub narrator: Option<Seq<char>>,
    pub keywords: Option<Seq<char>>,
    pub sort: Seq<char>,
    pub page_size: u32,
    pub page: u32,
}

impl QueryView {
    /// Pages are counted from 1 and hold at least one result.
    pub open spec fn well_formed(self) -> bool {
        self.page >= 1 && self.page_size >= 1
    }
}

/// What to search for, in which order the results come, and which page of
/// them is asked for.
#[derive(Debug)]
pub struct QueryParams {
    narrator: Option<String>,
    keywords: Option<String>,
    sort: String,
    page_size: u32,
    page: u32,
}

impl View for QueryParams {
    type V = QueryView;

    closed spec fn view(&self) -> QueryView {
        QueryView {
            narrator: text_of(self.narrator),
            keywords: text_of(self.keywords),
            sort: self.sort@,
            page_size: self.page_size,
            page: self.page,
        }
    }
}

impl Clone for QueryParams {
    fn clone(&self) -> (copy: Self)
        ensures
            copy@ == self@,
    {
        proof {
            use_type_invariant(self);
        }
        QueryParams {
            narrator: match &self.narrator {
                Some(narrator) => Some(narrator.clone()),
                None => None,
            },
            keywords: match &self.keywords {
                Some(keywords) => Some(keywords.clone()),
                None => None,
            },
            sort: self.sort.clone(),
            page_size: self.page_size,
            page: self.page,
        }
    }
}

/// The names and values that the criteria put into the query string, in
/// their order: the narrator filter where there is one, then the sort order,
/// the page size and the page number.
pub open spec fn query_pairs(query: QueryView) -> Seq<Pair> {
    let fixed = seq![
        (encode_utf8(SORT_PARAMETER@), encode_utf8(query.sort)),
        (encode_utf8(PAGE_SIZE_PARAMETER@), decimal_digits(query.page_size as nat)),
        (encode_utf8(PAGE_PARAMETER@), decimal_digits(query.page as nat)),
    ];
    match query.narrator {
        Some(narrator) => seq![(encode_utf8(NARRATOR_PARAMETER@), encode_utf8(narrator))] + fixed,
        None => fixed,
    }
}

/// The query string that the criteria make.
pub open spec fn query_text(query: QueryView) -> Seq<u8> {
    write_pairs(query_pairs(query))
}

/// The characters that the ASCII bytes `bytes` stand for.
pub open spec fn ascii_text(bytes: Seq<u8>) -> Seq<char> {
    bytes.map_values(|byte: u8| byte as char)
}

/// The value of the first pair named `name`, where there is one.
pub open spec fn pair_value(pairs: Seq<Pair>, name: Seq<u8>) -> Option<Seq<u8>>
    decreases pairs.len(),
{
    if pairs.len() == 0 {
        None
    } else if pairs.first().0 == name {
        Some(pairs.first().1)
    } else {
        pair_value(pairs.drop_first(), name)
    }
}

/// The text that the query string `query` gives the parameter `name`.
pub open spec fn text_parameter(query: Seq<u8>, name: Seq<char>) -> Option<Seq<char>> {
    match pair_value(read_pairs(query), encode_utf8(name)) {
        Some(value) => Some(decode_utf8(value)),
        None => None,
    }
}

/// The number that the query string `query` gives the parameter `name`.
pub open spec fn number_parameter(query: Seq<u8>, name: Seq<char>) -> Option<u32> {
    match pair_value(read_pairs(query), encode_utf8(name)) {
        Some(value) => decimal_u32(value),
        None => None,
    }
}

impl QueryParams {
    #[verifier::type_invariant]
    spec fn counts_from_one(&self) -> bool {
        self@.well_formed()
    }

    /// The criteria that ask for the first page of everything, fifty results
    /// to the page, in the catalogue's ranking by title.
    pub fn new() -> (query: Self)
        ensures
            query@ == (QueryView {
                narrator: None,
                keywords: None,
                sort: DEFAULT_SORT@,
                page_size: DEFAULT_PAGE_SIZE,
                page: 1,
            }),
            query@.well_formed(),
    {
        Self {
            narrator: None,
            keywords: None,
            sort: String::from_str(DEFAULT_SORT),
            page_size: DEFAULT_PAGE_SIZE,
            page: 1,
        }
    }

    /// The same criteria with the keyword filter `keywords`.
    pub fn keywords(self, keywords: &str) -> (query: Self)
        ensures
            query@ == (QueryView { keywords: Some(keywords@), ..self@ }),
            query@.well_formed(),
    {
        proof {
            use_type_invariant(&self);
        }
        let mut query = self;
        query.keywords = Some(String::from_str(keywords));
        query
    }

    /// The same criteria with the narrator filter `narrator`.
    pub fn narrator(self, narrator: &str) -> (query: Self)
        ensures
            query@ == (QueryView { narrator: Some(narrator@), ..self@ }),
            query@.well_formed(),
    {
        proof {
            use_type_invariant(&self);
        }
        let mut query = self;
        query.narrator = Some(String::from_str(narrator));
        query
    }

    /// The same criteria with the sort order `sort`.
    pub fn sort(self, sort: &str) -> (query: Self)
        ensures
            query@ == (QueryView { sort: sort@, ..self@ }),
            query@.well_formed(),
    {
        proof {
            use_type_invariant(&self);
        }
        let mut query = self;
        query.sort = String::from_str(sort);
        query
    }

    /// The same criteria for the page `page`, counted from 1.
    pub fn page(self, page: u32) -> (query: Self)
        requires
            page >= 1,
        ensures
            query@ == (QueryView { page, ..self@ }),
            query@.well_formed(),
    {
        proof {
            use_type_invariant(&self);
        }
        let mut query = self;
        query.page = page;
        query
    }

    /// The same criteria with `page_size` results to the page.
    pub fn page_size(self, page_size: u32) -> (query: Self)
        requires
            page_size >= 1,
        ensures
            query@ == (QueryView { page_size, ..self@ }),
            query@.well_formed(),
    {
        proof {
            use_type_invariant(&self);
        }
        let mut query = self;
        query.page_size = page_size;
        query
    }

    /// Builds the URL of the request that these criteria make: the address
    /// of the search page followed by the query string.
    ///
    /// Fails only where the address of the search page is no URL.
    pub fn build_url(&self) -> (url: Result<Url, UrlBuildError>)
        ensures
            match parsed_url(SEARCH_URL@) {
                Some(base) => url matches Ok(u) && u@ == base + ascii_text(query_text(self@)),
                None => url == Err::<Url, UrlBuildError>(UrlBuildError::InvalidBaseUrl),
            },
            self@.well_formed(),
    {
        proof {
            use_type_invariant(self);
        }
        let base = match Url::parse(SEARCH_URL) {
            Some(base) => base,
            None => { return Err(UrlBuildError::InvalidBaseUrl); },
        };
        let query = self.query_bytes();
        let mut text = String::from_str(base.as_str());
        let mut i: usize = 0;
        assert(text@ =~= base@ + ascii_text(query@.take(0)));
        while i < query.len()
            invariant
                i <= query.len(),
                text@ == base@ + ascii_text(query@.take(i as int)),
            decreases query.len() - i,
        {
            push_char(&mut text, query[i] as char);
            assert(text@ =~= base@ + ascii_text(query@.take(i + 1)));
            i = i + 1;
        }
        assert(query@.take(i as int) =~= query@);
        Ok(Url::from_serialized(text))
    }

    /// Writes the query string.
    fn query_bytes(&self) -> (query: Vec<u8>)
        ensures
            query@ == query_text(self@),
    {
        let mut query: Vec<u8> = Vec::new();
        let ghost mut written: Seq<Pair> = Seq::empty();
        match &self.narrator {
            Some(narrator) => {
                write(
                    &mut query,
                    Ghost(written),
                    NARRATOR_PARAMETER.as_bytes(),
                    narrator.as_str().as_bytes(),
                );
                proof {
                    written = written.push(
                        (encode_utf8(NARRATOR_PARAMETER@), encode_utf8(narrator@)),
                    );
                }
            },
            None => {},
        }
        write(&mut query, Ghost(written), SORT_PARAMETER.as_bytes(), self.sort.as_str().as_bytes());
        proof {
            written = written.push((encode_utf8(SORT_PARAMETER@), encode_utf8(self.sort@)));
        }
        let page_size = decimal_bytes(self.page_size);
        write(&mut query, Ghost(written), PAGE_SIZE_PARAMETER.as_bytes(), page_size.as_slice());
        proof {
            written = written.push((encode_utf8(PAGE_SIZE_PARAMETER@), page_size@));
        }
        let page = decimal_bytes(self.page);
        write(&mut query, Ghost(written), PAGE_PARAMETER.as_bytes(), page.as_slice());
        proof {
            written = written.push((encode_utf8(PAGE_PARAMETER@), page@));
            assert(written =~= query_pairs(self@));
        }
        query
    }
}

/// Appends one more pair to `out`, which holds `written`.
fn write(out: &mut Vec<u8>, Ghost(written): Ghost<Seq<Pair>>, name: &[u8], value: &[u8])
    requires
        old(out)@ == write_pairs(written),
    ensures
        final(out)@ == write_pairs(written.push((name@, value@))),
{
    proof {
        lemma_write_pairs_push(written, (name@, value@));
        if written.len() > 0 {
            lemma_written_is_not_empty(written);
        }
    }
    append_pair(out, name, value);
}

/// Pairs are never written as nothing.
proof fn lemma_written_is_not_empty(pairs: Seq<Pair>)
    requires
        pairs.len() > 0,
    ensures
        write_pairs(pairs).len() > 0,
{
    lemma_read_written_pair(pairs.first());
}

/// The parameters have four different names.
proof fn lemma_parameter_names()
    ensures
        encode_utf8(NARRATOR_PARAMETER@) != encode_utf8(SORT_PARAMETER@),
        encode_utf8(NARRATOR_PARAMETER@) != encode_utf8(PAGE_SIZE_PARAMETER@),
        encode_utf8(NARRATOR_PARAMETER@) != encode_utf8(PAGE_PARAMETER@),
        encode_utf8(SORT_PARAMETER@) != encode_utf8(PAGE_SIZE_PARAMETER@),
        encode_utf8(SORT_PARAMETER@) != encode_utf8(PAGE_PARAMETER@),
        encode_utf8(PAGE_SIZE_PARAMETER@) != encode_utf8(PAGE_PARAMETER@),
{
    reveal_strlit("searchNarrator");
    reveal_strlit("sort");
    reveal_strlit("pageSize");
    reveal_strlit("page");
    encode_utf8_decode_utf8(NARRATOR_PARAMETER@);
    encode_utf8_decode_utf8(SORT_PARAMETER@);
    encode_utf8_decode_utf8(PAGE_SIZE_PARAMETER@);
    encode_utf8_decode_utf8(PAGE_PARAMETER@);
    assert(NARRATOR_PARAMETER@.len() == 14);
    assert(SORT_PARAMETER@.len() == 4);
    assert(PAGE_SIZE_PARAMETER@.len() == 8);
    assert(PAGE_PARAMETER@.len() == 4);
    assert(SORT_PARAMETER@[0] == 's');
    assert(PAGE_PARAMETER@[0] == 'p');
}

/// The bytes of the text that ASCII bytes stand for are those bytes.
pub proof fn lemma_ascii_text_bytes(bytes: Seq<u8>)
    requires
        all_ascii(bytes),
    ensures
        encode_utf8(ascii_text(bytes)) == bytes,
{
    let text = ascii_text(bytes);
    assert forall|i: int| 0 <= i < text.len() implies '\0' <= #[trigger] text[i] <= '\u{7f}' by {
        assert(bytes[i] < 128);
    }
    is_ascii_chars_encode_utf8(text);
    assert forall|i: int| 0 <= i < bytes.len() implies encode_utf8(text)[i] == bytes[i] by {
        assert(text[i] as u8 == encode_utf8(text)[i]);
        assert(bytes[i] < 128);
    }
    assert(encode_utf8(text) =~= bytes);
}

/// In the URL that criteria make, what follows the address of the search
/// page is, byte for byte, the query string of the criteria.
pub proof fn lemma_built_url_holds_the_query(base: Seq<char>, query: QueryView)
    ensures
        encode_utf8((base + ascii_text(query_text(query))).skip(base.len() as int)) == query_text(
            query,
        ),
{
    lemma_write_pairs_ascii(query_pairs(query));
    lemma_ascii_text_bytes(query_text(query));
    assert((base + ascii_text(query_text(query))).skip(base.len() as int) =~= ascii_text(
        query_text(query),
    ));
}

/// Reading the query string that criteria make gives the criteria back: the
/// pairs that were written, in their order, and from them the narrator
/// filter, where there is one, the sort order, the page size and the page
/// number.
pub proof fn lemma_query_round_trip(query: QueryView)
    ensures
        read_pairs(query_text(query)) == query_pairs(query),
        text_parameter(query_text(query), NARRATOR_PARAMETER@) == query.narrator,
        text_parameter(query_text(query), SORT_PARAMETER@) == Some(query.sort),
        number_parameter(query_text(query), PAGE_SIZE_PARAMETER@) == Some(query.page_size),
        number_parameter(query_text(query), PAGE_PARAMETER@) == Some(query.page),
{
    let pairs = query_pairs(query);
    lemma_read_written_pairs(pairs);
    lemma_parameter_names();
    lemma_decimal_round_trip(query.page_size);
    lemma_decimal_round_trip(query.page);
    encode_utf8_decode_utf8(query.sort);
    let fixed = seq![
        (encode_utf8(SORT_PARAMETER@), encode_utf8(query.sort)),
        (encode_utf8(PAGE_SIZE_PARAMETER@), decimal_digits(query.page_size as nat)),
        (encode_utf8(PAGE_PARAMETER@), decimal_digits(query.page as nat)),
    ];
    let after_sort = fixed.drop_first();
    let after_size = after_sort.drop_first();
    assert(after_size.drop_first().len() == 0);
    assert(pair_value(after_size, encode_utf8(PAGE_PARAMETER@)) == Some(
        decimal_digits(query.page as nat),
    ));
    assert(pair_value(after_size.drop_first(), encode_utf8(NARRATOR_PARAMETER@)) is None);
    assert(pair_value(after_size, encode_utf8(NARRATOR_PARAMETER@)) is None);
    assert(pair_value(after_sort, encode_utf8(NARRATOR_PARAMETER@)) is None);
    assert(pair_value(fixed, encode_utf8(NARRATOR_PARAMETER@)) is None);
    assert(pair_value(after_sort, encode_utf8(PAGE_PARAMETER@)) == Some(
        decimal_digits(query.page as nat),
    ));
    assert(pair_value(after_sort, encode_utf8(PAGE_SIZE_PARAMETER@)) == Some(
        decimal_digits(query.page_size as nat),
    ));
    assert(pair_value(fixed, encode_utf8(PAGE_PARAMETER@)) == Some(
        decimal_digits(query.page as nat),
    ));
    assert(pair_value(fixed, encode_utf8(PAGE_SIZE_PARAMETER@)) == Some(
        decimal_digits(query.page_size as nat),
    ));
    assert(pair_value(fixed, encode_utf8(SORT_PARAMETER@)) == Some(encode_utf8(query.sort)));
    match query.narrator {
        Some(narrator) => {
            encode_utf8_decode_utf8(narrator);
            assert(pairs.drop_first() =~= fixed);
        },
        None => {},
    }
}

} // verus!
