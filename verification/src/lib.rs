//! Crawling a paginated audiobook catalogue.
//!
//! A crawl starts from search criteria (`QueryParams`), which make the URL
//! of the first page of results. Each fetched page (`PageResult`) says which
//! page it is and where the next and the previous page are, and yields the
//! audiobooks on it (`AudioBook`). A `Crawl` walks the listing from page to
//! page until a page names no next page.
//!
//! The library fetches nothing itself: it says what to fetch and takes the
//! markup that came back. HTML, URLs, regular expressions and dates are left
//! to the crates made for them; what the library has from them is named in
//! `markup`, `address`, `dates` and `text`, and everything else is proved.

pub mod address;
pub mod audio_book;
pub mod builder;
pub mod dates;
pub mod decimal;
pub mod error;
pub mod form;
pub mod listing;
pub mod markup;
pub mod page_result;
pub mod pagination;
pub mod params;
pub mod reader;
pub mod scrapper;
pub mod site;
pub mod text;

pub use address::Url;
pub use audio_book::AudioBook;
pub use builder::{default_headers, Builder, Header};
pub use dates::{extract_date, Date};
pub use error::{ExtractError, Field, UrlBuildError};
pub use listing::{extract_records, Item, SampleAudio};
pub use page_result::PageResult;
pub use pagination::{nav_target, page_index, NavControl};
pub use params::QueryParams;
pub use scrapper::{Crawl, Scrapper};
