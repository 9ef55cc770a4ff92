//! The catalogue's markup: where on a page each thing is found.
//!
//! These names are the whole of what the library knows about the site's
//! pages. When the site changes its markup, this is the file to change.

use vstd::prelude::*;

verus! {

/// The address of the catalogue's search page, to which a query is appended.
pub const SEARCH_URL: &'static str = "https://www.audible.es/search?";

/// The element that shows the number of the current page.
pub const PAGE_NUMBER_SELECTOR: &'static str = "span.pageNumberElement";

/// The link to the next page.
pub const NEXT_SELECTOR: &'static str = ".nextButton a";

/// The link to the previous page.
pub const PREVIOUS_SELECTOR: &'static str = ".previousButton a";

/// One product entry of the result list.
pub const ITEM_SELECTOR: &'static str = "li.productListItem";

/// Inside an entry: the button that plays a sample.
pub const SAMPLE_SELECTOR: &'static str = "button[data-mp3]";

/// Inside an entry: the link that names the narrator.
pub const NARRATOR_SELECTOR: &'static str = "li.narratorLabel span.bc-text a";

/// Inside an entry: the label that names the language.
pub const LANGUAGE_SELECTOR: &'static str = "li.languageLabel span.bc-text";

/// Inside an entry: the label that holds the release date.
pub const RELEASE_DATE_SELECTOR: &'static str = "li.releaseDateLabel span.bc-text";

/// The attribute of a sample button that holds the sample's address.
pub const SAMPLE_ATTRIBUTE: &'static str = "data-mp3";

/// The attribute of an entry that holds its title.
pub const TITLE_ATTRIBUTE: &'static str = "aria-label";

/// The attribute whose presence marks a link as switched off.
pub const DISABLED_ATTRIBUTE: &'static str = "aria-disabled";

/// The attribute of a link that holds its target.
pub const TARGET_ATTRIBUTE: &'static str = "href";

/// What a request says it accepts.
pub const ACCEPT: &'static str =
    "text/html,application/xhtml+xml,application/xml;q=0.9,image/avif,image/webp,image/apng,*/*;q=0.8,application/signed-exchange;v=b3;q=0.7";

/// The languages that a request asks for: the catalogue is the Spanish one.
pub const ACCEPT_LANGUAGE: &'static str = "es-ES,es;q=0.9,en;q=0.8";

/// What a request says about caches.
pub const CACHE_CONTROL: &'static str = "max-age=0";

/// The browser that a request says it comes from.
pub const USER_AGENT: &'static str =
    "Mozilla/5.0 (Windows NT 10.0; Win64; x64) AppleWebKit/537.36 (KHTML, like Gecko) Chrome/93.0.4577.82 Safari/537.36";

/// Whether a request asks for the secure variant of a page.
pub const UPGRADE_INSECURE_REQUESTS: &'static str = "1";

/// Whether the parser accepts every selector with which entries are read.
pub open spec fn item_selectors_valid() -> bool {
    &&& crate::markup::valid_selector(ITEM_SELECTOR@)
    &&& crate::markup::valid_selector(SAMPLE_SELECTOR@)
    &&& crate::markup::valid_selector(NARRATOR_SELECTOR@)
    &&& crate::markup::valid_selector(LANGUAGE_SELECTOR@)
    &&& crate::markup::valid_selector(RELEASE_DATE_SELECTOR@)
}

} // verus!
