//! Reading a parsed page: the page-number texts, the links to the
//! neighbouring pages and the product entries.
//!
//! Each function here says which calls into the parser make up the value it
//! returns; what those calls return has a name in `markup`.

use crate::address::{parsed_url, Url};
use crate::dates::{date_in, extract_date};
use crate::listing::{Item, ItemView, SampleAudio, SampleView, item_views};
use crate::markup::{
    attribute, document_matches, element_attr, element_first_text, element_inner_html,
    element_matches, first_text, inner_html, select_in_document, select_in_element,
    selector_parses, valid_selector,
};
use crate::pagination::{NavControl, NavView, control_view, text_views};
use crate::site::{
    DISABLED_ATTRIBUTE, ITEM_SELECTOR, LANGUAGE_SELECTOR, NARRATOR_SELECTOR,
    PAGE_NUMBER_SELECTOR, RELEASE_DATE_SELECTOR, SAMPLE_ATTRIBUTE, SAMPLE_SELECTOR,
    TARGET_ATTRIBUTE, TITLE_ATTRIBUTE, item_selectors_valid,
};
use crate::text::{decode_entities, decoded_entities, stripped, text_of, trim};
use scraper::{ElementRef, Html};
use vstd::prelude::*;

verus! {

/// The elements of `doc` that match `css`; none where the parser does not
/// accept `css`.
pub open spec fn matches_in(doc: Html, css: Seq<char>) -> Seq<ElementRef<'static>> {
    if valid_selector(css) {
        document_matches(doc, css)
    } else {
        Seq::empty()
    }
}

/// The first descendant of `element` that matches `css`, where one does.
pub open spec fn first_within(element: ElementRef<'static>, css: Seq<char>) -> Option<
    ElementRef<'static>,
> {
    if element_matches(element, css).len() > 0 {
        Some(element_matches(element, css).first())
    } else {
        None
    }
}

/// The first text of each page-number element of `doc`.
pub open spec fn page_number_texts(doc: Html) -> Seq<Option<Seq<char>>> {
    matches_in(doc, PAGE_NUMBER_SELECTOR@).map_values(
        |element: ElementRef<'static>| element_first_text(element),
    )
}

/// The link that `element` is.
pub open spec fn control_of(element: ElementRef<'static>) -> NavView {
    NavView {
        disabled: element_attr(element, DISABLED_ATTRIBUTE@) is Some,
        href: element_attr(element, TARGET_ATTRIBUTE@),
    }
}

/// The first link of `doc` that matches `css`, where one does.
pub open spec fn control_in(doc: Html, css: Seq<char>) -> Option<NavView> {
    if matches_in(doc, css).len() > 0 {
        Some(control_of(matches_in(doc, css).first()))
    } else {
        None
    }
}

/// The sample of the entry `element`.
pub open spec fn sample_of(element: ElementRef<'static>) -> SampleView {
    match first_within(element, SAMPLE_SELECTOR@) {
        None => SampleView::Absent,
        Some(button) => match element_attr(button, SAMPLE_ATTRIBUTE@) {
            None => SampleView::Unaddressed,
            Some(address) => match parsed_url(address) {
                None => SampleView::Malformed,
                Some(url) => SampleView::At(url),
            },
        },
    }
}

/// What the entry `element` holds: its title with character references
/// decoded, the narrator as the narrator link gives it, the language
/// without surrounding white space, and the date in the release-date label.
pub open spec fn item_of(element: ElementRef<'static>) -> ItemView {
    ItemView {
        sample: sample_of(element),
        title: match element_attr(element, TITLE_ATTRIBUTE@) {
            Some(label) => Some(decoded_entities(label)),
            None => None,
        },
        narrator: match first_within(element, NARRATOR_SELECTOR@) {
            Some(link) => Some(element_inner_html(link)),
            None => None,
        },
        language: match first_within(element, LANGUAGE_SELECTOR@) {
            Some(label) => Some(stripped(element_inner_html(label))),
            None => None,
        },
        release_date: match first_within(element, RELEASE_DATE_SELECTOR@) {
            Some(label) => Some(date_in(element_inner_html(label))),
            None => None,
        },
    }
}

/// What the product entries of `doc` hold, in the order of the page.
pub open spec fn items_in(doc: Html) -> Seq<ItemView> {
    document_matches(doc, ITEM_SELECTOR@).map_values(
        |element: ElementRef<'static>| item_of(element),
    )
}

/// Selects the elements of `doc` that match `css`.
fn select<'a>(doc: &'a Html, css: &str) -> (found: Vec<ElementRef<'a>>)
    ensures
        found@ == matches_in(*doc, css@),
{
    if selector_parses(css) {
        select_in_document(doc, css)
    } else {
        Vec::new()
    }
}

/// Selects the first descendant of `element` that matches `css`.
fn select_first<'a>(element: &ElementRef<'a>, css: &str) -> (found: Option<ElementRef<'a>>)
    requires
        valid_selector(css@),
    ensures
        found == first_within(*element, css@),
{
    let found = select_in_element(element, css);
    if found.len() > 0 {
        Some(found[0])
    } else {
        None
    }
}

/// Reads the first text of each page-number element.
pub(crate) fn read_page_numbers(doc: &Html) -> (texts: Vec<Option<String>>)
    ensures
        text_views(texts@) == page_number_texts(*doc),
{
    let found = select(doc, PAGE_NUMBER_SELECTOR);
    let mut texts: Vec<Option<String>> = Vec::new();
    let mut i: usize = 0;
    while i < found.len()
        invariant
            i <= found.len(),
            found@ == matches_in(*doc, PAGE_NUMBER_SELECTOR@),
            texts@.len() == i,
            forall|k: int|
                0 <= k < i ==> text_of(#[trigger] texts@[k]) == element_first_text(found@[k]),
        decreases found.len() - i,
    {
        let text = first_text(&found[i]);
        texts.push(text);
        i = i + 1;
    }
    assert(text_views(texts@) =~= page_number_texts(*doc));
    texts
}

/// Reads the first link that matches `css`.
pub(crate) fn read_control(doc: &Html, css: &str) -> (control: Option<NavControl>)
    ensures
        control_view(control) == control_in(*doc, css@),
{
    let found = select(doc, css);
    if found.len() == 0 {
        return None;
    }
    let link = &found[0];
    let disabled = attribute(link, DISABLED_ATTRIBUTE).is_some();
    let href = attribute(link, TARGET_ATTRIBUTE);
    Some(NavControl { disabled, href })
}

/// Reads the sample of one entry.
fn read_sample(element: &ElementRef<'_>) -> (sample: SampleAudio)
    requires
        valid_selector(SAMPLE_SELECTOR@),
    ensures
        sample@ == sample_of(*element),
{
    match select_first(element, SAMPLE_SELECTOR) {
        None => SampleAudio::Absent,
        Some(button) => match attribute(&button, SAMPLE_ATTRIBUTE) {
            None => SampleAudio::Unaddressed,
            Some(address) => match Url::parse(address.as_str()) {
                None => SampleAudio::Malformed,
                Some(url) => SampleAudio::At(url),
            },
        },
    }
}

/// Reads one entry.
fn read_item(element: &ElementRef<'_>) -> (item: Item)
    requires
        item_selectors_valid(),
    ensures
        item@ == item_of(*element),
{
    let sample = read_sample(element);
    let title = match attribute(element, TITLE_ATTRIBUTE) {
        Some(label) => Some(decode_entities(label.as_str())),
        None => None,
    };
    let narrator = match select_first(element, NARRATOR_SELECTOR) {
        Some(link) => Some(inner_html(&link)),
        None => None,
    };
    let language = match select_first(element, LANGUAGE_SELECTOR) {
        Some(label) => Some(trim(inner_html(&label).as_str())),
        None => None,
    };
    let release_date = match select_first(element, RELEASE_DATE_SELECTOR) {
        Some(label) => Some(extract_date(inner_html(&label).as_str())),
        None => None,
    };
    Item { sample, title, narrator, language, release_date }
}

/// Whether the parser accepts every selector with which entries are read.
pub(crate) fn check_item_selectors() -> (valid: bool)
    ensures
        valid == item_selectors_valid(),
{
    selector_parses(ITEM_SELECTOR) && selector_parses(SAMPLE_SELECTOR) && selector_parses(
        NARRATOR_SELECTOR,
    ) && selector_parses(LANGUAGE_SELECTOR) && selector_parses(RELEASE_DATE_SELECTOR)
}

/// Reads the product entries of a page.
pub(crate) fn read_items(doc: &Html) -> (items: Vec<Item>)
    requires
        item_selectors_valid(),
    ensures
        item_views(items@) == items_in(*doc),
{
    let found = select_in_document(doc, ITEM_SELECTOR);
    let mut items: Vec<Item> = Vec::new();
    let mut i: usize = 0;
    while i < found.len()
        invariant
            i <= found.len(),
            item_selectors_valid(),
            found@ == document_matches(*doc, ITEM_SELECTOR@),
            items@.len() == i,
            forall|k: int| 0 <= k < i ==> (#[trigger] items@[k])@ == item_of(found@[k]),
        decreases found.len() - i,
    {
        let item = read_item(&found[i]);
        items.push(item);
        i = i + 1;
    }
    assert(item_views(items@) =~= items_in(*doc));
    items
}

} // verus!
