//! The rules of pagination: which page this is, and where the next and the
//! previous page are.

use crate::address::{joined_url, url_text, Url};
use crate::decimal::{decimal_u32, parse_u32};
use crate::text::text_of;
use vstd::prelude::*;
use vstd::utf8::encode_utf8;

verus! {

/// A link to a neighbouring page as the page shows it.
#[derive(Debug)]
pub struct NavControl {
    /// The page marks the link as switched off.
    pub disabled: bool,
    /// The target of the link, where it has one; it may be relative.
    pub href: Option<String>,
}

/// A `NavControl` as mathematical values.
pub struct NavView {
    pub disabled: bool,
    pub href: Option<Seq<char>>,
}

impl View for NavControl {
    type V = NavView;

    open spec fn view(&self) -> NavView {
        NavView { disabled: self.disabled, href: text_of(self.href) }
    }
}

/// The view of a link that may be missing.
pub open spec fn control_view(control: Option<NavControl>) -> Option<NavView> {
    match control {
        Some(c) => Some(c@),
        None => None,
    }
}

/// The views of the texts of the page-number elements.
pub open spec fn text_views(texts: Seq<Option<String>>) -> Seq<Option<Seq<char>>> {
    texts.map_values(|text: Option<String>| text_of(text))
}

/// The number of the page whose page-number elements show `texts`: the first
/// of them that is a number, and 1 where none is. The first page of a
/// listing shows no number.
pub open spec fn page_index_of(texts: Seq<Option<Seq<char>>>) -> u32
    decreases texts.len(),
{
    if texts.len() == 0 {
        1
    } else {
        match texts.first() {
            Some(text) => match decimal_u32(encode_utf8(text)) {
                Some(number) => number,
                None => page_index_of(texts.drop_first()),
            },
            None => page_index_of(texts.drop_first()),
        }
    }
}

/// The address of the neighbouring page that `control` leads to from the
/// page at `base`: none where the link is missing, switched off or without a
/// target, or where the target cannot be resolved against `base`.
pub open spec fn target_of(base: Seq<char>, control: Option<NavView>) -> Option<Seq<char>> {
    match control {
        None => None,
        Some(c) => if c.disabled {
            None
        } else {
            match c.href {
                None => None,
                Some(href) => joined_url(base, href),
            }
        },
    }
}

/// Finds the number of the current page among the texts of the page-number
/// elements.
pub fn page_index(texts: &Vec<Option<String>>) -> (page: u32)
    ensures
        page == page_index_of(text_views(texts@)),
        texts@.len() == 0 ==> page == 1,
{
    let ghost views = text_views(texts@);
    let mut i: usize = 0;
    assert(views.skip(0) =~= views);
    while i < texts.len()
        invariant
            i <= texts.len(),
            views == text_views(texts@),
            page_index_of(views) == page_index_of(views.skip(i as int)),
        decreases texts.len() - i,
    {
        let ghost rest = views.skip(i as int);
        assert(rest.first() == text_of(texts@[i as int]));
        assert(rest.drop_first() =~= views.skip(i + 1));
        match &texts[i] {
            Some(text) => {
                match parse_u32(text.as_str().as_bytes()) {
                    Some(number) => {
                        return number;
                    },
                    None => {},
                }
            },
            None => {},
        }
        i = i + 1;
    }
    1
}

/// Resolves the link to a neighbouring page against the address of the page
/// that shows it.
pub fn nav_target(base: &Url, control: &Option<NavControl>) -> (target: Option<Url>)
    ensures
        url_text(target) == target_of(base@, control_view(*control)),
{
    match control {
        None => None,
        Some(c) => {
            if c.disabled {
                None
            } else {
                match &c.href {
                    None => None,
                    Some(href) => base.join(href.as_str()),
                }
            }
        },
    }
}

} // verus!
