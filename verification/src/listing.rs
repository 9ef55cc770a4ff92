//! The rules that turn the product entries of a page into audiobooks.
//!
//! An `Item` holds what was read from one product entry of a page. Entries
//! without a sample are no audiobooks and are passed over. An entry with a
//! sample must be complete: where anything mandatory is missing, the whole
//! page is refused rather than returned with an entry short.

use crate::address::Url;
use crate::audio_book::{AudioBook, BookView};
use crate::dates::Date;
use crate::error::{ExtractError, Field};
use crate::text::text_of;
use vstd::prelude::*;

verus! {

/// The sample of an entry, as far as the page gives one.
#[derive(Debug)]
pub enum SampleAudio {
    /// The entry has no sample at all.
    Absent,
    /// The entry has a sample that names no address.
    Unaddressed,
    /// The entry has a sample whose address is no absolute URL.
    Malformed,
    /// The entry has a sample at this address.
    At(Url),
}

/// What one product entry of a page holds.
#[derive(Debug)]
pub struct Item {
    pub sample: SampleAudio,
    pub title: Option<String>,
    pub narrator: Option<String>,
    pub language: Option<String>,
    /// What the release-date label gave, where the entry has such a label.
    pub release_date: Option<Result<Date, ExtractError>>,
}

/// A `SampleAudio` as mathematical values.
pub enum SampleView {
    Absent,
    Unaddressed,
    Malformed,
    At(Seq<char>),
}

/// An `Item` as mathematical values.
pub struct ItemView {
    pub sample: SampleView,
    pub title: Option<Seq<char>>,
    pub narrator: Option<Seq<char>>,
    pub language: Option<Seq<char>>,
    pub release_date: Option<Result<Date, ExtractError>>,
}

impl View for SampleAudio {
    type V = SampleView;

    open spec fn view(&self) -> SampleView {
        match *self {
            SampleAudio::Absent => SampleView::Absent,
            SampleAudio::Unaddressed => SampleView::Unaddressed,
            SampleAudio::Malformed => SampleView::Malformed,
            SampleAudio::At(url) => SampleView::At(url@),
        }
    }
}

impl View for Item {
    type V = ItemView;

    open spec fn view(&self) -> ItemView {
        ItemView {
            sample: self.sample@,
            title: text_of(self.title),
            narrator: text_of(self.narrator),
            language: text_of(self.language),
            release_date: self.release_date,
        }
    }
}

/// The views of a sequence of items.
pub open spec fn item_views(items: Seq<Item>) -> Seq<ItemView> {
    items.map_values(|item: Item| item@)
}

/// The views of a sequence of audiobooks.
pub open spec fn book_views(books: Seq<AudioBook>) -> Seq<BookView> {
    books.map_values(|book: AudioBook| book@)
}

/// The view of what an extraction returned.
pub open spec fn outcome_view(outcome: Result<Vec<AudioBook>, ExtractError>) -> Result<
    Seq<BookView>,
    ExtractError,
> {
    match outcome {
        Ok(books) => Ok(book_views(books@)),
        Err(error) => Err(error),
    }
}

/// What an entry with a sample at `sample_url` becomes: the audiobook it
/// describes, or the first thing that is wrong with it, looking at title,
/// narrator, language and release date in that order.
pub open spec fn book_of(item: ItemView, sample_url: Seq<char>) -> Result<BookView, ExtractError> {
    if item.title is None {
        Err(ExtractError::FieldMissing(Field::Title))
    } else if item.narrator is None {
        Err(ExtractError::FieldMissing(Field::Narrator))
    } else if item.language is None {
        Err(ExtractError::FieldMissing(Field::Language))
    } else {
        match item.release_date {
            Some(Err(error)) => Err(error),
            Some(Ok(date)) => Ok(complete_book(item, Some(date), sample_url)),
            None => Ok(complete_book(item, None, sample_url)),
        }
    }
}

/// The audiobook that a complete entry describes.
pub open spec fn complete_book(
    item: ItemView,
    release_date: Option<Date>,
    sample_url: Seq<char>,
) -> BookView
    recommends
        item.title is Some,
        item.narrator is Some,
        item.language is Some,
{
    BookView {
        title: item.title->0,
        narrator: item.narrator->0,
        language: item.language->0,
        release_date,
        sample_url,
    }
}

/// What one entry becomes: nothing where it has no sample, else an audiobook
/// or the reason why it is none.
pub open spec fn item_record(item: ItemView) -> Option<Result<BookView, ExtractError>> {
    match item.sample {
        SampleView::Absent => None,
        SampleView::Unaddressed => Some(Err(ExtractError::FieldMissing(Field::SampleUrl))),
        SampleView::Malformed => Some(Err(ExtractError::InvalidSampleUrl)),
        SampleView::At(url) => Some(book_of(item, url)),
    }
}

/// Whether an entry is refused.
pub open spec fn item_fails(item: ItemView) -> bool {
    item_record(item) matches Some(Err(_))
}

/// The audiobooks of `items` in order, or the failure of the first entry
/// that is refused.
pub open spec fn records_until(items: Seq<ItemView>) -> Result<Seq<BookView>, ExtractError>
    decreases items.len(),
{
    if items.len() == 0 {
        Ok(Seq::empty())
    } else {
        match records_until(items.drop_last()) {
            Err(error) => Err(error),
            Ok(books) => match item_record(items.last()) {
                None => Ok(books),
                Some(Err(error)) => Err(error),
                Some(Ok(book)) => Ok(books.push(book)),
            },
        }
    }
}

/// The audiobooks of a page whose product entries are `items`. A page
/// without any entry is refused.
pub open spec fn records_of(items: Seq<ItemView>) -> Result<Seq<BookView>, ExtractError> {
    if items.len() == 0 {
        Err(ExtractError::NoItemsFound)
    } else {
        records_until(items)
    }
}

/// Turns one entry with a sample at `sample_url` into an audiobook.
fn make_book(item: &Item, sample_url: &Url) -> (outcome: Result<AudioBook, ExtractError>)
    ensures
        match outcome {
            Ok(book) => book_of(item@, sample_url@) == Ok::<BookView, ExtractError>(book@),
            Err(error) => book_of(item@, sample_url@) == Err::<BookView, ExtractError>(error),
        },
{
    let title = match &item.title {
        Some(title) => title.clone(),
        None => { return Err(ExtractError::FieldMissing(Field::Title)); },
    };
    let narrator = match &item.narrator {
        Some(narrator) => narrator.clone(),
        None => { return Err(ExtractError::FieldMissing(Field::Narrator)); },
    };
    let language = match &item.language {
        Some(language) => language.clone(),
        None => { return Err(ExtractError::FieldMissing(Field::Language)); },
    };
    let release_date = match item.release_date {
        Some(Ok(date)) => Some(date),
        Some(Err(error)) => { return Err(error); },
        None => None,
    };
    Ok(AudioBook::new(title, narrator, language, release_date, sample_url.clone()))
}

/// Extracts the audiobooks from the product entries of one page.
///
/// Entries without a sample are passed over. The page is refused as a whole
/// where it has no entry at all, and where an entry with a sample lacks its
/// address, title, narrator or language or has a release date that cannot be
/// read; the failure reported is that of the first such entry.
pub fn extract_records(items: &Vec<Item>) -> (outcome: Result<Vec<AudioBook>, ExtractError>)
    ensures
        outcome_view(outcome) == records_of(item_views(items@)),
        outcome matches Ok(books) ==> records_of(item_views(items@)) matches Ok(views)
            && books.len() == views.len() && books.len() <= items.len() && forall|k: int|
            0 <= k < books.len() ==> (#[trigger] books[k])@ == views[k],
        outcome is Err <==> items.len() == 0 || exists|i: int|
            0 <= i < items.len() && item_fails(#[trigger] items[i]@),
{
    if items.len() == 0 {
        return Err(ExtractError::NoItemsFound);
    }
    let ghost views = item_views(items@);
    let mut books: Vec<AudioBook> = Vec::new();
    let mut i: usize = 0;
    assert(views.take(0) =~= Seq::<ItemView>::empty());
    assert(book_views(books@) =~= Seq::<BookView>::empty());
    while i < items.len()
        invariant
            i <= items.len(),
            views == item_views(items@),
            records_until(views.take(i as int)) == Ok::<Seq<BookView>, ExtractError>(
                book_views(books@),
            ),
        decreases items.len() - i,
    {
        let item = &items[i];
        let ghost seen = views.take(i as int);
        let ghost next = views.take(i + 1);
        assert(next.drop_last() =~= seen);
        assert(next.last() == item@);
        let ghost before = books@;
        match &item.sample {
            SampleAudio::Absent => {},
            SampleAudio::Unaddressed => {
                proof {
                    lemma_first_failure_decides(views, i as int);
                }
                return Err(ExtractError::FieldMissing(Field::SampleUrl));
            },
            SampleAudio::Malformed => {
                proof {
                    lemma_first_failure_decides(views, i as int);
                }
                return Err(ExtractError::InvalidSampleUrl);
            },
            SampleAudio::At(url) => {
                match make_book(item, url) {
                    Ok(book) => {
                        books.push(book);
                        assert(book_views(books@) =~= book_views(before).push(book@));
                    },
                    Err(error) => {
                        proof {
                            lemma_first_failure_decides(views, i as int);
                        }
                        return Err(error);
                    },
                }
            },
        }
        i = i + 1;
    }
    assert(views.take(i as int) =~= views);
    proof {
        lemma_outcome(views);
        assert forall|k: int| 0 <= k < books.len() implies (#[trigger] books[k])@ == book_views(
            books@,
        )[k] by {}
        assert forall|i: int| 0 <= i < items.len() implies !item_fails(#[trigger] items[i]@) by {
            assert(views[i] == items[i]@);
        }
    }
    Ok(books)
}

/// A page is refused exactly where it has no entry or an entry that is
/// refused, and it yields no more audiobooks than it has entries.
pub proof fn lemma_outcome(items: Seq<ItemView>)
    ensures
        records_of(items) is Err <==> items.len() == 0 || exists|i: int|
            0 <= i < items.len() && item_fails(#[trigger] items[i]),
        records_of(items) matches Ok(books) ==> books.len() <= items.len(),
{
    if items.len() > 0 {
        if exists|i: int| 0 <= i < items.len() && item_fails(#[trigger] items[i]) {
            let i = choose|i: int| 0 <= i < items.len() && item_fails(#[trigger] items[i]);
            lemma_failure_is_total(items, i);
        } else {
            lemma_complete_page_succeeds(items);
        }
    }
}

/// Where the entries before the one at `index` are not refused and that one
/// is, the page is refused for the reason for which that entry is.
pub proof fn lemma_first_failure_decides(items: Seq<ItemView>, index: int)
    requires
        0 <= index < items.len(),
        records_until(items.take(index)) is Ok,
        item_fails(items[index]),
    ensures
        item_record(items[index]) matches Some(Err(error)) && records_of(items) == Err::<
            Seq<BookView>,
            ExtractError,
        >(error),
    decreases items.len(),
{
    if index == items.len() - 1 {
        assert(items.drop_last() =~= items.take(index));
    } else {
        let shorter = items.drop_last();
        assert(shorter.take(index) =~= items.take(index));
        lemma_first_failure_decides(shorter, index);
    }
}

/// A page with an entry that is refused is refused, whatever else is on it.
pub proof fn lemma_failure_is_total(items: Seq<ItemView>, index: int)
    requires
        0 <= index < items.len(),
        item_fails(items[index]),
    ensures
        records_of(items) is Err,
    decreases items.len(),
{
    if index < items.len() - 1 {
        lemma_failure_is_total(items.drop_last(), index);
    }
}

/// A page that has entries, none of which is refused, is not refused, and
/// it yields no more audiobooks than it has entries.
pub proof fn lemma_complete_page_succeeds(items: Seq<ItemView>)
    requires
        items.len() > 0,
        forall|i: int| 0 <= i < items.len() ==> !item_fails(#[trigger] items[i]),
    ensures
        records_of(items) matches Ok(books) && books.len() <= items.len(),
{
    lemma_complete_entries_succeed(items);
}

proof fn lemma_complete_entries_succeed(items: Seq<ItemView>)
    requires
        forall|i: int| 0 <= i < items.len() ==> !item_fails(#[trigger] items[i]),
    ensures
        records_until(items) matches Ok(books) && books.len() <= items.len(),
    decreases items.len(),
{
    if items.len() > 0 {
        assert forall|i: int| 0 <= i < items.drop_last().len() implies !item_fails(
            #[trigger] items.drop_last()[i],
        ) by {
            assert(items.drop_last()[i] == items[i]);
        }
        lemma_complete_entries_succeed(items.drop_last());
        assert(!item_fails(items[items.len() - 1]));
    }
}

} // verus!
