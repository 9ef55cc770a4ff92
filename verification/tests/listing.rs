use audible_scrapper::listing::{extract_records, Item, SampleAudio};
use audible_scrapper::pagination::{nav_target, page_index, NavControl};
use audible_scrapper::{AudioBook, Date, ExtractError, Field, Url, UrlBuildError};

fn sample(address: &str) -> SampleAudio {
    SampleAudio::At(Url::parse(address).unwrap())
}

fn complete(title: &str) -> Item {
    Item {
        sample: sample("https://samples.audible.com/a.mp3"),
        title: Some(title.to_string()),
        narrator: Some("Ana".to_string()),
        language: Some("English".to_string()),
        release_date: Some(Ok(Date::from_ymd(2021, 5, 12).unwrap())),
    }
}

fn silent() -> Item {
    Item { sample: SampleAudio::Absent, title: None, narrator: None, language: None, release_date: None }
}

fn error_of(items: Vec<Item>) -> Option<ExtractError> {
    extract_records(&items).err()
}

#[test]
fn no_entries_give_no_items_found() {
    assert_eq!(error_of(vec![]), Some(ExtractError::NoItemsFound));
}

#[test]
fn complete_entries_become_audiobooks_in_order() {
    let books = extract_records(&vec![complete("A"), silent(), complete("B")]).unwrap();
    assert_eq!(books.len(), 2);
    assert_eq!(books[0].title(), "A");
    assert_eq!(books[1].title(), "B");
    assert_eq!(books[0].narrator(), "Ana");
    assert_eq!(books[0].language(), "English");
    assert_eq!(books[0].release_date(), Date::from_ymd(2021, 5, 12));
    assert_eq!(books[0].sample_url().as_str(), "https://samples.audible.com/a.mp3");
}

#[test]
fn entries_without_sample_are_passed_over_whatever_they_lack() {
    let books = extract_records(&vec![silent(), silent()]).unwrap();
    assert!(books.is_empty());
    let odd = Item { release_date: Some(Err(ExtractError::DateNotFound)), ..silent() };
    assert!(extract_records(&vec![odd]).unwrap().is_empty());
}

#[test]
fn release_date_may_be_missing() {
    let undated = Item { release_date: None, ..complete("A") };
    let books = extract_records(&vec![undated]).unwrap();
    assert_eq!(books[0].release_date(), None);
}

#[test]
fn missing_narrator_fails_the_whole_page() {
    let broken = Item { narrator: None, ..complete("B") };
    let outcome = extract_records(&vec![complete("A"), broken, complete("C")]);
    assert_eq!(outcome.err(), Some(ExtractError::FieldMissing(Field::Narrator)));
}

#[test]
fn each_missing_field_is_named() {
    assert_eq!(
        error_of(vec![Item { sample: SampleAudio::Unaddressed, ..complete("A") }]),
        Some(ExtractError::FieldMissing(Field::SampleUrl))
    );
    assert_eq!(
        error_of(vec![Item { title: None, ..complete("A") }]),
        Some(ExtractError::FieldMissing(Field::Title))
    );
    assert_eq!(
        error_of(vec![Item { narrator: None, ..complete("A") }]),
        Some(ExtractError::FieldMissing(Field::Narrator))
    );
    assert_eq!(
        error_of(vec![Item { language: None, ..complete("A") }]),
        Some(ExtractError::FieldMissing(Field::Language))
    );
}

#[test]
fn malformed_sample_address_fails_the_page() {
    assert_eq!(
        error_of(vec![Item { sample: SampleAudio::Malformed, ..complete("A") }]),
        Some(ExtractError::InvalidSampleUrl)
    );
}

#[test]
fn unreadable_release_date_fails_the_page() {
    assert_eq!(
        error_of(vec![Item { release_date: Some(Err(ExtractError::DateNotFound)), ..complete("A") }]),
        Some(ExtractError::DateNotFound)
    );
    assert_eq!(
        error_of(vec![Item { release_date: Some(Err(ExtractError::DateParseError)), ..complete("A") }]),
        Some(ExtractError::DateParseError)
    );
}

#[test]
fn fields_are_checked_in_their_order() {
    let nothing = Item {
        sample: sample("https://samples.audible.com/a.mp3"),
        title: None,
        narrator: None,
        language: None,
        release_date: Some(Err(ExtractError::DateNotFound)),
    };
    assert_eq!(error_of(vec![nothing]), Some(ExtractError::FieldMissing(Field::Title)));
    let no_voice = Item { narrator: None, language: None, ..complete("A") };
    assert_eq!(error_of(vec![no_voice]), Some(ExtractError::FieldMissing(Field::Narrator)));
    let no_language = Item { language: None, release_date: Some(Err(ExtractError::DateParseError)), ..complete("A") };
    assert_eq!(error_of(vec![no_language]), Some(ExtractError::FieldMissing(Field::Language)));
    let malformed = Item { sample: SampleAudio::Malformed, title: None, ..complete("A") };
    assert_eq!(error_of(vec![malformed]), Some(ExtractError::InvalidSampleUrl));
}

#[test]
fn the_first_failing_entry_is_reported() {
    let first = Item { language: None, ..complete("A") };
    let second = Item { title: None, ..complete("B") };
    assert_eq!(error_of(vec![silent(), first, second]), Some(ExtractError::FieldMissing(Field::Language)));
}

#[test]
fn field_names_are_those_of_a_serialized_entry() {
    assert_eq!(Field::Title.name(), "title");
    assert_eq!(Field::Narrator.name(), "narrator");
    assert_eq!(Field::Language.name(), "language");
    assert_eq!(Field::SampleUrl.name(), "sampleUrl");
}

#[test]
fn audiobook_keeps_what_it_was_made_of() {
    let book = AudioBook::new(
        String::from("The Rust Programming Language"),
        String::from("Steve Klabnik"),
        String::from("English"),
        Date::from_ymd(2019, 5, 15),
        Url::parse("https://example.com/sample").unwrap(),
    );
    assert_eq!(book.title(), "The Rust Programming Language");
    assert_eq!(book.narrator(), "Steve Klabnik");
    assert_eq!(book.language(), "English");
    assert_eq!(book.release_date(), Date::from_ymd(2019, 5, 15));
    assert_eq!(book.sample_url().as_str(), "https://example.com/sample");
    let copy = book.clone();
    assert_eq!(copy.title(), book.title());
    assert_eq!(copy.sample_url(), book.sample_url());
}

#[test]
fn page_index_defaults_to_one() {
    assert_eq!(page_index(&vec![]), 1);
    assert_eq!(page_index(&vec![None, Some("x".to_string()), Some(String::new())]), 1);
}

#[test]
fn page_index_is_the_first_number() {
    assert_eq!(page_index(&vec![Some("3".to_string())]), 3);
    assert_eq!(page_index(&vec![None, Some(" 2".to_string()), Some("+4".to_string()), Some("5".to_string())]), 4);
    assert_eq!(page_index(&vec![Some("4294967296".to_string()), Some("0".to_string())]), 0);
}

#[test]
fn nav_target_follows_an_enabled_link() {
    let base = Url::parse("https://example.com/search?page=1").unwrap();
    let link = Some(NavControl { disabled: false, href: Some("?page=2".to_string()) });
    assert_eq!(nav_target(&base, &link).unwrap().as_str(), "https://example.com/search?page=2");
    let link = Some(NavControl { disabled: false, href: Some("/other/list".to_string()) });
    assert_eq!(nav_target(&base, &link).unwrap().as_str(), "https://example.com/other/list");
}

#[test]
fn nav_target_is_none_without_a_usable_link() {
    let base = Url::parse("https://example.com/search?page=1").unwrap();
    assert_eq!(nav_target(&base, &None), None);
    let link = Some(NavControl { disabled: true, href: Some("?page=2".to_string()) });
    assert_eq!(nav_target(&base, &link), None);
    let link = Some(NavControl { disabled: false, href: None });
    assert_eq!(nav_target(&base, &link), None);
    let link = Some(NavControl { disabled: false, href: Some("https://[bad".to_string()) });
    assert_eq!(nav_target(&base, &link), None);
}

#[test]
fn urls_are_kept_as_the_url_crate_writes_them() {
    assert_eq!(Url::parse("HTTPS://Example.COM").unwrap().as_str(), "https://example.com/");
    assert_eq!(Url::parse("https://example.com/a b").unwrap().as_str(), "https://example.com/a%20b");
    assert_eq!(Url::parse("/relative"), None);
    assert_eq!(Url::parse(""), None);
    let base = Url::parse("https://example.com/a/b?x=1").unwrap();
    assert_eq!(base.join("../c").unwrap().as_str(), "https://example.com/c");
    assert_eq!(base.join("").unwrap().as_str(), "https://example.com/a/b?x=1");
}

#[test]
fn failures_say_what_went_wrong() {
    assert_eq!(ExtractError::NoItemsFound.message(), "No items found");
    assert_eq!(ExtractError::FieldMissing(Field::Title).message(), "Title not found");
    assert_eq!(ExtractError::FieldMissing(Field::Narrator).message(), "Narrator not found");
    assert_eq!(ExtractError::FieldMissing(Field::Language).message(), "Language not found");
    assert_eq!(ExtractError::FieldMissing(Field::SampleUrl).message(), "Unexpected missing data-mp3");
    assert_eq!(ExtractError::InvalidSampleUrl.message(), "Invalid sample URL");
    assert_eq!(ExtractError::DateNotFound.message(), "Date not found");
    assert_eq!(ExtractError::DateParseError.message(), "Invalid date");
    assert_eq!(ExtractError::InvalidSelector.message(), "Invalid selector");
    assert_eq!(UrlBuildError::InvalidBaseUrl.message(), "Invalid base URL");
}

#[test]
fn ascii_white_space_is_the_space_and_tab_to_carriage_return() {
    for code in 0..128u32 {
        let c = char::from_u32(code).unwrap();
        assert_eq!(c.is_whitespace(), c == ' ' || ('\t'..='\r').contains(&c), "{:?}", c);
    }
}
