use audible_scrapper::{AudioBook, Date, ExtractError, Field, PageResult, Url};

fn entry(title: &str, sample: Option<&str>, narrator: Option<&str>, language: Option<&str>, released: Option<&str>) -> String {
    let mut html = format!("<li class=\"bc-list-item productListItem\" aria-label=\"{}\">", title);
    if let Some(sample) = sample {
        html.push_str(&format!("<button class=\"bc-button-text\" data-mp3=\"{}\">Muestra</button>", sample));
    }
    html.push_str("<ul class=\"bc-list\">");
    if let Some(narrator) = narrator {
        html.push_str(&format!(
            "<li class=\"bc-list-item narratorLabel\"><span class=\"bc-text\">Narrado por: <a href=\"/search?searchNarrator=x\">{}</a></span></li>",
            narrator
        ));
    }
    if let Some(language) = language {
        html.push_str(&format!(
            "<li class=\"bc-list-item languageLabel\"><span class=\"bc-text\">\n      {}\n    </span></li>",
            language
        ));
    }
    if let Some(released) = released {
        html.push_str(&format!(
            "<li class=\"bc-list-item releaseDateLabel\"><span class=\"bc-text\">{}</span></li>",
            released
        ));
    }
    html.push_str("</ul></li>");
    html
}

fn page(entries: &[String], paging: &str) -> String {
    format!(
        "<!DOCTYPE html><html><head><title>Resultados</title></head><body><ul class=\"results\">{}</ul><ul class=\"pagingElements\">{}</ul></body></html>",
        entries.concat(),
        paging
    )
}

fn first_entry() -> String {
    entry(
        "1793 (Spanish Edition)",
        Some("https://samples.audible.com/bk/rhsp/002067/bk_rhsp_002067_sample.mp3"),
        Some("Jordi Salas"),
        Some("Espa√±ol (Castellano)"),
        Some("Fecha de lanzamiento: 12-05-21"),
    )
}

fn second_entry() -> String {
    entry(
        "Tom &amp; Jerry",
        Some("https://samples.audible.com/bk/xx/000001/sample.mp3"),
        Some("Ana Pérez"),
        Some("English"),
        None,
    )
}

fn first_page() -> String {
    page(
        &[first_entry(), second_entry()],
        "<li class=\"bc-list-item previousButton\"><span class=\"bc-button bc-button-disabled\"><a aria-disabled=\"true\" href=\"/search?page=0\">Anterior</a></span></li>\
         <li class=\"bc-list-item\"><a href=\"/search?page=2\">2</a></li>\
         <li class=\"bc-list-item nextButton\"><span class=\"bc-button\"><a href=\"/search?page=2\">Siguiente</a></span></li>",
    )
}

fn last_page() -> String {
    page(
        &[first_entry()],
        "<li class=\"bc-list-item previousButton\"><span class=\"bc-button\"><a href=\"/search?page=2\">Anterior</a></span></li>\
         <li class=\"bc-list-item\"><span class=\"bc-text pageNumberElement\">3</span></li>\
         <li class=\"bc-list-item nextButton\"><span class=\"bc-button bc-button-disabled\"><a aria-disabled=\"true\" href=\"/search?page=4\">Siguiente</a></span></li>",
    )
}

fn titles(books: &[AudioBook]) -> Vec<String> {
    books.iter().map(|book| book.title().to_string()).collect()
}

#[test]
fn test_page_result_new() {
    let url = Url::parse("https://example.com").unwrap();
    let body = first_page();
    let page_result = PageResult::new(url.clone(), body);

    assert_eq!(page_result.page(), 1);
    assert_eq!(page_result.url(), &url);
    assert!(page_result.has_next());
    assert!(!page_result.has_prev());
}

#[test]
fn test_page_result_collect() {
    let url = Url::parse("https://example.com").unwrap();
    let body = first_page();
    let page_result = PageResult::new(url, body);

    let audiobooks = page_result.collect().unwrap();
    assert!(!audiobooks.is_empty());

    let first_audiobook = &audiobooks[0];
    assert_eq!(first_audiobook.title(), "1793 (Spanish Edition)");
    assert_eq!(first_audiobook.narrator(), "Jordi Salas");
    assert_eq!(first_audiobook.language(), "Espa√±ol (Castellano)");
    assert!(first_audiobook.release_date().is_some());
    assert_eq!(
        first_audiobook.sample_url().as_str(),
        "https://samples.audible.com/bk/rhsp/002067/bk_rhsp_002067_sample.mp3"
    );
}

#[test]
fn test_page_result_first() {
    let url = Url::parse("https://example.com").unwrap();
    let body = first_page();
    let page_result = PageResult::new(url, body);

    assert!(page_result.has_next());
    assert!(page_result.next_page_url().is_some());
    assert!(!page_result.has_prev());
    assert!(page_result.prev_page_url().is_none());
    assert_eq!(page_result.page(), 1);
}

#[test]
fn test_page_result_last() {
    let url = Url::parse("https://example.com").unwrap();
    let body = last_page();
    let page_result = PageResult::new(url, body);

    assert!(!page_result.has_next());
    assert!(page_result.next_page_url().is_none());
    assert!(page_result.has_prev());
    assert!(page_result.prev_page_url().is_some());
    assert_eq!(page_result.page(), 3);
}

#[test]
fn page_without_indicator_is_page_one() {
    let url = Url::parse("https://example.com/search?page=1").unwrap();
    let page_result = PageResult::new(url, page(&[first_entry()], ""));
    assert_eq!(page_result.page(), 1);
}

#[test]
fn page_with_unreadable_indicator_is_page_one() {
    let url = Url::parse("https://example.com/search").unwrap();
    let paging = "<li><span class=\"pageNumberElement\"> 7 </span></li>";
    assert_eq!(PageResult::new(url.clone(), page(&[], paging)).page(), 1);
    let paging = "<li><span class=\"pageNumberElement\"><b></b></span></li>";
    assert_eq!(PageResult::new(url, page(&[], paging)).page(), 1);
}

#[test]
fn page_number_is_the_first_indicator_that_is_a_number() {
    let url = Url::parse("https://example.com/search").unwrap();
    let paging = "<li><span class=\"pageNumberElement\">dos</span></li>\
                  <li><span class=\"pageNumberElement\">12</span></li>\
                  <li><span class=\"pageNumberElement\">13</span></li>";
    assert_eq!(PageResult::new(url, page(&[], paging)).page(), 12);
}

#[test]
fn missing_previous_control_means_no_previous_page() {
    let url = Url::parse("https://example.com/search?page=1").unwrap();
    let paging = "<li class=\"nextButton\"><a href=\"?page=2\">Siguiente</a></li>";
    let page_result = PageResult::new(url, page(&[first_entry()], paging));
    assert!(!page_result.has_prev());
    assert_eq!(page_result.prev_page_url(), None);
}

#[test]
fn next_link_is_resolved_against_the_page_address() {
    let url = Url::parse("https://example.com/search?page=1").unwrap();
    let paging = "<li class=\"nextButton\"><a href=\"?page=2\">Siguiente</a></li>";
    let page_result = PageResult::new(url, page(&[first_entry()], paging));
    assert!(page_result.has_next());
    assert_eq!(
        page_result.next_page_url().unwrap().as_str(),
        "https://example.com/search?page=2"
    );
}

#[test]
fn absolute_next_link_is_taken_as_it_is() {
    let url = Url::parse("https://example.com/search?page=1").unwrap();
    let paging = "<li class=\"nextButton\"><a href=\"https://other.example.org/list?page=2\">Siguiente</a></li>";
    let page_result = PageResult::new(url, page(&[], paging));
    assert_eq!(
        page_result.next_page_url().unwrap().as_str(),
        "https://other.example.org/list?page=2"
    );
}

#[test]
fn disabled_next_control_means_no_next_page() {
    let url = Url::parse("https://example.com/search?page=3").unwrap();
    let paging = "<li class=\"nextButton\"><a aria-disabled=\"false\" href=\"?page=4\">Siguiente</a></li>";
    let page_result = PageResult::new(url, page(&[], paging));
    assert!(!page_result.has_next());
    assert_eq!(page_result.next_page_url(), None);
}

#[test]
fn next_control_without_target_means_no_next_page() {
    let url = Url::parse("https://example.com/search?page=3").unwrap();
    let paging = "<li class=\"nextButton\"><a>Siguiente</a></li>";
    let page_result = PageResult::new(url, page(&[], paging));
    assert!(!page_result.has_next());
    assert_eq!(page_result.next_page_url(), None);
}

#[test]
fn unresolvable_next_link_means_no_next_page() {
    let url = Url::parse("https://example.com/search?page=3").unwrap();
    let paging = "<li class=\"nextButton\"><a href=\"https://[bad\">Siguiente</a></li>";
    let page_result = PageResult::new(url, page(&[], paging));
    assert!(!page_result.has_next());
    assert_eq!(page_result.next_page_url(), None);
}

#[test]
fn only_the_first_next_control_counts() {
    let url = Url::parse("https://example.com/search").unwrap();
    let paging = "<li class=\"nextButton\"><a aria-disabled=\"true\" href=\"?page=2\">a</a><a href=\"?page=9\">b</a></li>";
    let page_result = PageResult::new(url, page(&[], paging));
    assert!(!page_result.has_next());
}

#[test]
fn page_keeps_its_address() {
    let url = Url::parse("https://example.com/search?page=2").unwrap();
    let page_result = PageResult::new(url.clone(), last_page());
    assert_eq!(page_result.url().as_str(), "https://example.com/search?page=2");
    let copy = page_result.clone();
    assert_eq!(copy.url(), &url);
    assert_eq!(copy.page(), 3);
    assert_eq!(copy.has_prev(), true);
    assert_eq!(copy.prev_page_url().unwrap().as_str(), "https://example.com/search?page=2");
}

#[test]
fn collect_reads_every_entry_with_a_sample() {
    let url = Url::parse("https://example.com").unwrap();
    let page_result = PageResult::new(url, first_page());
    let books = page_result.collect().unwrap();
    assert_eq!(books.len(), 2);
    assert_eq!(titles(&books), vec!["1793 (Spanish Edition)".to_string(), "Tom & Jerry".to_string()]);
    assert_eq!(books[0].release_date(), Date::from_ymd(2021, 5, 12));
    assert_eq!(books[1].narrator(), "Ana Pérez");
    assert_eq!(books[1].language(), "English");
    assert_eq!(books[1].release_date(), None);
    assert_eq!(books[1].sample_url().as_str(), "https://samples.audible.com/bk/xx/000001/sample.mp3");
}

#[test]
fn collect_gives_the_same_answer_every_time() {
    let url = Url::parse("https://example.com").unwrap();
    let page_result = PageResult::new(url, first_page());
    let once = page_result.collect().unwrap();
    let twice = page_result.collect().unwrap();
    assert_eq!(titles(&once), titles(&twice));
    assert_eq!(once.len(), twice.len());
}

#[test]
fn collect_fails_on_a_page_without_entries() {
    let url = Url::parse("https://example.com").unwrap();
    let page_result = PageResult::new(url, page(&[], ""));
    assert_eq!(page_result.collect().err(), Some(ExtractError::NoItemsFound));
}

#[test]
fn collect_passes_over_entries_without_a_sample() {
    let url = Url::parse("https://example.com").unwrap();
    let silent = entry("Un libro de papel", None, None, None, None);
    let page_result = PageResult::new(url.clone(), page(&[silent.clone(), first_entry()], ""));
    let books = page_result.collect().unwrap();
    assert_eq!(titles(&books), vec!["1793 (Spanish Edition)".to_string()]);
    let page_result = PageResult::new(url, page(&[silent], ""));
    assert_eq!(page_result.collect().unwrap().len(), 0);
}

#[test]
fn collect_fails_when_the_narrator_is_missing() {
    let url = Url::parse("https://example.com").unwrap();
    let broken = entry("Sin voz", Some("https://samples.audible.com/s.mp3"), None, Some("English"), None);
    let page_result = PageResult::new(url, page(&[first_entry(), broken, second_entry()], ""));
    let outcome = page_result.collect();
    assert_eq!(outcome.err(), Some(ExtractError::FieldMissing(Field::Narrator)));
    assert_eq!(Field::Narrator.name(), "narrator");
}

#[test]
fn collect_fails_when_the_language_is_missing() {
    let url = Url::parse("https://example.com").unwrap();
    let broken = entry("Sin idioma", Some("https://samples.audible.com/s.mp3"), Some("Ana"), None, None);
    let page_result = PageResult::new(url, page(&[broken], ""));
    assert_eq!(page_result.collect().err(), Some(ExtractError::FieldMissing(Field::Language)));
}

#[test]
fn collect_fails_when_the_title_is_missing() {
    let url = Url::parse("https://example.com").unwrap();
    let broken = "<li class=\"productListItem\"><button data-mp3=\"https://samples.audible.com/s.mp3\"></button></li>".to_string();
    let page_result = PageResult::new(url, page(&[broken], ""));
    assert_eq!(page_result.collect().err(), Some(ExtractError::FieldMissing(Field::Title)));
}

#[test]
fn collect_fails_when_the_sample_address_is_no_url() {
    let url = Url::parse("https://example.com").unwrap();
    let broken = entry("Mal enlace", Some("/relative/sample.mp3"), Some("Ana"), Some("English"), None);
    let page_result = PageResult::new(url, page(&[broken], ""));
    assert_eq!(page_result.collect().err(), Some(ExtractError::InvalidSampleUrl));
}

#[test]
fn collect_fails_when_the_release_date_cannot_be_read() {
    let url = Url::parse("https://example.com").unwrap();
    let undated = entry("Sin fecha", Some("https://samples.audible.com/s.mp3"), Some("Ana"), Some("English"), Some("Pronto"));
    let page_result = PageResult::new(url.clone(), page(&[undated], ""));
    assert_eq!(page_result.collect().err(), Some(ExtractError::DateNotFound));
    let misdated = entry("Mala fecha", Some("https://samples.audible.com/s.mp3"), Some("Ana"), Some("English"), Some("31-02-21"));
    let page_result = PageResult::new(url, page(&[misdated], ""));
    assert_eq!(page_result.collect().err(), Some(ExtractError::DateParseError));
}

#[test]
fn collect_reports_the_first_entry_that_fails() {
    let url = Url::parse("https://example.com").unwrap();
    let no_language = entry("A", Some("https://samples.audible.com/a.mp3"), Some("Ana"), None, None);
    let no_narrator = entry("B", Some("https://samples.audible.com/b.mp3"), None, Some("English"), None);
    let page_result = PageResult::new(url, page(&[no_language, no_narrator], ""));
    assert_eq!(page_result.collect().err(), Some(ExtractError::FieldMissing(Field::Language)));
}

#[test]
fn narrator_is_the_markup_inside_the_link() {
    let url = Url::parse("https://example.com").unwrap();
    let one = entry("A", Some("https://samples.audible.com/a.mp3"), Some("Ana <b>Pérez</b> &amp; Cía"), Some("English"), None);
    let page_result = PageResult::new(url, page(&[one], ""));
    let books = page_result.collect().unwrap();
    assert_eq!(books[0].narrator(), "Ana <b>Pérez</b> &amp; Cía");
}

#[test]
fn title_has_its_character_references_decoded() {
    let url = Url::parse("https://example.com").unwrap();
    let one = entry("Caf&amp;eacute; &amp;#233; &amp;lt;b&amp;gt;", Some("https://samples.audible.com/a.mp3"), Some("Ana"), Some("English"), None);
    let page_result = PageResult::new(url, page(&[one], ""));
    let books = page_result.collect().unwrap();
    assert_eq!(books[0].title(), "Café é <b>");
}

#[test]
fn language_loses_the_white_space_around_it() {
    let url = Url::parse("https://example.com").unwrap();
    let padded = "\t\u{2003} Español \r\n(Castellano)\u{0b}\u{0c}\u{3000}";
    let one = entry("A", Some("https://samples.audible.com/a.mp3"), Some(" Ana "), Some(padded), None);
    let page_result = PageResult::new(url, page(&[one], ""));
    let books = page_result.collect().unwrap();
    assert_eq!(books[0].language(), "Español \n(Castellano)");
    assert_eq!(books[0].narrator(), " Ana ");
}
