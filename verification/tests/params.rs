use audible_scrapper::form::{append_encoded, append_pair};
use audible_scrapper::{QueryParams, Url};

fn query_of(url: &Url) -> Vec<(String, String)> {
    let parsed = url::Url::parse(url.as_str()).unwrap();
    parsed.query_pairs().map(|(name, value)| (name.into_owned(), value.into_owned())).collect()
}

fn pair(name: &str, value: &str) -> (String, String) {
    (name.to_string(), value.to_string())
}

fn built_by_the_url_crate(narrator: Option<&str>, sort: &str, page_size: u32, page: u32) -> String {
    let mut url = url::Url::parse("https://www.audible.es/search?").unwrap();
    if let Some(narrator) = narrator {
        url.query_pairs_mut().append_pair("searchNarrator", narrator);
    }
    url.query_pairs_mut()
        .append_pair("sort", sort)
        .append_pair("pageSize", &page_size.to_string())
        .append_pair("page", &page.to_string());
    url.as_str().to_string()
}

#[test]
fn default_query_builds_the_default_url() {
    let url = QueryParams::new().build_url().unwrap();
    assert_eq!(
        url.as_str(),
        "https://www.audible.es/search?sort=title-asc-rank&pageSize=50&page=1"
    );
}

#[test]
fn narrator_comes_first_in_the_query() {
    let url = QueryParams::new().narrator("Jordi Salas").build_url().unwrap();
    assert_eq!(
        url.as_str(),
        "https://www.audible.es/search?searchNarrator=Jordi+Salas&sort=title-asc-rank&pageSize=50&page=1"
    );
}

#[test]
fn keywords_are_not_part_of_the_url() {
    let with = QueryParams::new().keywords("novela negra").build_url().unwrap();
    let without = QueryParams::new().build_url().unwrap();
    assert_eq!(with, without);
}

#[test]
fn builders_set_one_criterion_each() {
    let url = QueryParams::new()
        .sort("pubdate-desc-rank")
        .page_size(20)
        .page(7)
        .narrator("Ana")
        .build_url()
        .unwrap();
    assert_eq!(
        url.as_str(),
        "https://www.audible.es/search?searchNarrator=Ana&sort=pubdate-desc-rank&pageSize=20&page=7"
    );
}

#[test]
fn later_builder_calls_replace_earlier_ones() {
    let url = QueryParams::new().page(2).page(3).narrator("a").narrator("b").build_url().unwrap();
    assert_eq!(
        url.as_str(),
        "https://www.audible.es/search?searchNarrator=b&sort=title-asc-rank&pageSize=50&page=3"
    );
}

#[test]
fn built_url_is_the_same_every_time() {
    let query = QueryParams::new().narrator("José Ángel").page(4);
    assert_eq!(query.build_url().unwrap(), query.build_url().unwrap());
    assert_eq!(query.clone().build_url().unwrap(), query.build_url().unwrap());
}

#[test]
fn query_parameters_round_trip() {
    let narrators = ["Jordi Salas", "José Ángel & Cía = 100% \"voz\"", "", "a+b c/d?e#f", "日本語 😀", "~*-._"];
    let sorts = ["title-asc-rank", "pubdate desc", "ñ&="];
    for narrator in narrators {
        for sort in sorts {
            for (page_size, page) in [(50, 1), (1, 4294967295), (4294967295, 10), (20, 999)] {
                let query = QueryParams::new().narrator(narrator).sort(sort).page_size(page_size).page(page);
                let url = query.build_url().unwrap();
                assert_eq!(
                    query_of(&url),
                    vec![
                        pair("searchNarrator", narrator),
                        pair("sort", sort),
                        pair("pageSize", &page_size.to_string()),
                        pair("page", &page.to_string()),
                    ]
                );
            }
        }
    }
}

#[test]
fn query_without_narrator_round_trips() {
    let url = QueryParams::new().page(12).build_url().unwrap();
    assert_eq!(
        query_of(&url),
        vec![pair("sort", "title-asc-rank"), pair("pageSize", "50"), pair("page", "12")]
    );
}

#[test]
fn built_url_is_what_the_url_crate_builds() {
    let narrators = [None, Some("Jordi Salas"), Some("José Ángel & Cía = 100% \"voz\""), Some(""), Some("日本語 😀 \u{7f}\t\n")];
    for narrator in narrators {
        for sort in ["title-asc-rank", "a b+c%d", ""] {
            let mut query = QueryParams::new().sort(sort).page_size(25).page(3);
            if let Some(narrator) = narrator {
                query = query.narrator(narrator);
            }
            assert_eq!(
                query.build_url().unwrap().as_str(),
                built_by_the_url_crate(narrator, sort, 25, 3)
            );
        }
    }
}

#[test]
fn every_byte_is_written_as_the_url_crate_writes_it() {
    for byte in 0..=255u8 {
        let mut out = Vec::new();
        append_encoded(&mut out, &[byte]);
        let expected: String = url::form_urlencoded::byte_serialize(&[byte]).collect();
        assert_eq!(String::from_utf8(out).unwrap(), expected);
    }
}

#[test]
fn bytes_are_written_in_their_notation() {
    let mut out = Vec::new();
    append_encoded(&mut out, "a b*-._Z9/é".as_bytes());
    assert_eq!(String::from_utf8(out).unwrap(), "a+b*-._Z9%2F%C3%A9");
    let mut out = b"x".to_vec();
    append_encoded(&mut out, b"");
    assert_eq!(out, b"x".to_vec());
}

#[test]
fn pairs_are_joined_by_ampersands() {
    let mut out = Vec::new();
    append_pair(&mut out, b"a", b"1 2");
    assert_eq!(String::from_utf8(out.clone()).unwrap(), "a=1+2");
    append_pair(&mut out, b"b&", b"");
    assert_eq!(String::from_utf8(out.clone()).unwrap(), "a=1+2&b%26=");
    append_pair(&mut out, b"", b"=");
    assert_eq!(String::from_utf8(out).unwrap(), "a=1+2&b%26=&=%3D");
}
