use std::io::Write;

use tino::catalog::CatalogCache;
use tino::codec::build_request_body;
use tino::error::{classify_status, Error};
use tino::model::{languages_from_entries, Language, LanguageData};
use tino::payload::{encode_request_fields, ExecOpts};

fn data(name: &str, link: &str) -> LanguageData {
    LanguageData {
        name: name.to_string(),
        categories: vec!["practical".to_string()],
        encoding: "utf-8".to_string(),
        link: link.to_string(),
    }
}

#[test]
fn equal_identifiers_mean_equal_records() {
    let a = Language::new("python3", data("Python 3", "https://python.org"));
    let b = Language::new("python3", data("Snake", "https://example.net"));
    assert_eq!(a, b);
}

#[test]
fn different_identifiers_mean_different_records() {
    let a = Language::new("python3", data("Python 3", "https://python.org"));
    let b = Language::new("python2", data("Python 3", "https://python.org"));
    assert_ne!(a, b);
}

#[test]
fn record_answers_to_either_name() {
    let l = Language::new("python3", data("Python 3", "https://python.org"));
    assert!(l == *"python3");
    assert!(l == *"Python 3");
    assert!(!(l == *"python2"));
    assert!(!(l == *"utf-8"));
}

#[test]
fn language_new_keeps_every_field() {
    let l = Language::new("ada-gnat", data("Ada (GNAT)", "https://gnat"));
    assert_eq!(l.tio_name, "ada-gnat");
    assert_eq!(l.name, "Ada (GNAT)");
    assert_eq!(l.categories, vec!["practical".to_string()]);
    assert_eq!(l.encoding, "utf-8");
    assert_eq!(l.link, "https://gnat");
}

#[test]
fn entries_become_records_in_order() {
    let entries = vec![
        ("a".to_string(), data("A", "la")),
        ("b".to_string(), data("B", "lb")),
    ];
    let langs = languages_from_entries(entries);
    assert_eq!(langs.len(), 2);
    assert_eq!(langs[0].tio_name, "a");
    assert_eq!(langs[0].name, "A");
    assert_eq!(langs[1].tio_name, "b");
    assert_eq!(langs[1].link, "lb");
}

#[test]
fn cache_starts_empty_and_fills_once() {
    let mut cache = CatalogCache::new();
    assert!(cache.needs_fetch());
    assert!(cache.get().is_none());

    let fetched = vec![Language::new("python3", data("Python 3", "l"))];
    let applied = cache.apply_fetch(Ok(fetched));
    assert!(applied.is_ok());
    assert!(!cache.needs_fetch());
    let served = cache.get().unwrap();
    assert_eq!(served.len(), 1);
    assert_eq!(served[0].tio_name, "python3");
}

#[test]
fn failed_fetch_leaves_the_cache_empty() {
    let mut cache = CatalogCache::new();
    let outcome = cache.apply_fetch(Err(Error::RequestError("connection reset".to_string())));
    assert_eq!(outcome, Err(Error::RequestError("connection reset".to_string())));
    assert!(cache.needs_fetch());
    assert!(cache.get().is_none());
}

#[test]
fn non_success_status_maps_to_api_error() {
    let e = Error::from_status(404, Some("Not Found".to_string()));
    assert_eq!(
        e,
        Error::ApiError { status: 404, reason: Some("Not Found".to_string()) }
    );
    let unknown = Error::from_status(599, None);
    assert_eq!(unknown, Error::ApiError { status: 599, reason: None });
}

#[test]
fn only_2xx_statuses_count_as_success() {
    assert!(classify_status(200, None).is_ok());
    assert!(classify_status(299, Some("whatever".to_string())).is_ok());
    assert_eq!(
        classify_status(404, Some("Not Found".to_string())),
        Err(Error::ApiError { status: 404, reason: Some("Not Found".to_string()) })
    );
    assert_eq!(
        classify_status(301, None),
        Err(Error::ApiError { status: 301, reason: None })
    );
}

#[test]
fn request_body_is_deflate_of_the_fields() {
    let opts = ExecOpts {
        code: "print(42)".to_string(),
        lang: "python3".to_string(),
        ..ExecOpts::default()
    };
    let body = build_request_body(&opts);
    // The stripped stream is raw deflate data: inflating it must give back
    // exactly the encoded fields.
    let mut dec = flate2::write::DeflateDecoder::new(Vec::new());
    dec.write_all(&body).unwrap();
    let inflated = dec.finish().unwrap();
    assert_eq!(inflated, encode_request_fields(&opts));
}
