//! Language detection precedence, and document reading through a real
//! HTML parse.

use sitemade::language::DocumentInfo;
use sitemade::language::detect_language;
use sitemade::language::read_document;
use sitemade::language::document_links;
use sitemade::store::Store;
use sitemade::crawl::record_language;

fn info(
    meta_language: Option<&str>,
    og_locale: Option<&str>,
    content_language: Option<&str>,
    root_lang: Option<&str>,
) -> DocumentInfo {
    DocumentInfo {
        meta_language: meta_language.map(|s| s.to_string()),
        meta_og_locale: og_locale.map(|s| s.to_string()),
        meta_content_language: content_language.map(|s| s.to_string()),
        root_lang: root_lang.map(|s| s.to_string()),
    }
}

#[test]
fn root_lang_overrides_meta() {
    let d = info(None, Some("en-US"), None, Some("fr"));
    assert_eq!(detect_language(&d), Some("fr".to_string()));
}

#[test]
fn meta_alone_stands() {
    let d = info(None, Some("en-US"), None, None);
    assert_eq!(detect_language(&d), Some("en-US".to_string()));
}

#[test]
fn nothing_yields_nothing() {
    let d = info(None, None, None, None);
    assert_eq!(detect_language(&d), None);
}

#[test]
fn first_meta_wins_over_later_ones() {
    let d = info(Some("de"), Some("en-US"), Some("es"), None);
    assert_eq!(detect_language(&d), Some("de".to_string()));
    let d2 = info(None, Some("en-US"), Some("es"), None);
    assert_eq!(detect_language(&d2), Some("en-US".to_string()));
}

#[test]
fn agreeing_root_and_meta_change_nothing() {
    let d = info(None, Some("fr"), None, Some("fr"));
    assert_eq!(detect_language(&d), Some("fr".to_string()));
}

#[test]
fn no_detection_writes_nothing_to_the_store() {
    let mut store = Store::new();
    let did = store.admit_domain(&"example.com".to_string(), 1);
    let pid = store.admit_page(&"https://example.com/".to_string(), did, 1);
    let d = info(None, None, None, None);
    record_language(&mut store, pid, &d, 5);
    assert_eq!(store.pages[pid].language, None);
    assert!(store.domains[did].languages.is_empty());
    assert_eq!(store.pages[pid].updated_at, 1);
}

#[test]
fn detection_writes_page_and_domain() {
    let mut store = Store::new();
    let did = store.admit_domain(&"example.com".to_string(), 1);
    let pid = store.admit_page(&"https://example.com/".to_string(), did, 1);
    let d = info(None, Some("en-US"), None, Some("fr"));
    record_language(&mut store, pid, &d, 5);
    assert_eq!(store.pages[pid].language, Some("fr".to_string()));
    assert_eq!(store.domains[did].languages, vec!["fr".to_string()]);
    assert_eq!(store.pages[pid].updated_at, 5);
}

#[test]
fn read_document_finds_metas_and_root() {
    let html = "<html lang=\"fr\"><head><meta property=\"og:locale\" content=\"en-US\"><meta http-equiv=\"Content-Language\" content=\"en\"></head><body></body></html>".to_string();
    let d = read_document(&html);
    assert_eq!(d.meta_language, None);
    assert_eq!(d.meta_og_locale, Some("en-US".to_string()));
    assert_eq!(d.meta_content_language, Some("en".to_string()));
    assert_eq!(d.root_lang, Some("fr".to_string()));
    assert_eq!(detect_language(&d), Some("fr".to_string()));
}

#[test]
fn read_document_root_without_lang_leaves_meta_standing() {
    let html = "<html><head><meta name=\"language\" content=\"es\"></head><body></body></html>".to_string();
    let d = read_document(&html);
    assert_eq!(d.meta_language, Some("es".to_string()));
    assert_eq!(d.root_lang, None);
    assert_eq!(detect_language(&d), Some("es".to_string()));
}

#[test]
fn document_links_collects_hrefs_in_order() {
    let html = "<html><body><a href=\"https://one.example/a\">one</a><a>no href</a><a href=\"https://two.example/b\">two</a></body></html>".to_string();
    let links = document_links(&html);
    assert_eq!(
        links,
        vec!["https://one.example/a".to_string(), "https://two.example/b".to_string()]
    );
}
