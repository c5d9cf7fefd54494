//! Store admission, denormalization, and frontier selection.

use sitemade::store::Store;
use sitemade::frontier::select_next;
use sitemade::frontier::RECRAWL_INTERVAL_SECS;

#[test]
fn admit_domain_twice_is_idempotent() {
    let mut store = Store::new();
    let first = store.admit_domain(&"example.com".to_string(), 1);
    let second = store.admit_domain(&"example.com".to_string(), 99);
    assert_eq!(first, second);
    assert_eq!(store.domains.len(), 1);
    assert_eq!(store.domains[0].created_at, 1);
    assert_eq!(store.domains[0].reputation, None);
    assert!(store.domains[0].crawlable);
}

#[test]
fn distinct_hosts_get_distinct_domains() {
    let mut store = Store::new();
    let a = store.admit_domain(&"a.example".to_string(), 1);
    let b = store.admit_domain(&"b.example".to_string(), 1);
    assert_ne!(a, b);
    assert_eq!(store.domains.len(), 2);
}

#[test]
fn admit_page_twice_is_idempotent() {
    let mut store = Store::new();
    let did = store.admit_domain(&"example.com".to_string(), 1);
    let p1 = store.admit_page(&"https://example.com/a".to_string(), did, 2);
    let p2 = store.admit_page(&"https://example.com/a".to_string(), did, 50);
    assert_eq!(p1, p2);
    assert_eq!(store.pages.len(), 1);
    assert_eq!(store.pages[0].created_at, 2);
    assert_eq!(store.pages[0].last_scraped_at, 0);
}

#[test]
fn new_page_inherits_domain_reputation() {
    let mut store = Store::new();
    let did = store.admit_domain(&"example.com".to_string(), 1);
    store.set_domain_reputation(did, 314);
    let pid = store.admit_page(&"https://example.com/later".to_string(), did, 2);
    assert_eq!(store.pages[pid].reputation, Some(314));
}

#[test]
fn reputation_propagates_to_every_owned_page() {
    let mut store = Store::new();
    let did = store.admit_domain(&"example.com".to_string(), 1);
    let other = store.admit_domain(&"other.example".to_string(), 1);
    let p1 = store.admit_page(&"https://example.com/a".to_string(), did, 1);
    let p2 = store.admit_page(&"https://example.com/b".to_string(), did, 1);
    let p3 = store.admit_page(&"https://other.example/c".to_string(), other, 1);
    store.set_domain_reputation(did, 725);
    assert_eq!(store.domains[did].reputation, Some(725));
    assert_eq!(store.pages[p1].reputation, Some(725));
    assert_eq!(store.pages[p2].reputation, Some(725));
    assert_eq!(store.pages[p3].reputation, None);
}

#[test]
fn domain_language_set_is_insertion_ordered_and_deduplicated() {
    let mut store = Store::new();
    let did = store.admit_domain(&"example.com".to_string(), 1);
    store.add_domain_language(did, &"fr".to_string());
    store.add_domain_language(did, &"en".to_string());
    store.add_domain_language(did, &"fr".to_string());
    assert_eq!(store.domains[did].languages, vec!["fr".to_string(), "en".to_string()]);
}

#[test]
fn count_pages_counts_only_the_domain() {
    let mut store = Store::new();
    let did = store.admit_domain(&"example.com".to_string(), 1);
    let other = store.admit_domain(&"other.example".to_string(), 1);
    store.admit_page(&"https://example.com/a".to_string(), did, 1);
    store.admit_page(&"https://example.com/b".to_string(), did, 1);
    store.admit_page(&"https://other.example/c".to_string(), other, 1);
    assert_eq!(store.count_pages_of(did), 2);
    assert_eq!(store.count_pages_of(other), 1);
}

#[test]
fn select_next_on_empty_store_is_none() {
    let store = Store::new();
    assert_eq!(select_next(&store, 10 * RECRAWL_INTERVAL_SECS), None);
}

#[test]
fn select_next_skips_recently_scraped_pages() {
    let mut store = Store::new();
    let did = store.admit_domain(&"example.com".to_string(), 1);
    let pid = store.admit_page(&"https://example.com/a".to_string(), did, 1);
    let now = 5 * RECRAWL_INTERVAL_SECS;
    store.mark_page_visited(pid, now - RECRAWL_INTERVAL_SECS + 1);
    assert_eq!(select_next(&store, now), None);
    store.mark_page_visited(pid, now - RECRAWL_INTERVAL_SECS);
    assert_eq!(select_next(&store, now), Some(pid));
}

#[test]
fn select_next_picks_the_oldest_scraped_eligible_page() {
    let mut store = Store::new();
    let did = store.admit_domain(&"example.com".to_string(), 1);
    let a = store.admit_page(&"https://example.com/a".to_string(), did, 1);
    let b = store.admit_page(&"https://example.com/b".to_string(), did, 1);
    let c = store.admit_page(&"https://example.com/c".to_string(), did, 1);
    let now = 100 * RECRAWL_INTERVAL_SECS;
    store.mark_page_visited(a, 30);
    store.mark_page_visited(b, 10);
    store.mark_page_visited(c, 20);
    assert_eq!(select_next(&store, now), Some(b));
}

#[test]
fn select_next_skips_failed_pages() {
    let mut store = Store::new();
    let did = store.admit_domain(&"example.com".to_string(), 1);
    let a = store.admit_page(&"https://example.com/a".to_string(), did, 1);
    let b = store.admit_page(&"https://example.com/b".to_string(), did, 1);
    let now = 100 * RECRAWL_INTERVAL_SECS;
    store.mark_page_failed(a, 5);
    assert!(!store.pages[a].crawlable);
    assert_eq!(select_next(&store, now), Some(b));
    store.mark_page_failed(b, 6);
    assert_eq!(select_next(&store, now), None);
}

#[test]
fn never_scraped_pages_are_eligible_once_time_has_aged() {
    let mut store = Store::new();
    let did = store.admit_domain(&"example.com".to_string(), 1);
    let pid = store.admit_page(&"https://example.com/a".to_string(), did, 1);
    assert_eq!(store.pages[pid].last_scraped_at, 0);
    assert_eq!(select_next(&store, RECRAWL_INTERVAL_SECS), Some(pid));
    assert_eq!(select_next(&store, RECRAWL_INTERVAL_SECS - 1), None);
}
