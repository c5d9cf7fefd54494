//! Whole crawl cycles: enrichment outcomes, degradation, the loop policy.

use sitemade::crawl::CrawlStep;
use sitemade::crawl::ReputationOutcome;
use sitemade::crawl::ResolutionOutcome;
use sitemade::crawl::Scrapper;
use sitemade::crawl::complete_crawl;
use sitemade::crawl::next_action;
use sitemade::crawl::record_failure;
use sitemade::crawl::reputation_score;
use sitemade::language::DocumentInfo;
use sitemade::links::default_denied_hosts;
use sitemade::rules::RawRule;
use sitemade::rules::RuleSet;
use sitemade::store::Store;
use sitemade::frontier::RECRAWL_INTERVAL_SECS;

fn rule_set(kind: &str, category: &str, name: &str, pattern: &str) -> RuleSet {
    let raw = vec![RawRule {
        kind: kind.to_string(),
        category: category.to_string(),
        name: name.to_string(),
        patterns: vec![pattern.to_string()],
        parents: Vec::new(),
    }];
    RuleSet::load(&raw).expect("rule set loads")
}

fn empty_info() -> DocumentInfo {
    DocumentInfo {
        meta_language: None,
        meta_og_locale: None,
        meta_content_language: None,
        root_lang: Some("en".to_string()),
    }
}

#[test]
fn failed_reputation_lookup_degrades_to_neutral_zero() {
    assert_eq!(reputation_score(&ReputationOutcome::ErrorStatus), 0);
    assert_eq!(reputation_score(&ReputationOutcome::TransportFailed), 0);
    assert_eq!(reputation_score(&ReputationOutcome::Score(930)), 930);
}

#[test]
fn cycle_with_failing_reputation_service_still_visits_the_page() {
    let mut store = Store::new();
    let mut scrapper = Scrapper::new();
    let url = "https://example.com/landing".to_string();
    let now = 1000;
    let (did, pid, need) = scrapper.begin_crawl(&mut store, &url, now);
    assert!(need);

    let body_rules = rule_set("String", "cms", "WordPress", "wp-content");
    let header_rules = rule_set("String", "server", "nginx", "nginx");
    complete_crawl(
        &mut store,
        pid,
        did,
        &Some(ReputationOutcome::ErrorStatus),
        &ResolutionOutcome::Resolved(vec!["93.184.216.34".to_string()]),
        &"wp-content here".to_string(),
        &vec![("server".to_string(), "nginx/1.2".to_string())],
        &body_rules,
        &header_rules,
        &empty_info(),
        &vec![],
        &"example.com".to_string(),
        &default_denied_hosts(),
        now,
    );

    assert_eq!(store.domains[did].reputation, Some(0));
    assert_eq!(store.pages[pid].reputation, Some(0));
    assert_eq!(store.pages[pid].last_scraped_at, now);
    assert!(store.pages[pid].crawlable);
    assert_eq!(store.domains[did].ip, Some("93.184.216.34".to_string()));
}

#[test]
fn cycle_with_failed_resolution_still_fingerprints_and_detects() {
    let mut store = Store::new();
    let mut scrapper = Scrapper::new();
    let url = "https://example.com/landing".to_string();
    let now = 2000;
    let (did, pid, need) = scrapper.begin_crawl(&mut store, &url, now);
    assert!(need);

    let body_rules = rule_set("String", "cms", "WordPress", "wp-content");
    let header_rules = rule_set("String", "server", "nginx", "nginx");
    complete_crawl(
        &mut store,
        pid,
        did,
        &Some(ReputationOutcome::Score(512)),
        &ResolutionOutcome::Failed,
        &"wp-content here".to_string(),
        &vec![("server".to_string(), "nginx/1.2".to_string())],
        &body_rules,
        &header_rules,
        &empty_info(),
        &vec![],
        &"example.com".to_string(),
        &default_denied_hosts(),
        now,
    );

    assert_eq!(store.domains[did].ip, None);
    let techs = store.pages[pid].technologies.as_ref().expect("body fingerprint persisted");
    assert_eq!(techs.len(), 1);
    assert_eq!(techs[0].name, "WordPress");
    let headers = store.pages[pid].header_technologies.as_ref().expect("header fingerprint persisted");
    assert_eq!(headers.len(), 1);
    assert_eq!(headers[0].name, "nginx");
    assert_eq!(store.pages[pid].language, Some("en".to_string()));
    assert_eq!(store.domains[did].languages, vec!["en".to_string()]);
    assert_eq!(store.pages[pid].last_scraped_at, now);
}

#[test]
fn reputation_is_owed_at_most_once_per_domain() {
    let mut store = Store::new();
    let mut scrapper = Scrapper::new();
    let url = "https://example.com/landing".to_string();
    let (did, pid, need) = scrapper.begin_crawl(&mut store, &url, 10);
    assert!(need);
    complete_crawl(
        &mut store,
        pid,
        did,
        &Some(ReputationOutcome::Score(100)),
        &ResolutionOutcome::Failed,
        &"".to_string(),
        &vec![],
        &rule_set("String", "a", "x", "p"),
        &rule_set("String", "a", "x", "p"),
        &empty_info(),
        &vec![],
        &"example.com".to_string(),
        &default_denied_hosts(),
        10,
    );
    let (_, _, need_again) = scrapper.begin_crawl(&mut store, &url, 20);
    assert!(!need_again);
    let (_, _, need_other_page) = scrapper.begin_crawl(
        &mut store,
        &"https://example.com/other".to_string(),
        30,
    );
    assert!(!need_other_page);
}

#[test]
fn discovered_links_feed_the_frontier() {
    let mut store = Store::new();
    let mut scrapper = Scrapper::new();
    let url = "https://example.com/landing".to_string();
    let (did, pid, _) = scrapper.begin_crawl(&mut store, &url, 10);
    complete_crawl(
        &mut store,
        pid,
        did,
        &Some(ReputationOutcome::TransportFailed),
        &ResolutionOutcome::Failed,
        &"".to_string(),
        &vec![],
        &rule_set("String", "a", "x", "never-matches"),
        &rule_set("String", "a", "x", "never-matches"),
        &empty_info(),
        &vec![
            "https://example.com/self".to_string(),
            "https://facebook.com/page".to_string(),
            "https://elsewhere.org/found".to_string(),
        ],
        &"example.com".to_string(),
        &default_denied_hosts(),
        10,
    );
    assert_eq!(store.domains.len(), 2);
    assert_eq!(store.domains[1].host, "elsewhere.org");
    assert_eq!(store.pages.len(), 2);
    assert_eq!(store.pages[1].url, "https://elsewhere.org/found");
}

#[test]
fn begin_crawl_remembers_the_site() {
    let mut store = Store::new();
    let mut scrapper = Scrapper::new();
    assert_eq!(scrapper.site_url, "");
    assert_eq!(scrapper.site_domain, "");
    scrapper.begin_crawl(&mut store, &"https://www.example.com/x".to_string(), 1);
    assert_eq!(scrapper.site_url, "https://www.example.com/x");
    assert_eq!(scrapper.site_domain, "example.com");
}

#[test]
fn loop_stops_on_an_empty_frontier_and_crawls_an_eligible_page() {
    let mut store = Store::new();
    let now = 100 * RECRAWL_INTERVAL_SECS;
    assert_eq!(next_action(&store, now), CrawlStep::Stop);
    let did = store.admit_domain(&"example.com".to_string(), 1);
    let pid = store.admit_page(&"https://example.com/a".to_string(), did, 1);
    assert_eq!(next_action(&store, now), CrawlStep::Crawl(pid));
}

#[test]
fn failed_page_is_terminal_for_the_loop() {
    let mut store = Store::new();
    let now = 100 * RECRAWL_INTERVAL_SECS;
    let did = store.admit_domain(&"example.com".to_string(), 1);
    let pid = store.admit_page(&"https://example.com/a".to_string(), did, 1);
    record_failure(&mut store, pid, now);
    assert!(!store.pages[pid].crawlable);
    assert_eq!(store.pages[pid].updated_at, now);
    assert_eq!(next_action(&store, now), CrawlStep::Stop);
}
