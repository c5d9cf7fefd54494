//! Fingerprinting behaviour: rule kinds, deduplication, idempotence.

use sitemade::rules::ConfigError;
use sitemade::rules::RawRule;
use sitemade::rules::RuleKind;
use sitemade::rules::RuleSet;
use sitemade::matcher::match_body;
use sitemade::matcher::match_headers;

fn raw(kind: &str, category: &str, name: &str, patterns: Vec<&str>) -> RawRule {
    RawRule {
        kind: kind.to_string(),
        category: category.to_string(),
        name: name.to_string(),
        patterns: patterns.into_iter().map(|p| p.to_string()).collect(),
        parents: Vec::new(),
    }
}

fn load(rules: Vec<RawRule>) -> RuleSet {
    RuleSet::load(&rules).expect("rule set loads")
}

#[test]
fn literal_rule_matches_body() {
    let rs = load(vec![raw("String", "cms", "WordPress", vec!["wp-content"])]);
    let found = match_body(&rs, &"<a href=/wp-content/x.css>".to_string());
    assert_eq!(found.len(), 1);
    assert_eq!(found[0].ttype, "cms");
    assert_eq!(found[0].name, "WordPress");
}

#[test]
fn literal_rule_is_case_sensitive() {
    let rs = load(vec![raw("String", "cms", "WordPress", vec!["WP-Content"])]);
    let found = match_body(&rs, &"<a href=/wp-content/x.css>".to_string());
    assert_eq!(found.len(), 0);
}

#[test]
fn regex_rule_matches_body() {
    let rs = load(vec![raw("StringRegex", "server", "nginx", vec!["nginx/[0-9]+"])]);
    let found = match_body(&rs, &"powered by nginx/1 today".to_string());
    assert_eq!(found.len(), 1);
    assert_eq!(found[0].ttype, "server");
    assert_eq!(found[0].name, "nginx");
}

#[test]
fn regex_rule_searches_not_just_substring() {
    // the pattern itself never occurs literally; only its regex reading hits
    let rs = load(vec![raw("StringRegex", "server", "nginx", vec!["nginx/[0-9]+"])]);
    let miss = match_body(&rs, &"nginx without version".to_string());
    assert_eq!(miss.len(), 0);
}

#[test]
fn several_patterns_of_one_rule_yield_one_record() {
    let rs = load(vec![raw("String", "cms", "WordPress", vec!["wp-content", "wp-includes"])]);
    let found = match_body(&rs, &"wp-content and wp-includes both here".to_string());
    assert_eq!(found.len(), 1);
}

#[test]
fn same_pair_from_two_rules_appears_once() {
    let rs = load(vec![
        raw("String", "cms", "WordPress", vec!["wp-content"]),
        raw("StringRegex", "cms", "WordPress", vec!["wp-includes"]),
    ]);
    let found = match_body(&rs, &"wp-content wp-includes".to_string());
    assert_eq!(found.len(), 1);
    assert_eq!(found[0].ttype, "cms");
    assert_eq!(found[0].name, "WordPress");
}

#[test]
fn matching_twice_yields_the_same_records() {
    let rs = load(vec![
        raw("String", "cms", "WordPress", vec!["wp-content"]),
        raw("StringRegex", "server", "nginx", vec!["nginx/[0-9]+"]),
        raw("String", "js", "jQuery", vec!["jquery.js"]),
    ]);
    let body = "wp-content nginx/1 jquery.js".to_string();
    let once = match_body(&rs, &body);
    let twice = match_body(&rs, &body);
    assert_eq!(once.len(), twice.len());
    for (a, b) in once.iter().zip(twice.iter()) {
        assert_eq!(a.ttype, b.ttype);
        assert_eq!(a.name, b.name);
    }
}

#[test]
fn result_order_is_first_match_order() {
    let rs = load(vec![
        raw("String", "js", "jQuery", vec!["jquery.js"]),
        raw("String", "cms", "WordPress", vec!["wp-content"]),
    ]);
    let found = match_body(&rs, &"wp-content then jquery.js".to_string());
    assert_eq!(found.len(), 2);
    assert_eq!(found[0].name, "jQuery");
    assert_eq!(found[1].name, "WordPress");
}

#[test]
fn unknown_kind_is_skipped_without_failing() {
    let rs = load(vec![
        raw("SomethingElse", "cms", "Mystery", vec!["wp-content"]),
        raw("String", "cms", "WordPress", vec!["wp-content"]),
    ]);
    assert_eq!(rs.rules[0].kind, RuleKind::Unknown);
    let found = match_body(&rs, &"wp-content".to_string());
    assert_eq!(found.len(), 1);
    assert_eq!(found[0].name, "WordPress");
}

#[test]
fn headers_are_matched_by_value_not_name() {
    let rs = load(vec![raw("String", "server", "nginx", vec!["nginx"])]);
    let headers = vec![
        ("nginx".to_string(), "something".to_string()),
        ("server".to_string(), "nginx/1.2".to_string()),
    ];
    let found = match_headers(&rs, &headers);
    assert_eq!(found.len(), 1);
    assert_eq!(found[0].name, "nginx");

    let name_only = vec![("nginx".to_string(), "other".to_string())];
    assert_eq!(match_headers(&rs, &name_only).len(), 0);
}

#[test]
fn load_refuses_a_bad_regex_pattern() {
    let err = RuleSet::load(&vec![raw("StringRegex", "server", "broken", vec!["("])]);
    assert_eq!(err.unwrap_err(), ConfigError::InvalidPattern);
}

#[test]
fn load_accepts_a_bad_pattern_under_a_literal_kind() {
    // a literal rule's patterns are not regular expressions
    let rs = load(vec![raw("String", "server", "paren", vec!["("])]);
    let found = match_body(&rs, &"with ( inside".to_string());
    assert_eq!(found.len(), 1);
}

#[test]
fn load_decides_kinds_once() {
    let rs = load(vec![
        raw("String", "a", "x", vec!["p"]),
        raw("StringRegex", "b", "y", vec!["q"]),
        raw("other", "c", "z", vec!["r"]),
    ]);
    assert_eq!(rs.rules[0].kind, RuleKind::Literal);
    assert_eq!(rs.rules[1].kind, RuleKind::Regex);
    assert_eq!(rs.rules[2].kind, RuleKind::Unknown);
}

#[test]
fn empty_pattern_matches_everything_literal() {
    let rs = load(vec![raw("String", "a", "empty", vec![""])]);
    let found = match_body(&rs, &"anything".to_string());
    assert_eq!(found.len(), 1);
}
