//! Technology fingerprinting: evaluating a rule set against a corpus.
//!
//! A corpus is a sequence of units — the whole page body as one unit, or
//! every response-header value as its own unit. A rule contributes its
//! `(category, name)` record at most once, however many of its patterns
//! or corpus units match; matching is case-sensitive and the result order
//! is the order of first match.

use vstd::prelude::*;
use crate::DatabaseWebTechnology;
use crate::WebTechnologyV;
use crate::techs_view;
use crate::rules::DetectionRule;
use crate::rules::RuleKind;
use crate::rules::RuleSet;
use crate::rules::RuleV;
use crate::strutil::is_substring_of;
use crate::strutil::contains_sub;
use crate::outside::regex_found;
use crate::outside::regex_find;

verus! {

/// Whether one pattern of a rule of the given kind hits one corpus unit.
/// A literal pattern is tested by substring containment, a
/// regular-expression pattern by unanchored search; an unknown kind never
/// hits.
pub open spec fn unit_hit(kind: RuleKind, pat: Seq<char>, unit: Seq<char>) -> bool {
    match kind {
        RuleKind::Literal => is_substring_of(pat, unit),
        RuleKind::Regex => regex_found(pat, unit),
        RuleKind::Unknown => false,
    }
}

/// Whether any pattern of the rule hits any unit of the corpus.
pub open spec fn rule_hit(r: RuleV, corpus: Seq<Seq<char>>) -> bool {
    exists|p: int, u: int|
        0 <= p < r.patterns.len() && 0 <= u < corpus.len() && unit_hit(
            r.kind,
            #[trigger] r.patterns[p],
            #[trigger] corpus[u],
        )
}

/// The record a rule contributes when it hits.
pub open spec fn rule_record(r: RuleV) -> WebTechnologyV {
    WebTechnologyV { category: r.category, name: r.name }
}

/// Whether the list already holds the record.
pub open spec fn holds_record(s: Seq<WebTechnologyV>, t: WebTechnologyV) -> bool {
    exists|i: int| 0 <= i < s.len() && s[i] == t
}

/// The records the rule list yields on the corpus: rules in order, each
/// contributing its record once, records already present not repeated.
pub open spec fn match_records(rules: Seq<RuleV>, corpus: Seq<Seq<char>>) -> Seq<WebTechnologyV>
    decreases rules.len(),
{
    if rules.len() == 0 {
        Seq::empty()
    } else {
        let prev = match_records(rules.drop_last(), corpus);
        let r = rules.last();
        if rule_hit(r, corpus) && !holds_record(prev, rule_record(r)) {
            prev.push(rule_record(r))
        } else {
            prev
        }
    }
}

/// Whether some pattern of `rule` hits some unit of `units`. The first
/// hit ends the scan of this rule.
fn rule_matches(rule: &DetectionRule, units: &Vec<String>) -> (b: bool)
    ensures
        b == rule_hit(rule@, units.deep_view()),
{
    if matches!(rule.kind, RuleKind::Unknown) {
        return false;
    }
    let mut p: usize = 0;
    while p < rule.patterns.len()
        invariant
            p <= rule@.patterns.len(),
            !(rule@.kind is Unknown),
            forall|a: int, b: int|
                0 <= a < p && 0 <= b < units.deep_view().len() ==> !unit_hit(
                    rule@.kind,
                    #[trigger] rule@.patterns[a],
                    #[trigger] units.deep_view()[b],
                ),
        decreases rule@.patterns.len() - p,
    {
        let mut u: usize = 0;
        while u < units.len()
            invariant
                p < rule@.patterns.len(),
                u <= units.deep_view().len(),
                units.deep_view().len() == units@.len(),
                !(rule@.kind is Unknown),
                forall|b: int|
                    0 <= b < u ==> !unit_hit(
                        rule@.kind,
                        rule@.patterns[p as int],
                        #[trigger] units.deep_view()[b],
                    ),
            decreases units@.len() - u,
        {
            proof {
                assert(units.deep_view()[u as int] == units@[u as int]@);
                assert(rule@.patterns[p as int] == rule.patterns@[p as int]@);
            }
            let hit: bool = if matches!(rule.kind, RuleKind::Literal) {
                contains_sub(units[u].as_str(), rule.patterns[p].as_str())
            } else {
                regex_find(rule.patterns[p].as_str(), units[u].as_str())
            };
            if hit {
                proof {
                    assert(unit_hit(
                        rule@.kind,
                        rule@.patterns[p as int],
                        units.deep_view()[u as int],
                    ));
                }
                return true;
            }
            u += 1;
        }
        p += 1;
    }
    false
}

/// Whether the list already holds the `(category, name)` record.
fn list_holds_record(list: &Vec<DatabaseWebTechnology>, category: &String, name: &String) -> (b:
    bool)
    ensures
        b == holds_record(
            techs_view(list@),
            WebTechnologyV { category: category@, name: name@ },
        ),
{
    let ghost t = WebTechnologyV { category: category@, name: name@ };
    let mut i: usize = 0;
    while i < list.len()
        invariant
            i <= list@.len(),
            t == (WebTechnologyV { category: category@, name: name@ }),
            forall|k: int| 0 <= k < i ==> #[trigger] techs_view(list@)[k] != t,
        decreases list@.len() - i,
    {
        if list[i].ttype == *category && list[i].name == *name {
            proof {
                assert(techs_view(list@)[i as int] =~= t);
            }
            return true;
        }
        proof {
            assert(techs_view(list@)[i as int] == list@[i as int]@);
        }
        i += 1;
    }
    false
}

/// Evaluates every rule of the set against the corpus `units`, handing
/// back the records in order of first match, each pair at most once.
pub fn match_units(rules: &RuleSet, units: &Vec<String>) -> (r: Vec<DatabaseWebTechnology>)
    ensures
        techs_view(r@) == match_records(rules@, units.deep_view()),
{
    let mut out: Vec<DatabaseWebTechnology> = Vec::new();
    let mut i: usize = 0;
    while i < rules.rules.len()
        invariant
            i <= rules.rules@.len(),
            rules@.len() == rules.rules@.len(),
            techs_view(out@) == match_records(rules@.subrange(0, i as int), units.deep_view()),
        decreases rules.rules@.len() - i,
    {
        let rule = &rules.rules[i];
        proof {
            assert(rules@[i as int] == rule@);
        }
        let ghost pre = techs_view(out@);
        let hit = rule_matches(rule, units);
        if hit {
            if !list_holds_record(&out, &rule.category, &rule.name) {
                let record = DatabaseWebTechnology {
                    ttype: rule.category.clone(),
                    name: rule.name.clone(),
                };
                proof {
                    assert(record@ =~= rule_record(rule@));
                }
                out.push(record);
                proof {
                    assert(techs_view(out@) =~= pre.push(rule_record(rule@)));
                }
            }
        }
        proof {
            let sub1 = rules@.subrange(0, i + 1);
            assert(sub1.drop_last() =~= rules@.subrange(0, i as int));
            assert(sub1.last() == rules@[i as int]);
            assert(techs_view(out@) == match_records(sub1, units.deep_view()));
        }
        i += 1;
    }
    proof {
        assert(rules@.subrange(0, rules@.len() as int) =~= rules@);
    }
    out
}

/// Fingerprints a page body: the corpus is the single unit `body`.
pub fn match_body(rules: &RuleSet, body: &String) -> (r: Vec<DatabaseWebTechnology>)
    ensures
        techs_view(r@) == match_records(rules@, seq![body@]),
{
    let mut units: Vec<String> = Vec::new();
    units.push(body.clone());
    proof {
        assert(units.deep_view() =~= seq![body@]);
    }
    match_units(rules, &units)
}

/// The searchable part of a header list: every value, in order; header
/// names are not searched.
pub open spec fn header_values(h: Seq<(String, String)>) -> Seq<Seq<char>> {
    h.map_values(|p: (String, String)| p.1@)
}

/// Fingerprints response headers: every header value is its own corpus
/// unit.
pub fn match_headers(rules: &RuleSet, headers: &Vec<(String, String)>) -> (r: Vec<
    DatabaseWebTechnology,
>)
    ensures
        techs_view(r@) == match_records(rules@, header_values(headers@)),
{
    let mut units: Vec<String> = Vec::new();
    let mut i: usize = 0;
    while i < headers.len()
        invariant
            i <= headers@.len(),
            units@.len() == i,
            units.deep_view() =~= header_values(headers@).subrange(0, i as int),
        decreases headers@.len() - i,
    {
        units.push(headers[i].1.clone());
        proof {
            assert(header_values(headers@).len() == headers@.len());
            assert(units.deep_view().len() == i + 1);
            assert(units.deep_view() =~= header_values(headers@).subrange(0, i + 1));
        }
        i += 1;
    }
    proof {
        assert(units.deep_view() =~= header_values(headers@));
    }
    match_units(rules, &units)
}

/// Law: the matcher is a function of rule set and corpus alone — running
/// it twice on the same inputs yields the same records, and so the same
/// set of records.
pub proof fn lemma_match_idempotent(
    rules: Seq<RuleV>,
    corpus: Seq<Seq<char>>,
    r1: Seq<WebTechnologyV>,
    r2: Seq<WebTechnologyV>,
)
    requires
        r1 == match_records(rules, corpus),
        r2 == match_records(rules, corpus),
    ensures
        r1 == r2,
        r1.to_set() == r2.to_set(),
{
}

/// Law: a `(category, name)` record stands at most once in the matcher's
/// output, even where several patterns, units or rules would contribute
/// it.
pub proof fn lemma_match_no_duplicates(rules: Seq<RuleV>, corpus: Seq<Seq<char>>)
    ensures
        forall|i: int, j: int|
            0 <= i < j < match_records(rules, corpus).len() ==> match_records(rules, corpus)[i]
                != match_records(rules, corpus)[j],
    decreases rules.len(),
{
    if rules.len() == 0 {
    } else {
        lemma_match_no_duplicates(rules.drop_last(), corpus);
        let prev = match_records(rules.drop_last(), corpus);
        let m = match_records(rules, corpus);
        let r = rules.last();
        assert forall|i: int, j: int| 0 <= i < j < m.len() implies m[i] != m[j] by {
            if rule_hit(r, corpus) && !holds_record(prev, rule_record(r)) {
                assert(m == prev.push(rule_record(r)));
                if j == prev.len() {
                    if m[i] == m[j] {
                        assert(prev[i] == rule_record(r));
                        assert(holds_record(prev, rule_record(r)));
                    }
                } else {
                    assert(m[i] == prev[i] && m[j] == prev[j]);
                }
            } else {
                assert(m == prev);
            }
        }
    }
}

} // verus!
