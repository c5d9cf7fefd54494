//! Detection rules: the named patterns a page is fingerprinted against.
//! A rule source is a plain list of records; `RuleSet::load` turns it into
//! a closed tagged form, refusing any regular-expression pattern that does
//! not compile.

use vstd::prelude::*;
use crate::outside::regex_ok;
use crate::outside::pattern_compiles;
use crate::strutil::str_eq;

verus! {

/// How a rule's patterns are tested against a corpus unit.
///
/// `Unknown` stands for a kind string this crate does not recognise: such
/// a rule is kept for traceability but never matches, so an unrecognised
/// configuration entry cannot fail a crawl.
#[derive(Debug, Clone, Copy, PartialEq, Eq, Structural)]
pub enum RuleKind {
    Literal,
    Regex,
    Unknown,
}

/// A detection rule as it stands in the configuration source: the kind
/// still a free string, nothing validated.
#[derive(Debug)]
pub struct RawRule {
    pub kind: String,
    pub category: String,
    pub name: String,
    pub patterns: Vec<String>,
    pub parents: Vec<String>,
}

/// The mathematical value of a raw rule.
#[verifier::ext_equal]
pub ghost struct RawRuleV {
    pub kind: Seq<char>,
    pub category: Seq<char>,
    pub name: Seq<char>,
    pub patterns: Seq<Seq<char>>,
    pub parents: Seq<Seq<char>>,
}

impl View for RawRule {
    type V = RawRuleV;

    open spec fn view(&self) -> RawRuleV {
        RawRuleV {
            kind: self.kind@,
            category: self.category@,
            name: self.name@,
            patterns: self.patterns.deep_view(),
            parents: self.parents.deep_view(),
        }
    }
}

/// The values of a list of raw rules.
pub open spec fn raws_view(s: Seq<RawRule>) -> Seq<RawRuleV> {
    s.map_values(|r: RawRule| r@)
}

/// A loaded detection rule: kind decided, patterns known to compile where
/// the kind asks for regular expressions. `parents` is lineage kept for
/// traceability only; it never affects matching.
#[derive(Debug)]
pub struct DetectionRule {
    pub kind: RuleKind,
    pub category: String,
    pub name: String,
    pub patterns: Vec<String>,
    pub parents: Vec<String>,
}

/// The mathematical value of a loaded detection rule.
#[verifier::ext_equal]
pub ghost struct RuleV {
    pub kind: RuleKind,
    pub category: Seq<char>,
    pub name: Seq<char>,
    pub patterns: Seq<Seq<char>>,
    pub parents: Seq<Seq<char>>,
}

impl View for DetectionRule {
    type V = RuleV;

    open spec fn view(&self) -> RuleV {
        RuleV {
            kind: self.kind,
            category: self.category@,
            name: self.name@,
            patterns: self.patterns.deep_view(),
            parents: self.parents.deep_view(),
        }
    }
}

/// Why a rule source was refused.
#[derive(Debug, Clone, Copy, PartialEq, Eq, Structural)]
pub enum ConfigError {
    /// The source could not be read as a list of rule records at all;
    /// reported by the reader that feeds `RuleSet::load`.
    MalformedSource,
    /// A rule of regular-expression kind holds a pattern that does not
    /// compile.
    InvalidPattern,
}

/// The kind a source kind string names.
pub open spec fn kind_of(s: Seq<char>) -> RuleKind {
    if s == "String"@ {
        RuleKind::Literal
    } else if s == "StringRegex"@ {
        RuleKind::Regex
    } else {
        RuleKind::Unknown
    }
}

/// The loaded form of one raw rule.
pub open spec fn translated_rule(r: RawRuleV) -> RuleV {
    RuleV {
        kind: kind_of(r.kind),
        category: r.category,
        name: r.name,
        patterns: r.patterns,
        parents: r.parents,
    }
}

/// Whether every pattern of every regular-expression rule compiles.
pub open spec fn all_patterns_ok(raws: Seq<RawRuleV>) -> bool {
    forall|i: int, j: int|
        0 <= i < raws.len() && kind_of(raws[i].kind) == RuleKind::Regex && 0 <= j
            < raws[i].patterns.len() ==> regex_ok(#[trigger] raws[i].patterns[j])
}

/// The values of a list of loaded rules.
pub open spec fn rules_view(s: Seq<DetectionRule>) -> Seq<RuleV> {
    s.map_values(|r: DetectionRule| r@)
}

/// The loaded form of a whole raw rule list.
pub open spec fn loaded_rules(raws: Seq<RawRuleV>) -> Seq<RuleV> {
    raws.map_values(|rv: RawRuleV| translated_rule(rv))
}

/// An immutable set of loaded detection rules.
#[derive(Debug)]
pub struct RuleSet {
    pub rules: Vec<DetectionRule>,
}

impl View for RuleSet {
    type V = Seq<RuleV>;

    open spec fn view(&self) -> Seq<RuleV> {
        rules_view(self.rules@)
    }
}

/// A copy of a list of strings.
fn clone_strings(v: &Vec<String>) -> (r: Vec<String>)
    ensures
        r@ == v@,
{
    let mut out: Vec<String> = Vec::new();
    let mut i: usize = 0;
    while i < v.len()
        invariant
            i <= v@.len(),
            out@ =~= v@.subrange(0, i as int),
        decreases v@.len() - i,
    {
        out.push(v[i].clone());
        i += 1;
    }
    proof {
        assert(out@ =~= v@);
    }
    out
}

/// The kind named by one raw rule's kind string.
fn read_kind(kind: &String) -> (k: RuleKind)
    ensures
        k == kind_of(kind@),
{
    if str_eq(kind.as_str(), "String") {
        RuleKind::Literal
    } else if str_eq(kind.as_str(), "StringRegex") {
        RuleKind::Regex
    } else {
        RuleKind::Unknown
    }
}

impl RuleSet {
    /// Loads a rule source. Fails with `ConfigError::InvalidPattern` if
    /// and only if some rule of regular-expression kind holds a pattern
    /// that does not compile; otherwise every record is kept, in order,
    /// with its kind decided once here.
    pub fn load(raw: &Vec<RawRule>) -> (r: Result<RuleSet, ConfigError>)
        ensures
            match r {
                Ok(rs) => all_patterns_ok(raws_view(raw@)) && rs@ == loaded_rules(raws_view(raw@)),
                Err(e) => e == ConfigError::InvalidPattern && !all_patterns_ok(raws_view(raw@)),
            },
    {
        let mut rules: Vec<DetectionRule> = Vec::new();
        let mut i: usize = 0;
        while i < raw.len()
            invariant
                i <= raw@.len(),
                rules_view(rules@) == loaded_rules(raws_view(raw@)).subrange(0, i as int),
                forall|a: int, b: int|
                    0 <= a < i && kind_of(raw@[a]@.kind) == RuleKind::Regex && 0 <= b
                        < raw@[a]@.patterns.len() ==> regex_ok(#[trigger] raw@[a]@.patterns[b]),
            decreases raw@.len() - i,
        {
            let rule = &raw[i];
            let kind = read_kind(&rule.kind);
            if matches!(kind, RuleKind::Regex) {
                let mut j: usize = 0;
                while j < rule.patterns.len()
                    invariant
                        j <= rule@.patterns.len(),
                        i < raw@.len(),
                        rule@ == raw@[i as int]@,
                        kind == RuleKind::Regex,
                        kind == kind_of(rule@.kind),
                        forall|b: int| 0 <= b < j ==> regex_ok(#[trigger] rule@.patterns[b]),
                    decreases rule@.patterns.len() - j,
                {
                    if !pattern_compiles(rule.patterns[j].as_str()) {
                        proof {
                            let rv = raws_view(raw@)[i as int];
                            assert(rv == raw@[i as int]@);
                            assert(rule@.patterns[j as int] == rule.patterns@[j as int]@);
                            assert(!regex_ok(rv.patterns[j as int]));
                        }
                        return Err(ConfigError::InvalidPattern);
                    }
                    j += 1;
                }
            }
            let loaded = DetectionRule {
                kind,
                category: rule.category.clone(),
                name: rule.name.clone(),
                patterns: clone_strings(&rule.patterns),
                parents: clone_strings(&rule.parents),
            };
            let ghost loadedv = loaded@;
            proof {
                assert(raws_view(raw@).len() == raw@.len());
                assert(loaded_rules(raws_view(raw@)).len() == raw@.len());
                assert(rules_view(rules@).len() == i);
                assert(rules@.len() == i);
                assert(raws_view(raw@)[i as int] == raw@[i as int]@);
                assert(loadedv =~~= translated_rule(raw@[i as int]@));
            }
            rules.push(loaded);
            proof {
                let lhs = rules_view(rules@);
                let rhs = loaded_rules(raws_view(raw@)).subrange(0, i + 1);
                assert(lhs.len() == rhs.len());
                assert(lhs[i as int] == loadedv);
                assert(rhs[i as int] == translated_rule(raw@[i as int]@));
                assert(lhs =~= rhs);
            }
            i += 1;
        }
        Ok(RuleSet { rules })
    }
}

} // verus!
