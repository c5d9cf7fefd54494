//! The few calls that leave this crate: regular-expression search through
//! the `regex` crate and document queries through the `scraper` crate.
//! Each call's result is a function of its string arguments alone, and is
//! given a name here; everything built on top of these names is verified.

use vstd::prelude::*;

verus! {

/// Whether `pat` compiles as a regular expression; a function of the
/// pattern string alone.
pub uninterp spec fn regex_ok(pat: Seq<char>) -> bool;

/// Whether `pat` compiles as a regular expression and, compiled, finds a
/// match anywhere in `text` (an unanchored search); false where `pat` does
/// not compile. A function of pattern and text alone.
pub uninterp spec fn regex_found(pat: Seq<char>, text: Seq<char>) -> bool;

/// The value of attribute `attr` on the first element that the CSS
/// selector `sel` matches in the document parsed from `html`; `None` where
/// the selector does not parse, matches no element, or the matched element
/// lacks the attribute. A function of the three strings alone.
pub uninterp spec fn first_attr_in(html: Seq<char>, sel: Seq<char>, attr: Seq<char>) -> Option<
    Seq<char>,
>;

/// The values of attribute `attr` on every element that the CSS selector
/// `sel` matches in the document parsed from `html`, in document order,
/// elements lacking the attribute left out; empty where the selector does
/// not parse. A function of the three strings alone.
pub uninterp spec fn all_attrs_in(html: Seq<char>, sel: Seq<char>, attr: Seq<char>) -> Seq<
    Seq<char>,
>;

/// Relies on `regex::Regex::new`: whether a pattern compiles depends on
/// the pattern string alone.
#[verifier::external_body]
pub(crate) fn pattern_compiles(pat: &str) -> (r: bool)
    ensures
        r == regex_ok(pat@),
{
    regex::Regex::new(pat).is_ok()
}

/// Relies on `regex::Regex::new` and `regex::Regex::is_match`: the
/// compiled pattern's unanchored search through `text`. Both results
/// depend on the two strings alone; a pattern that does not compile finds
/// nothing.
#[verifier::external_body]
pub(crate) fn regex_find(pat: &str, text: &str) -> (r: bool)
    ensures
        r == regex_found(pat@, text@),
        r ==> regex_ok(pat@),
{
    match regex::Regex::new(pat) {
        Ok(re) => re.is_match(text),
        Err(_) => false,
    }
}

/// Relies on `scraper::Html::parse_document`, `scraper::Selector::parse`,
/// `scraper::Html::select` and `scraper::ElementRef::attr`: parsing is
/// deterministic, and `select` walks the matched elements in document
/// order, so the first element's attribute depends on the three strings
/// alone.
#[verifier::external_body]
pub(crate) fn select_first_attr(html: &str, sel: &str, attr: &str) -> (r: Option<String>)
    ensures
        r.deep_view() == first_attr_in(html@, sel@, attr@),
{
    let doc = scraper::Html::parse_document(html);
    let selector = match scraper::Selector::parse(sel) {
        Ok(s) => s,
        Err(_) => return None,
    };
    let first = doc.select(&selector).next()?;
    first.attr(attr).map(|v| v.to_string())
}

/// Relies on `scraper::Html::parse_document`, `scraper::Selector::parse`,
/// `scraper::Html::select` and `scraper::ElementRef::attr`, as
/// `select_first_attr` does, handing back every matched element's
/// attribute value in document order.
#[verifier::external_body]
pub(crate) fn select_all_attrs(html: &str, sel: &str, attr: &str) -> (r: Vec<String>)
    ensures
        r.deep_view() == all_attrs_in(html@, sel@, attr@),
{
    let doc = scraper::Html::parse_document(html);
    let selector = match scraper::Selector::parse(sel) {
        Ok(s) => s,
        Err(_) => return Vec::new(),
    };
    doc.select(&selector).filter_map(|el| el.attr(attr).map(|v| v.to_string())).collect()
}

} // verus!
