pub mod crawl;
pub mod frontier;
pub mod language;
pub mod links;
pub mod matcher;
pub mod outside;
pub mod rules;
pub mod store;
pub mod strutil;

use vstd::prelude::*;

verus! {

/// A technology detected on a page: a `(category, name)` pair.
///
/// `ttype` carries the rule's category (its tag name); `name` the
/// technology's own name. Within one page's detection list the pair is
/// unique.
#[derive(Debug)]
pub struct DatabaseWebTechnology {
    pub ttype: String,
    pub name: String,
}

/// The mathematical value of a detection record.
#[verifier::ext_equal]
pub ghost struct WebTechnologyV {
    pub category: Seq<char>,
    pub name: Seq<char>,
}

impl View for DatabaseWebTechnology {
    type V = WebTechnologyV;

    open spec fn view(&self) -> WebTechnologyV {
        WebTechnologyV { category: self.ttype@, name: self.name@ }
    }
}

/// The records of a detection list, as mathematical values.
pub open spec fn techs_view(s: Seq<DatabaseWebTechnology>) -> Seq<WebTechnologyV> {
    s.map_values(|t: DatabaseWebTechnology| t@)
}

} // verus!
