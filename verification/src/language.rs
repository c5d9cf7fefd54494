//! Page language detection.
//!
//! Three meta tags are consulted in a fixed priority order, and the first
//! that yields a value ends the meta scan; the root element's `lang`
//! attribute, where present, overrides whatever meta said. A page that
//! yields nothing is left without a language, and nothing is written for
//! it.

use vstd::prelude::*;
use crate::outside::first_attr_in;
use crate::outside::all_attrs_in;
use crate::outside::select_first_attr;
use crate::outside::select_all_attrs;

verus! {

/// What language detection reads from a parsed page: the three meta
/// candidates, in priority order, and the root element's `lang`
/// attribute. A root element without the attribute stands as `None`, the
/// same as a missing root element.
#[derive(Debug)]
pub struct DocumentInfo {
    pub meta_language: Option<String>,
    pub meta_og_locale: Option<String>,
    pub meta_content_language: Option<String>,
    pub root_lang: Option<String>,
}

/// The mathematical value of what was read from a page.
#[verifier::ext_equal]
pub ghost struct DocumentInfoV {
    pub meta_language: Option<Seq<char>>,
    pub meta_og_locale: Option<Seq<char>>,
    pub meta_content_language: Option<Seq<char>>,
    pub root_lang: Option<Seq<char>>,
}

impl View for DocumentInfo {
    type V = DocumentInfoV;

    open spec fn view(&self) -> DocumentInfoV {
        DocumentInfoV {
            meta_language: self.meta_language.deep_view(),
            meta_og_locale: self.meta_og_locale.deep_view(),
            meta_content_language: self.meta_content_language.deep_view(),
            root_lang: self.root_lang.deep_view(),
        }
    }
}

/// The meta-derived candidate: the first of the three meta tags that
/// yields a value. Once one does, the lower-priority tags are not
/// consulted.
pub open spec fn meta_candidate(d: DocumentInfoV) -> Option<Seq<char>> {
    if d.meta_language is Some {
        d.meta_language
    } else if d.meta_og_locale is Some {
        d.meta_og_locale
    } else {
        d.meta_content_language
    }
}

/// The detected language: the root element's `lang` attribute where
/// present — the root always wins where it disagrees with meta — else the
/// meta-derived candidate; none where neither yields a value.
pub open spec fn detected_language(d: DocumentInfoV) -> Option<Seq<char>> {
    if d.root_lang is Some {
        d.root_lang
    } else {
        meta_candidate(d)
    }
}

/// Applies the detection policy to what was read from a page.
pub fn detect_language(d: &DocumentInfo) -> (r: Option<String>)
    ensures
        r.deep_view() == detected_language(d@),
{
    if let Some(l) = &d.root_lang {
        return Some(l.clone());
    }
    if let Some(l) = &d.meta_language {
        return Some(l.clone());
    }
    if let Some(l) = &d.meta_og_locale {
        return Some(l.clone());
    }
    if let Some(l) = &d.meta_content_language {
        return Some(l.clone());
    }
    None
}

/// Reads the language candidates out of a page: the three meta tags, in
/// priority order, and the root element's `lang` attribute.
pub fn read_document(html: &String) -> (d: DocumentInfo)
    ensures
        d@.meta_language == first_attr_in(html@, "meta[name=language]"@, "content"@),
        d@.meta_og_locale == first_attr_in(html@, "meta[property='og:locale']"@, "content"@),
        d@.meta_content_language == first_attr_in(
            html@,
            "meta[http-equiv='Content-Language']"@,
            "content"@,
        ),
        d@.root_lang == first_attr_in(html@, "html"@, "lang"@),
{
    DocumentInfo {
        meta_language: select_first_attr(html.as_str(), "meta[name=language]", "content"),
        meta_og_locale: select_first_attr(html.as_str(), "meta[property='og:locale']", "content"),
        meta_content_language: select_first_attr(
            html.as_str(),
            "meta[http-equiv='Content-Language']",
            "content",
        ),
        root_lang: select_first_attr(html.as_str(), "html", "lang"),
    }
}

/// The `href` of every anchor of the page, in document order.
pub fn document_links(html: &String) -> (r: Vec<String>)
    ensures
        r.deep_view() == all_attrs_in(html@, "a"@, "href"@),
{
    select_all_attrs(html.as_str(), "a", "href")
}

} // verus!
