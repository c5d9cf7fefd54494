//! External-link admission: which discovered hrefs are worth following.
//!
//! A link is followed only where it carries a web scheme, leaves the
//! origin site, and does not point at a host on the deny list. Host
//! comparison goes through `host_of`: optional scheme, optional `www.`,
//! then the host token.

use vstd::prelude::*;
use crate::strutil::host_of;
use crate::strutil::has_prefix;
use crate::strutil::extract_host;
use crate::strutil::starts_with_lit;

verus! {

/// Whether the href and the origin name the same site: equal hosts after
/// stripping scheme, `www.` and whatever follows the host token.
pub open spec fn same_site(href: Seq<char>, origin: Seq<char>) -> bool {
    host_of(href) == host_of(origin)
}

/// Whether the href carries a web scheme this crawler follows; `https`
/// passes by carrying the same prefix.
pub open spec fn http_scheme(href: Seq<char>) -> bool {
    has_prefix(href, "http"@)
}

/// Whether the href's host stands in the deny list, each entry read as a
/// host itself.
pub open spec fn denied_host(href: Seq<char>, deny: Seq<Seq<char>>) -> bool {
    exists|i: int| 0 <= i < deny.len() && host_of(href) == host_of(#[trigger] deny[i])
}

/// The admission policy over one discovered href.
pub open spec fn link_admissible(href: Seq<char>, origin: Seq<char>, deny: Seq<Seq<char>>) -> bool {
    http_scheme(href) && !same_site(href, origin) && !denied_host(href, deny)
}

/// Decides the admission policy for one href found on a page of `origin`.
pub fn check_link(href: &String, origin: &String, deny: &Vec<String>) -> (r: bool)
    ensures
        r == link_admissible(href@, origin@, deny.deep_view()),
{
    if !starts_with_lit(href.as_str(), "http") {
        return false;
    }
    let href_host = extract_host(href.as_str());
    let origin_host = extract_host(origin.as_str());
    if href_host == origin_host {
        return false;
    }
    let mut i: usize = 0;
    while i < deny.len()
        invariant
            i <= deny@.len(),
            deny.deep_view().len() == deny@.len(),
            href_host@ == host_of(href@),
            forall|k: int| 0 <= k < i ==> host_of(href@) != host_of(#[trigger] deny.deep_view()[k]),
        decreases deny@.len() - i,
    {
        let entry_host = extract_host(deny[i].as_str());
        if href_host == entry_host {
            proof {
                assert(deny.deep_view()[i as int] == deny@[i as int]@);
                assert(host_of(href@) == host_of(deny.deep_view()[i as int]));
            }
            return false;
        }
        proof {
            assert(deny.deep_view()[i as int] == deny@[i as int]@);
        }
        i += 1;
    }
    true
}

/// The deny list this crawler ships: high-traffic consumer platforms
/// whose links say little about the linking site. A configuration
/// constant, not policy logic.
pub open spec fn default_deny_list() -> Seq<Seq<char>> {
    seq![
        "facebook.com"@,
        "twitter.com"@,
        "instagram.com"@,
        "www.youtube.com"@,
        "linkedin.com"@,
        "pinterest.com"@,
        "tumblr.com"@,
        "reddit.com"@,
        "www.snapchat.com"@,
        "www.whatsapp.com"@,
        "www.messenger.com"@,
        "www.quora.com"@,
        "www.vk.com"@,
        "www.flickr.com"@,
        "www.meetup.com"@,
        "apple.com"@,
        "tiktok.com"@,
        "google.com"@,
        "spotify.com"@,
        "bit.ly"@,
    ]
}

/// Builds the shipped deny list.
pub fn default_denied_hosts() -> (v: Vec<String>)
    ensures
        v.deep_view() == default_deny_list(),
{
    let mut v: Vec<String> = Vec::new();
    v.push("facebook.com".to_owned());
    v.push("twitter.com".to_owned());
    v.push("instagram.com".to_owned());
    v.push("www.youtube.com".to_owned());
    v.push("linkedin.com".to_owned());
    v.push("pinterest.com".to_owned());
    v.push("tumblr.com".to_owned());
    v.push("reddit.com".to_owned());
    v.push("www.snapchat.com".to_owned());
    v.push("www.whatsapp.com".to_owned());
    v.push("www.messenger.com".to_owned());
    v.push("www.quora.com".to_owned());
    v.push("www.vk.com".to_owned());
    v.push("www.flickr.com".to_owned());
    v.push("www.meetup.com".to_owned());
    v.push("apple.com".to_owned());
    v.push("tiktok.com".to_owned());
    v.push("google.com".to_owned());
    v.push("spotify.com".to_owned());
    v.push("bit.ly".to_owned());
    proof {
        assert(v.deep_view() =~= default_deny_list());
    }
    v
}

} // verus!
