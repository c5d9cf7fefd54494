//! The crawl frontier: which page is fetched next, and how discovered
//! links feed back into the store.
//!
//! Selection is a priority pick by ascending last-scraped time over the
//! eligible pages, not first-in first-out by discovery order. Discovered
//! links pass the admission policy, then their domain is admitted
//! (idempotently), and the page itself only while the domain owns fewer
//! pages than the fan-out cap.

use vstd::prelude::*;
use crate::store::Store;
use crate::store::StoreV;
use crate::store::PageV;
use crate::store::admit_domain_spec;
use crate::store::admit_page_spec;
use crate::store::count_pages_spec;
use crate::links::check_link;
use crate::links::link_admissible;
use crate::strutil::extract_host;
use crate::strutil::host_of;

verus! {

/// How long a visited page must age before it may be fetched again: ten
/// days, in seconds.
pub const RECRAWL_INTERVAL_SECS: u64 = 10 * 24 * 60 * 60;

/// How many pages one domain may come to own through link discovery.
pub const FAN_OUT_CAP: usize = 2;

/// Whether the page may be fetched at time `now`: it is crawlable and its
/// last scrape lies at least the recrawl interval in the past. A page
/// never scraped carries scrape time zero.
pub open spec fn eligible(p: PageV, now: u64) -> bool {
    p.crawlable && p.last_scraped_at + RECRAWL_INTERVAL_SECS <= now
}

/// Whether any page of the store is eligible at time `now`.
pub open spec fn exists_eligible(s: StoreV, now: u64) -> bool {
    exists|i: int| 0 <= i < s.pages.len() && eligible(#[trigger] s.pages[i], now)
}

/// What a correct selection hands back: nothing exactly where nothing is
/// eligible; otherwise an eligible page with the smallest last-scraped
/// time, the earliest such page on a tie.
pub open spec fn selection_ok(s: StoreV, now: u64, r: Option<int>) -> bool {
    match r {
        Some(i) => {
            &&& 0 <= i < s.pages.len()
            &&& eligible(s.pages[i], now)
            &&& forall|j: int|
                0 <= j < s.pages.len() && eligible(#[trigger] s.pages[j], now)
                    ==> s.pages[i].last_scraped_at <= s.pages[j].last_scraped_at
            &&& forall|j: int|
                0 <= j < i && eligible(#[trigger] s.pages[j], now)
                    ==> s.pages[i].last_scraped_at < s.pages[j].last_scraped_at
        },
        None => !exists_eligible(s, now),
    }
}

/// Picks the next page to crawl: the oldest-scraped eligible page, or
/// none where the frontier offers nothing.
pub fn select_next(store: &Store, now: u64) -> (r: Option<usize>)
    ensures
        selection_ok(
            store@,
            now,
            match r {
                Some(i) => Some(i as int),
                None => None,
            },
        ),
{
    let mut best: Option<usize> = None;
    let mut i: usize = 0;
    while i < store.pages.len()
        invariant
            i <= store.pages@.len(),
            store@.pages.len() == store.pages@.len(),
            match best {
                Some(b) => b < i && eligible(store@.pages[b as int], now) && (forall|j: int|
                    0 <= j < i && eligible(#[trigger] store@.pages[j], now)
                        ==> store@.pages[b as int].last_scraped_at
                        <= store@.pages[j].last_scraped_at) && (forall|j: int|
                    0 <= j < b && eligible(#[trigger] store@.pages[j], now)
                        ==> store@.pages[b as int].last_scraped_at
                        < store@.pages[j].last_scraped_at),
                None => forall|j: int| 0 <= j < i ==> !eligible(#[trigger] store@.pages[j], now),
            },
        decreases store.pages@.len() - i,
    {
        proof {
            assert(store@.pages[i as int] == store.pages@[i as int]@);
        }
        let p = &store.pages[i];
        let elig = p.crawlable && now >= RECRAWL_INTERVAL_SECS && p.last_scraped_at <= now
            - RECRAWL_INTERVAL_SECS;
        proof {
            assert(elig == eligible(store@.pages[i as int], now));
        }
        if elig {
            match best {
                None => {
                    best = Some(i);
                },
                Some(b) => {
                    proof {
                        assert(store@.pages[b as int] == store.pages@[b as int]@);
                    }
                    if p.last_scraped_at < store.pages[b].last_scraped_at {
                        best = Some(i);
                    }
                },
            }
        }
        i += 1;
    }
    best
}

/// Law: selection never hands back a page whose last scrape lies within
/// the recrawl interval of `now`, and among the eligible pages always
/// one with the smallest last-scraped time.
pub proof fn lemma_select_next_policy(s: StoreV, now: u64, i: int)
    requires
        selection_ok(s, now, Some(i)),
    ensures
        0 <= i < s.pages.len(),
        s.pages[i].crawlable,
        now - s.pages[i].last_scraped_at >= RECRAWL_INTERVAL_SECS,
        forall|j: int|
            0 <= j < s.pages.len() && eligible(#[trigger] s.pages[j], now)
                ==> s.pages[i].last_scraped_at <= s.pages[j].last_scraped_at,
{
}

/// What admitting one discovered href does: nothing where the admission
/// policy rejects it; else the href's domain is admitted (idempotently),
/// and the page too unless the domain already owns `FAN_OUT_CAP` pages —
/// a freshly admitted domain owns none and always passes.
pub open spec fn admit_link_spec(
    s: StoreV,
    href: Seq<char>,
    origin: Seq<char>,
    deny: Seq<Seq<char>>,
    now: u64,
) -> (StoreV, Option<int>) {
    if !link_admissible(href, origin, deny) {
        (s, None)
    } else {
        let (s1, did) = admit_domain_spec(s, host_of(href), now);
        if count_pages_spec(s1.pages, did) >= FAN_OUT_CAP {
            (s1, None)
        } else {
            let (s2, pid) = admit_page_spec(s1, href, did, now);
            (s2, Some(pid))
        }
    }
}

/// Feeds one discovered href through the admission policy and, where it
/// passes, into the store.
pub fn admit_discovered_link(
    store: &mut Store,
    href: &String,
    origin: &String,
    deny: &Vec<String>,
    now: u64,
) -> (r: Option<usize>)
    requires
        old(store)@.wf(),
    ensures
        final(store)@.wf(),
        final(store)@ == admit_link_spec(old(store)@, href@, origin@, deny.deep_view(), now).0,
        (match r {
            Some(i) => Some(i as int),
            None => None::<int>,
        }) == admit_link_spec(old(store)@, href@, origin@, deny.deep_view(), now).1,
{
    if !check_link(href, origin, deny) {
        return None;
    }
    let host = extract_host(href.as_str());
    let did = store.admit_domain(&host, now);
    if store.count_pages_of(did) >= FAN_OUT_CAP {
        return None;
    }
    let pid = store.admit_page(href, did, now);
    Some(pid)
}

/// What feeding a whole list of discovered hrefs does, first to last.
pub open spec fn discover_spec(
    s: StoreV,
    hrefs: Seq<Seq<char>>,
    origin: Seq<char>,
    deny: Seq<Seq<char>>,
    now: u64,
) -> StoreV
    decreases hrefs.len(),
{
    if hrefs.len() == 0 {
        s
    } else {
        discover_spec(
            admit_link_spec(s, hrefs[0], origin, deny, now).0,
            hrefs.skip(1),
            origin,
            deny,
            now,
        )
    }
}

/// Feeds every discovered href of a fetched page into the store, in
/// document order.
pub fn discover_links(
    store: &mut Store,
    hrefs: &Vec<String>,
    origin: &String,
    deny: &Vec<String>,
    now: u64,
)
    requires
        old(store)@.wf(),
    ensures
        final(store)@.wf(),
        final(store)@ == discover_spec(
            old(store)@,
            hrefs.deep_view(),
            origin@,
            deny.deep_view(),
            now,
        ),
{
    let ghost target = discover_spec(old(store)@, hrefs.deep_view(), origin@, deny.deep_view(), now);
    proof {
        assert(hrefs.deep_view().skip(0) =~= hrefs.deep_view());
    }
    let mut i: usize = 0;
    while i < hrefs.len()
        invariant
            store@.wf(),
            i <= hrefs@.len(),
            hrefs.deep_view().len() == hrefs@.len(),
            target == discover_spec(
                old(store)@,
                hrefs.deep_view(),
                origin@,
                deny.deep_view(),
                now,
            ),
            discover_spec(store@, hrefs.deep_view().skip(i as int), origin@, deny.deep_view(), now)
                == target,
        decreases hrefs@.len() - i,
    {
        let ghost pre = store@;
        let ghost rest = hrefs.deep_view().skip(i as int);
        proof {
            assert(rest.len() == hrefs.deep_view().len() - i);
            assert(rest[0] == hrefs.deep_view()[i as int]);
            assert(hrefs.deep_view()[i as int] == hrefs@[i as int]@);
            assert(rest.skip(1) =~= hrefs.deep_view().skip(i + 1));
        }
        let _ = admit_discovered_link(store, &hrefs[i], origin, deny, now);
        proof {
            assert(store@ == admit_link_spec(pre, rest[0], origin@, deny.deep_view(), now).0);
            assert(discover_spec(pre, rest, origin@, deny.deep_view(), now) == discover_spec(
                store@,
                rest.skip(1),
                origin@,
                deny.deep_view(),
                now,
            ));
        }
        i += 1;
    }
    proof {
        assert(hrefs.deep_view().skip(hrefs@.len() as int) =~= Seq::<Seq<char>>::empty());
    }
}

} // verus!
