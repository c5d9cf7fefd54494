//! The domain/page store: the state the frontier policy and the
//! enrichment pipeline work over.
//!
//! A domain is keyed by its hostname, a page by its URL; both keys are
//! unique, and every page points at an existing domain. Admission is
//! idempotent — re-admitting a known key is a no-op that hands back the
//! existing id. A domain's reputation, once set, is copied eagerly onto
//! every page the domain owns.

use vstd::prelude::*;
use crate::DatabaseWebTechnology;
use crate::WebTechnologyV;
use crate::techs_view;

verus! {

/// Reputation scores live on a 0–10 scale, held in hundredths.
pub const MAX_SCORE_HUNDREDTHS: u32 = 1000;

/// A known domain. `reputation` stays `None` until the one reputation
/// lookup for this domain has run; `languages` collects every language
/// its pages were detected in, insertion-ordered and without duplicates.
#[derive(Debug)]
pub struct Domain {
    pub host: String,
    pub created_at: u64,
    pub crawlable: bool,
    pub reputation: Option<u32>,
    pub ip: Option<String>,
    pub languages: Vec<String>,
}

/// The mathematical value of a domain record.
#[verifier::ext_equal]
pub ghost struct DomainV {
    pub host: Seq<char>,
    pub created_at: u64,
    pub crawlable: bool,
    pub reputation: Option<u32>,
    pub ip: Option<Seq<char>>,
    pub languages: Seq<Seq<char>>,
}

impl View for Domain {
    type V = DomainV;

    open spec fn view(&self) -> DomainV {
        DomainV {
            host: self.host@,
            created_at: self.created_at,
            crawlable: self.crawlable,
            reputation: self.reputation,
            ip: self.ip.deep_view(),
            languages: self.languages.deep_view(),
        }
    }
}

/// A known page. `last_scraped_at` of zero means never scraped; a page
/// whose fetch failed has `crawlable` false, which is terminal.
/// `reputation` is the denormalized copy of the owning domain's score.
#[derive(Debug)]
pub struct Page {
    pub url: String,
    pub domain_id: usize,
    pub created_at: u64,
    pub updated_at: u64,
    pub last_scraped_at: u64,
    pub crawlable: bool,
    pub technologies: Option<Vec<DatabaseWebTechnology>>,
    pub header_technologies: Option<Vec<DatabaseWebTechnology>>,
    pub language: Option<String>,
    pub reputation: Option<u32>,
}

/// The mathematical value of a page record.
#[verifier::ext_equal]
pub ghost struct PageV {
    pub url: Seq<char>,
    pub domain_id: int,
    pub created_at: u64,
    pub updated_at: u64,
    pub last_scraped_at: u64,
    pub crawlable: bool,
    pub technologies: Option<Seq<WebTechnologyV>>,
    pub header_technologies: Option<Seq<WebTechnologyV>>,
    pub language: Option<Seq<char>>,
    pub reputation: Option<u32>,
}

/// The values of an optional detection list.
pub open spec fn opt_techs_view(t: Option<Vec<DatabaseWebTechnology>>) -> Option<
    Seq<WebTechnologyV>,
> {
    match t {
        Some(v) => Some(techs_view(v@)),
        None => None,
    }
}

impl View for Page {
    type V = PageV;

    open spec fn view(&self) -> PageV {
        PageV {
            url: self.url@,
            domain_id: self.domain_id as int,
            created_at: self.created_at,
            updated_at: self.updated_at,
            last_scraped_at: self.last_scraped_at,
            crawlable: self.crawlable,
            technologies: opt_techs_view(self.technologies),
            header_technologies: opt_techs_view(self.header_technologies),
            language: self.language.deep_view(),
            reputation: self.reputation,
        }
    }
}

/// The values of a list of domains.
pub open spec fn domains_view(s: Seq<Domain>) -> Seq<DomainV> {
    s.map_values(|d: Domain| d@)
}

/// The values of a list of pages.
pub open spec fn pages_view(s: Seq<Page>) -> Seq<PageV> {
    s.map_values(|p: Page| p@)
}

/// The mathematical value of the whole store.
#[verifier::ext_equal]
pub ghost struct StoreV {
    pub domains: Seq<DomainV>,
    pub pages: Seq<PageV>,
}

/// An optional score is on the 0–10 scale.
pub open spec fn score_ok(r: Option<u32>) -> bool {
    r matches Some(x) ==> x <= MAX_SCORE_HUNDREDTHS
}

/// A list of languages holds no entry twice.
pub open spec fn langs_unique(langs: Seq<Seq<char>>) -> bool {
    forall|i: int, j: int| 0 <= i < j < langs.len() ==> langs[i] != langs[j]
}

impl StoreV {
    /// Well-formedness: hostnames unique, URLs unique, every page owned
    /// by an existing domain, scores on scale, language sets duplicate
    /// free.
    pub open spec fn wf(self) -> bool {
        &&& forall|i: int, j: int|
            0 <= i < j < self.domains.len() ==> (#[trigger] self.domains[i]).host != (
            #[trigger] self.domains[j]).host
        &&& forall|i: int, j: int|
            0 <= i < j < self.pages.len() ==> (#[trigger] self.pages[i]).url != (
            #[trigger] self.pages[j]).url
        &&& forall|i: int|
            0 <= i < self.pages.len() ==> 0 <= (#[trigger] self.pages[i]).domain_id
                < self.domains.len()
        &&& forall|i: int|
            0 <= i < self.domains.len() ==> score_ok((#[trigger] self.domains[i]).reputation)
                && langs_unique(self.domains[i].languages)
        &&& forall|i: int| 0 <= i < self.pages.len() ==> score_ok((#[trigger] self.pages[i]).reputation)
    }
}

/// Whether some domain carries the hostname.
pub open spec fn has_host(doms: Seq<DomainV>, host: Seq<char>) -> bool {
    exists|i: int| 0 <= i < doms.len() && (#[trigger] doms[i]).host == host
}

/// The index of the domain carrying the hostname, where one does.
pub open spec fn host_index(doms: Seq<DomainV>, host: Seq<char>) -> int {
    choose|i: int| 0 <= i < doms.len() && (#[trigger] doms[i]).host == host
}

/// Whether some page carries the URL.
pub open spec fn has_url(pages: Seq<PageV>, url: Seq<char>) -> bool {
    exists|i: int| 0 <= i < pages.len() && (#[trigger] pages[i]).url == url
}

/// The index of the page carrying the URL, where one does.
pub open spec fn url_index(pages: Seq<PageV>, url: Seq<char>) -> int {
    choose|i: int| 0 <= i < pages.len() && (#[trigger] pages[i]).url == url
}

/// A fresh domain record: crawlable, nothing computed yet.
pub open spec fn new_domain_v(host: Seq<char>, now: u64) -> DomainV {
    DomainV {
        host,
        created_at: now,
        crawlable: true,
        reputation: None,
        ip: None,
        languages: Seq::empty(),
    }
}

/// What admitting a hostname does: nothing on a known host, else one
/// fresh domain at the end; the id names the domain either way.
pub open spec fn admit_domain_spec(s: StoreV, host: Seq<char>, now: u64) -> (StoreV, int) {
    if has_host(s.domains, host) {
        (s, host_index(s.domains, host))
    } else {
        (
            StoreV { domains: s.domains.push(new_domain_v(host, now)), pages: s.pages },
            s.domains.len() as int,
        )
    }
}

/// A fresh page record: never scraped, crawlable, nothing detected; the
/// reputation is inherited from the owning domain at creation.
pub open spec fn new_page_v(url: Seq<char>, domain_id: int, reputation: Option<u32>, now: u64) -> PageV {
    PageV {
        url,
        domain_id,
        created_at: now,
        updated_at: now,
        last_scraped_at: 0,
        crawlable: true,
        technologies: None,
        header_technologies: None,
        language: None,
        reputation,
    }
}

/// What admitting a URL does: nothing on a known URL, else one fresh page
/// at the end, owned by the given domain and inheriting its reputation.
pub open spec fn admit_page_spec(s: StoreV, url: Seq<char>, domain_id: int, now: u64) -> (
    StoreV,
    int,
) {
    if has_url(s.pages, url) {
        (s, url_index(s.pages, url))
    } else {
        (
            StoreV {
                domains: s.domains,
                pages: s.pages.push(
                    new_page_v(url, domain_id, s.domains[domain_id].reputation, now),
                ),
            },
            s.pages.len() as int,
        )
    }
}

/// How many pages the domain owns.
pub open spec fn count_pages_spec(pages: Seq<PageV>, domain_id: int) -> int
    decreases pages.len(),
{
    if pages.len() == 0 {
        0
    } else {
        count_pages_spec(pages.drop_last(), domain_id) + if pages.last().domain_id == domain_id {
            1int
        } else {
            0int
        }
    }
}

/// What setting a domain's reputation does: the domain gets the score,
/// and so does every page the domain owns — eager denormalization.
pub open spec fn set_reputation_spec(s: StoreV, domain_id: int, score: u32) -> StoreV {
    StoreV {
        domains: s.domains.update(
            domain_id,
            DomainV { reputation: Some(score), ..s.domains[domain_id] },
        ),
        pages: Seq::new(
            s.pages.len(),
            |i: int|
                if s.pages[i].domain_id == domain_id {
                    PageV { reputation: Some(score), ..s.pages[i] }
                } else {
                    s.pages[i]
                },
        ),
    }
}

/// What recording a domain's address does.
pub open spec fn set_ip_spec(s: StoreV, domain_id: int, ip: Seq<char>) -> StoreV {
    StoreV {
        domains: s.domains.update(domain_id, DomainV { ip: Some(ip), ..s.domains[domain_id] }),
        pages: s.pages,
    }
}

/// Whether the language is already in the set.
pub open spec fn lang_known(langs: Seq<Seq<char>>, l: Seq<char>) -> bool {
    exists|i: int| 0 <= i < langs.len() && langs[i] == l
}

/// What recording a detected language on a domain does: appended once,
/// never twice.
pub open spec fn add_language_spec(s: StoreV, domain_id: int, l: Seq<char>) -> StoreV {
    if lang_known(s.domains[domain_id].languages, l) {
        s
    } else {
        StoreV {
            domains: s.domains.update(
                domain_id,
                DomainV {
                    languages: s.domains[domain_id].languages.push(l),
                    ..s.domains[domain_id]
                },
            ),
            pages: s.pages,
        }
    }
}

/// What recording a page's detected language does.
pub open spec fn set_page_language_spec(s: StoreV, page_id: int, l: Seq<char>, now: u64) -> StoreV {
    StoreV {
        domains: s.domains,
        pages: s.pages.update(
            page_id,
            PageV { language: Some(l), updated_at: now, ..s.pages[page_id] },
        ),
    }
}

/// What persisting the body fingerprint does.
pub open spec fn set_technologies_spec(
    s: StoreV,
    page_id: int,
    techs: Seq<WebTechnologyV>,
    now: u64,
) -> StoreV {
    StoreV {
        domains: s.domains,
        pages: s.pages.update(
            page_id,
            PageV { technologies: Some(techs), updated_at: now, ..s.pages[page_id] },
        ),
    }
}

/// What persisting the header fingerprint does.
pub open spec fn set_header_technologies_spec(
    s: StoreV,
    page_id: int,
    techs: Seq<WebTechnologyV>,
    now: u64,
) -> StoreV {
    StoreV {
        domains: s.domains,
        pages: s.pages.update(
            page_id,
            PageV { header_technologies: Some(techs), updated_at: now, ..s.pages[page_id] },
        ),
    }
}

/// What marking a page visited does: the scrape time moves to `now`.
pub open spec fn mark_visited_spec(s: StoreV, page_id: int, now: u64) -> StoreV {
    StoreV {
        domains: s.domains,
        pages: s.pages.update(
            page_id,
            PageV { last_scraped_at: now, updated_at: now, ..s.pages[page_id] },
        ),
    }
}

/// What marking a page failed does: crawlable goes false, terminally.
pub open spec fn mark_failed_spec(s: StoreV, page_id: int, now: u64) -> StoreV {
    StoreV {
        domains: s.domains,
        pages: s.pages.update(
            page_id,
            PageV { crawlable: false, updated_at: now, ..s.pages[page_id] },
        ),
    }
}

/// The domain/page store.
#[derive(Debug)]
pub struct Store {
    pub domains: Vec<Domain>,
    pub pages: Vec<Page>,
}

impl View for Store {
    type V = StoreV;

    open spec fn view(&self) -> StoreV {
        StoreV { domains: domains_view(self.domains@), pages: pages_view(self.pages@) }
    }
}

impl Store {
    /// An empty store.
    pub fn new() -> (s: Store)
        ensures
            s@.domains == Seq::<DomainV>::empty(),
            s@.pages == Seq::<PageV>::empty(),
            s@.wf(),
    {
        let s = Store { domains: Vec::new(), pages: Vec::new() };
        proof {
            assert(s@.domains =~= Seq::<DomainV>::empty());
            assert(s@.pages =~= Seq::<PageV>::empty());
        }
        s
    }

    /// Admits a hostname: hands back the existing domain's id where the
    /// host is already known — the store does not change — else appends
    /// one fresh domain with nothing computed yet.
    pub fn admit_domain(&mut self, host: &String, now: u64) -> (id: usize)
        requires
            old(self)@.wf(),
        ensures
            final(self)@.wf(),
            id < final(self)@.domains.len(),
            final(self)@ == admit_domain_spec(old(self)@, host@, now).0,
            id as int == admit_domain_spec(old(self)@, host@, now).1,
    {
        let mut i: usize = 0;
        while i < self.domains.len()
            invariant
                old(self)@.wf(),
                *self == *old(self),
                i <= self.domains@.len(),
                self@.domains.len() == self.domains@.len(),
                forall|k: int| 0 <= k < i ==> (#[trigger] self@.domains[k]).host != host@,
            decreases self.domains@.len() - i,
        {
            proof {
                assert(self@.domains[i as int] == self.domains@[i as int]@);
            }
            if self.domains[i].host == *host {
                proof {
                    assert(has_host(self@.domains, host@));
                    let j = host_index(self@.domains, host@);
                    assert(0 <= j < self@.domains.len() && self@.domains[j].host == host@);
                    if j < i {
                        assert(self@.domains[j].host != self@.domains[i as int].host);
                    } else if j > i {
                        assert(self@.domains[i as int].host != self@.domains[j].host);
                    }
                    assert(j == i as int);
                }
                return i;
            }
            i += 1;
        }
        proof {
            assert(!has_host(self@.domains, host@));
        }
        let id = self.domains.len();
        let d = Domain {
            host: host.clone(),
            created_at: now,
            crawlable: true,
            reputation: None,
            ip: None,
            languages: Vec::new(),
        };
        proof {
            assert(d@ =~~= new_domain_v(host@, now));
        }
        self.domains.push(d);
        proof {
            assert(domains_view(self.domains@).len() == self.domains@.len());
            assert(self@.domains =~~= old(self)@.domains.push(new_domain_v(host@, now)));
            assert(self@ =~~= admit_domain_spec(old(self)@, host@, now).0);
            assert(self@.pages == old(self)@.pages);
            assert forall|a: int, b: int| 0 <= a < b < self@.domains.len() implies (
            #[trigger] self@.domains[a]).host != (#[trigger] self@.domains[b]).host by {
                if b < self@.domains.len() - 1 {
                    assert(self@.domains[a] == old(self)@.domains[a]);
                    assert(self@.domains[b] == old(self)@.domains[b]);
                } else {
                    assert(self@.domains[a] == old(self)@.domains[a]);
                    assert(self@.domains[b].host == host@);
                }
            }
            assert(self@.wf());
        }
        id
    }

    /// Admits a URL for the given domain: hands back the existing page's
    /// id where the URL is already known — the store does not change —
    /// else appends one fresh page that inherits the domain's current
    /// reputation.
    pub fn admit_page(&mut self, url: &String, domain_id: usize, now: u64) -> (id: usize)
        requires
            old(self)@.wf(),
            domain_id < old(self)@.domains.len(),
        ensures
            final(self)@.wf(),
            id < final(self)@.pages.len(),
            final(self)@ == admit_page_spec(old(self)@, url@, domain_id as int, now).0,
            id as int == admit_page_spec(old(self)@, url@, domain_id as int, now).1,
    {
        let mut i: usize = 0;
        while i < self.pages.len()
            invariant
                old(self)@.wf(),
                *self == *old(self),
                i <= self.pages@.len(),
                self@.pages.len() == self.pages@.len(),
                forall|k: int| 0 <= k < i ==> (#[trigger] self@.pages[k]).url != url@,
            decreases self.pages@.len() - i,
        {
            proof {
                assert(self@.pages[i as int] == self.pages@[i as int]@);
            }
            if self.pages[i].url == *url {
                proof {
                    assert(has_url(self@.pages, url@));
                    let j = url_index(self@.pages, url@);
                    assert(0 <= j < self@.pages.len() && self@.pages[j].url == url@);
                    if j < i {
                        assert(self@.pages[j].url != self@.pages[i as int].url);
                    } else if j > i {
                        assert(self@.pages[i as int].url != self@.pages[j].url);
                    }
                    assert(j == i as int);
                }
                return i;
            }
            i += 1;
        }
        proof {
            assert(!has_url(self@.pages, url@));
        }
        let id = self.pages.len();
        let reputation = self.domains[domain_id].reputation;
        let p = Page {
            url: url.clone(),
            domain_id,
            created_at: now,
            updated_at: now,
            last_scraped_at: 0,
            crawlable: true,
            technologies: None,
            header_technologies: None,
            language: None,
            reputation,
        };
        proof {
            assert(self@.domains[domain_id as int] == self.domains@[domain_id as int]@);
            assert(p@ =~~= new_page_v(
                url@,
                domain_id as int,
                old(self)@.domains[domain_id as int].reputation,
                now,
            ));
        }
        self.pages.push(p);
        proof {
            assert(pages_view(self.pages@).len() == self.pages@.len());
            assert(self@.pages =~~= old(self)@.pages.push(
                new_page_v(
                    url@,
                    domain_id as int,
                    old(self)@.domains[domain_id as int].reputation,
                    now,
                ),
            ));
            assert(self@ =~~= admit_page_spec(old(self)@, url@, domain_id as int, now).0);
            assert(self@.domains == old(self)@.domains);
            assert forall|a: int, b: int| 0 <= a < b < self@.pages.len() implies (
            #[trigger] self@.pages[a]).url != (#[trigger] self@.pages[b]).url by {
                if b < self@.pages.len() - 1 {
                    assert(self@.pages[a] == old(self)@.pages[a]);
                    assert(self@.pages[b] == old(self)@.pages[b]);
                } else {
                    assert(self@.pages[a] == old(self)@.pages[a]);
                    assert(self@.pages[b].url == url@);
                }
            }
            assert(self@.wf());
        }
        id
    }

    /// Sets the domain's reputation and copies it onto every page the
    /// domain owns — eager denormalization, so no page is left showing a
    /// stale score.
    pub fn set_domain_reputation(&mut self, domain_id: usize, score: u32)
        requires
            old(self)@.wf(),
            domain_id < old(self)@.domains.len(),
            score <= MAX_SCORE_HUNDREDTHS,
        ensures
            final(self)@.wf(),
            final(self)@ == set_reputation_spec(old(self)@, domain_id as int, score),
    {
        let ghost target = set_reputation_spec(old(self)@, domain_id as int, score);
        self.domains[domain_id].reputation = Some(score);
        proof {
            assert(domains_view(self.domains@).len() == self.domains@.len());
            assert(self@.domains =~~= target.domains);
        }
        let mut i: usize = 0;
        while i < self.pages.len()
            invariant
                old(self)@.wf(),
                domain_id < old(self)@.domains.len(),
                score <= MAX_SCORE_HUNDREDTHS,
                target == set_reputation_spec(old(self)@, domain_id as int, score),
                i <= self.pages@.len(),
                self@.pages.len() == self.pages@.len(),
                self@.pages.len() == old(self)@.pages.len(),
                self@.domains == target.domains,
                forall|k: int| 0 <= k < i ==> #[trigger] self@.pages[k] == target.pages[k],
                forall|k: int|
                    i <= k < self@.pages.len() ==> #[trigger] self@.pages[k] == old(
                        self,
                    )@.pages[k],
            decreases self.pages@.len() - i,
        {
            let ghost before = self.pages@;
            proof {
                assert(pages_view(before)[i as int] == before[i as int]@);
            }
            if self.pages[i].domain_id == domain_id {
                self.pages[i].reputation = Some(score);
            }
            proof {
                assert(pages_view(self.pages@).len() == self.pages@.len());
                assert forall|k: int| 0 <= k <= i as int implies #[trigger] pages_view(
                    self.pages@,
                )[k] == target.pages[k] by {
                    if k < i as int {
                        assert(pages_view(before)[k] == target.pages[k]);
                        assert(self.pages@[k] == before[k]);
                        assert(pages_view(self.pages@)[k] == self.pages@[k]@);
                    } else {
                        assert(pages_view(before)[k] == old(self)@.pages[k]);
                        assert(pages_view(self.pages@)[k] == self.pages@[k]@);
                        assert(pages_view(self.pages@)[k] =~~= target.pages[k]);
                    }
                }
                assert forall|k: int|
                    i as int + 1 <= k < self.pages@.len() implies #[trigger] pages_view(
                        self.pages@,
                    )[k] == old(self)@.pages[k] by {
                    assert(pages_view(before)[k] == old(self)@.pages[k]);
                    assert(self.pages@[k] == before[k]);
                    assert(pages_view(self.pages@)[k] == self.pages@[k]@);
                }
            }
            i += 1;
        }
        proof {
            assert(self@.pages =~= target.pages);
            assert(self@ =~~= target);
            assert forall|a: int, b: int| 0 <= a < b < self@.pages.len() implies (
            #[trigger] self@.pages[a]).url != (#[trigger] self@.pages[b]).url by {
                assert(self@.pages[a].url == old(self)@.pages[a].url);
                assert(self@.pages[b].url == old(self)@.pages[b].url);
            }
            assert forall|a: int, b: int| 0 <= a < b < self@.domains.len() implies (
            #[trigger] self@.domains[a]).host != (#[trigger] self@.domains[b]).host by {
                assert(self@.domains[a].host == old(self)@.domains[a].host);
                assert(self@.domains[b].host == old(self)@.domains[b].host);
            }
            assert forall|k: int| 0 <= k < self@.pages.len() implies 0 <= (
            #[trigger] self@.pages[k]).domain_id < self@.domains.len() by {
                assert(self@.pages[k].domain_id == old(self)@.pages[k].domain_id);
            }
            assert forall|k: int| 0 <= k < self@.domains.len() implies score_ok(
                (#[trigger] self@.domains[k]).reputation,
            ) && langs_unique(self@.domains[k].languages) by {
                if k != domain_id {
                    assert(self@.domains[k] == old(self)@.domains[k]);
                } else {
                    assert(self@.domains[k].languages == old(self)@.domains[k].languages);
                }
            }
            assert forall|k: int| 0 <= k < self@.pages.len() implies score_ok(
                (#[trigger] self@.pages[k]).reputation,
            ) by {
                if old(self)@.pages[k].domain_id != domain_id {
                    assert(self@.pages[k] == old(self)@.pages[k]);
                }
            }
            assert(self@.wf());
        }
    }

    /// Records the domain's resolved address.
    pub fn set_domain_ip(&mut self, domain_id: usize, ip: &String)
        requires
            old(self)@.wf(),
            domain_id < old(self)@.domains.len(),
        ensures
            final(self)@.wf(),
            final(self)@ == set_ip_spec(old(self)@, domain_id as int, ip@),
    {
        self.domains[domain_id].ip = Some(ip.clone());
        proof {
            let target = set_ip_spec(old(self)@, domain_id as int, ip@);
            assert(domains_view(self.domains@).len() == self.domains@.len());
            assert(self@.domains =~~= target.domains);
            assert(self@ =~~= target);
            assert forall|a: int, b: int| 0 <= a < b < self@.domains.len() implies (
            #[trigger] self@.domains[a]).host != (#[trigger] self@.domains[b]).host by {
                assert(self@.domains[a].host == old(self)@.domains[a].host);
                assert(self@.domains[b].host == old(self)@.domains[b].host);
            }
            assert forall|k: int| 0 <= k < self@.domains.len() implies score_ok(
                (#[trigger] self@.domains[k]).reputation,
            ) && langs_unique(self@.domains[k].languages) by {
                assert(self@.domains[k].reputation == old(self)@.domains[k].reputation);
                assert(self@.domains[k].languages == old(self)@.domains[k].languages);
            }
            assert(self@.wf());
        }
    }

    /// Records a detected language on the domain's cumulative set:
    /// appended at the end where new, left alone where already present.
    pub fn add_domain_language(&mut self, domain_id: usize, lang: &String)
        requires
            old(self)@.wf(),
            domain_id < old(self)@.domains.len(),
        ensures
            final(self)@.wf(),
            final(self)@ == add_language_spec(old(self)@, domain_id as int, lang@),
    {
        let ghost langs = self@.domains[domain_id as int].languages;
        let n = self.domains[domain_id].languages.len();
        proof {
            assert(self@.domains[domain_id as int] == self.domains@[domain_id as int]@);
            assert(langs.len() == n);
        }
        let mut i: usize = 0;
        while i < n
            invariant
                old(self)@.wf(),
                domain_id < old(self)@.domains.len(),
                *self == *old(self),
                langs == self@.domains[domain_id as int].languages,
                n == langs.len(),
                i <= n,
                forall|k: int| 0 <= k < i ==> langs[k] != lang@,
            decreases n - i,
        {
            proof {
                assert(self@.domains[domain_id as int] == self.domains@[domain_id as int]@);
                assert(langs[i as int] == self.domains@[domain_id as int].languages@[i as int]@);
            }
            if self.domains[domain_id].languages[i] == *lang {
                proof {
                    assert(lang_known(langs, lang@));
                }
                return ;
            }
            i += 1;
        }
        proof {
            assert(!lang_known(langs, lang@));
        }
        self.domains[domain_id].languages.push(lang.clone());
        proof {
            let target = add_language_spec(old(self)@, domain_id as int, lang@);
            assert(domains_view(self.domains@).len() == self.domains@.len());
            assert(self@.domains[domain_id as int] == self.domains@[domain_id as int]@);
            assert(self@.domains[domain_id as int].languages =~~= langs.push(lang@));
            assert(self@.domains =~~= target.domains);
            assert(self@ =~~= target);
            assert forall|a: int, b: int| 0 <= a < b < self@.domains.len() implies (
            #[trigger] self@.domains[a]).host != (#[trigger] self@.domains[b]).host by {
                assert(self@.domains[a].host == old(self)@.domains[a].host);
                assert(self@.domains[b].host == old(self)@.domains[b].host);
            }
            assert forall|k: int| 0 <= k < self@.domains.len() implies score_ok(
                (#[trigger] self@.domains[k]).reputation,
            ) && langs_unique(self@.domains[k].languages) by {
                assert(self@.domains[k].reputation == old(self)@.domains[k].reputation);
                if k != domain_id {
                    assert(self@.domains[k].languages == old(self)@.domains[k].languages);
                } else {
                    assert(self@.domains[k].languages == langs.push(lang@));
                    assert(langs_unique(langs));
                    assert forall|a: int, b: int|
                        0 <= a < b < langs.push(lang@).len() implies langs.push(lang@)[a]
                            != langs.push(lang@)[b] by {
                        if b < langs.len() {
                            assert(langs[a] != langs[b]);
                        } else {
                            assert(langs.push(lang@)[b] == lang@);
                            assert(langs[a] != lang@);
                        }
                    }
                }
            }
            assert(self@.wf());
        }
    }

    /// Records the detected language on one page.
    pub fn set_page_language(&mut self, page_id: usize, lang: &String, now: u64)
        requires
            old(self)@.wf(),
            page_id < old(self)@.pages.len(),
        ensures
            final(self)@.wf(),
            final(self)@ == set_page_language_spec(old(self)@, page_id as int, lang@, now),
    {
        self.pages[page_id].language = Some(lang.clone());
        self.pages[page_id].updated_at = now;
        proof {
            let target = set_page_language_spec(old(self)@, page_id as int, lang@, now);
            let updated_v = PageV {
                language: Some(lang@),
                updated_at: now,
                ..old(self)@.pages[page_id as int]
            };
            assert(old(self)@.pages[page_id as int] == old(self).pages@[page_id as int]@);
            assert(self.pages@ =~= old(self).pages@.update(
                page_id as int,
                self.pages@[page_id as int],
            ));
            assert(self.pages@[page_id as int]@ =~~= updated_v);
            self.lemma_page_update_wf(old(self)@, target, old(self).pages@, page_id as int, updated_v);
        }
    }

    /// Persists the body fingerprint on one page.
    pub fn set_page_technologies(
        &mut self,
        page_id: usize,
        techs: Vec<DatabaseWebTechnology>,
        now: u64,
    )
        requires
            old(self)@.wf(),
            page_id < old(self)@.pages.len(),
        ensures
            final(self)@.wf(),
            final(self)@ == set_technologies_spec(old(self)@, page_id as int, techs_view(techs@), now),
    {
        self.pages[page_id].technologies = Some(techs);
        self.pages[page_id].updated_at = now;
        proof {
            let target = set_technologies_spec(old(self)@, page_id as int, techs_view(techs@), now);
            let updated_v = PageV {
                technologies: Some(techs_view(techs@)),
                updated_at: now,
                ..old(self)@.pages[page_id as int]
            };
            assert(old(self)@.pages[page_id as int] == old(self).pages@[page_id as int]@);
            assert(self.pages@ =~= old(self).pages@.update(
                page_id as int,
                self.pages@[page_id as int],
            ));
            assert(self.pages@[page_id as int]@ =~~= updated_v);
            self.lemma_page_update_wf(old(self)@, target, old(self).pages@, page_id as int, updated_v);
        }
    }

    /// Persists the header fingerprint on one page.
    pub fn set_page_header_technologies(
        &mut self,
        page_id: usize,
        techs: Vec<DatabaseWebTechnology>,
        now: u64,
    )
        requires
            old(self)@.wf(),
            page_id < old(self)@.pages.len(),
        ensures
            final(self)@.wf(),
            final(self)@ == set_header_technologies_spec(
                old(self)@,
                page_id as int,
                techs_view(techs@),
                now,
            ),
    {
        self.pages[page_id].header_technologies = Some(techs);
        self.pages[page_id].updated_at = now;
        proof {
            let target = set_header_technologies_spec(
                old(self)@,
                page_id as int,
                techs_view(techs@),
                now,
            );
            let updated_v = PageV {
                header_technologies: Some(techs_view(techs@)),
                updated_at: now,
                ..old(self)@.pages[page_id as int]
            };
            assert(old(self)@.pages[page_id as int] == old(self).pages@[page_id as int]@);
            assert(self.pages@ =~= old(self).pages@.update(
                page_id as int,
                self.pages@[page_id as int],
            ));
            assert(self.pages@[page_id as int]@ =~~= updated_v);
            self.lemma_page_update_wf(old(self)@, target, old(self).pages@, page_id as int, updated_v);
        }
    }

    /// Marks one page visited: its scrape time moves to `now`.
    pub fn mark_page_visited(&mut self, page_id: usize, now: u64)
        requires
            old(self)@.wf(),
            page_id < old(self)@.pages.len(),
        ensures
            final(self)@.wf(),
            final(self)@ == mark_visited_spec(old(self)@, page_id as int, now),
    {
        self.pages[page_id].last_scraped_at = now;
        self.pages[page_id].updated_at = now;
        proof {
            let target = mark_visited_spec(old(self)@, page_id as int, now);
            let updated_v = PageV {
                last_scraped_at: now,
                updated_at: now,
                ..old(self)@.pages[page_id as int]
            };
            assert(old(self)@.pages[page_id as int] == old(self).pages@[page_id as int]@);
            assert(self.pages@ =~= old(self).pages@.update(
                page_id as int,
                self.pages@[page_id as int],
            ));
            assert(self.pages@[page_id as int]@ =~~= updated_v);
            self.lemma_page_update_wf(old(self)@, target, old(self).pages@, page_id as int, updated_v);
        }
    }

    /// Marks one page failed: crawlable goes false, which is terminal for
    /// this page.
    pub fn mark_page_failed(&mut self, page_id: usize, now: u64)
        requires
            old(self)@.wf(),
            page_id < old(self)@.pages.len(),
        ensures
            final(self)@.wf(),
            final(self)@ == mark_failed_spec(old(self)@, page_id as int, now),
    {
        self.pages[page_id].crawlable = false;
        self.pages[page_id].updated_at = now;
        proof {
            let target = mark_failed_spec(old(self)@, page_id as int, now);
            let updated_v = PageV {
                crawlable: false,
                updated_at: now,
                ..old(self)@.pages[page_id as int]
            };
            assert(old(self)@.pages[page_id as int] == old(self).pages@[page_id as int]@);
            assert(self.pages@ =~= old(self).pages@.update(
                page_id as int,
                self.pages@[page_id as int],
            ));
            assert(self.pages@[page_id as int]@ =~~= updated_v);
            self.lemma_page_update_wf(old(self)@, target, old(self).pages@, page_id as int, updated_v);
        }
    }

    /// After a one-page update that keeps the page's url, owner and
    /// reputation, the store equals the given target and stays
    /// well-formed.
    proof fn lemma_page_update_wf(
        &self,
        pre: StoreV,
        target: StoreV,
        pre_pages: Seq<Page>,
        page_id: int,
        updated_v: PageV,
    )
        requires
            pre.wf(),
            0 <= page_id < pre.pages.len(),
            pages_view(pre_pages) == pre.pages,
            self@.domains == pre.domains,
            target.domains == pre.domains,
            target.pages == pre.pages.update(page_id, updated_v),
            self.pages@ == pre_pages.update(page_id, self.pages@[page_id]),
            self.pages@[page_id]@ == updated_v,
            updated_v.url == pre.pages[page_id].url,
            updated_v.domain_id == pre.pages[page_id].domain_id,
            updated_v.reputation == pre.pages[page_id].reputation,
        ensures
            self@ == target,
            self@.wf(),
    {
        assert(pages_view(pre_pages).len() == pre_pages.len());
        assert(pages_view(self.pages@).len() == self.pages@.len());
        assert forall|k: int| 0 <= k < self@.pages.len() implies #[trigger] self@.pages[k]
            == target.pages[k] by {
            assert(pages_view(self.pages@)[k] == self.pages@[k]@);
            if k != page_id {
                assert(self.pages@[k] == pre_pages[k]);
                assert(pages_view(pre_pages)[k] == pre_pages[k]@);
            }
        }
        assert(self@.pages =~= target.pages);
        assert(self@ =~~= target);
        assert forall|a: int, b: int| 0 <= a < b < self@.pages.len() implies (
        #[trigger] self@.pages[a]).url != (#[trigger] self@.pages[b]).url by {
            assert(self@.pages[a].url == pre.pages[a].url);
            assert(self@.pages[b].url == pre.pages[b].url);
        }
        assert forall|k: int| 0 <= k < self@.pages.len() implies 0 <= (
        #[trigger] self@.pages[k]).domain_id < self@.domains.len() by {
            assert(self@.pages[k].domain_id == pre.pages[k].domain_id);
        }
        assert forall|k: int| 0 <= k < self@.pages.len() implies score_ok(
            (#[trigger] self@.pages[k]).reputation,
        ) by {
            assert(self@.pages[k].reputation == pre.pages[k].reputation);
        }
        assert(self@.wf());
    }

    /// How many pages the domain owns.
    pub fn count_pages_of(&self, domain_id: usize) -> (n: usize)
        ensures
            n as int == count_pages_spec(self@.pages, domain_id as int),
    {
        let mut n: usize = 0;
        let mut i: usize = 0;
        while i < self.pages.len()
            invariant
                i <= self.pages@.len(),
                self@.pages.len() == self.pages@.len(),
                n <= i,
                n as int == count_pages_spec(self@.pages.subrange(0, i as int), domain_id as int),
            decreases self.pages@.len() - i,
        {
            let ghost sub1 = self@.pages.subrange(0, i + 1);
            proof {
                assert(sub1.drop_last() =~= self@.pages.subrange(0, i as int));
                assert(sub1.last() == self@.pages[i as int]);
                assert(self@.pages[i as int] == self.pages@[i as int]@);
            }
            if self.pages[i].domain_id == domain_id {
                n += 1;
            }
            i += 1;
        }
        proof {
            assert(self@.pages.subrange(0, self@.pages.len() as int) =~= self@.pages);
        }
        n
    }
}

/// Law: admitting the same hostname twice hands back the same domain id
/// and leaves the store exactly as the first admission left it — no
/// duplicate domain is ever created, and at most one domain is added.
pub proof fn lemma_admit_domain_idempotent(s: StoreV, host: Seq<char>, now1: u64, now2: u64)
    requires
        s.wf(),
    ensures
        admit_domain_spec(admit_domain_spec(s, host, now1).0, host, now2).0 == admit_domain_spec(
            s,
            host,
            now1,
        ).0,
        admit_domain_spec(admit_domain_spec(s, host, now1).0, host, now2).1 == admit_domain_spec(
            s,
            host,
            now1,
        ).1,
        admit_domain_spec(s, host, now1).0.domains.len() <= s.domains.len() + 1,
        forall|a: int, b: int|
            0 <= a < b < admit_domain_spec(s, host, now1).0.domains.len() ==> (
            #[trigger] admit_domain_spec(s, host, now1).0.domains[a]).host != (
            #[trigger] admit_domain_spec(s, host, now1).0.domains[b]).host,
{
    let (s1, id1) = admit_domain_spec(s, host, now1);
    if has_host(s.domains, host) {
        assert(s1 == s);
        assert(admit_domain_spec(s1, host, now2).0 == s1);
    } else {
        assert(s1.domains == s.domains.push(new_domain_v(host, now1)));
        assert(id1 == s.domains.len());
        assert(s1.domains[id1].host == host);
        assert(has_host(s1.domains, host));
        assert(admit_domain_spec(s1, host, now2).0 == s1);
        let j = host_index(s1.domains, host);
        assert(0 <= j < s1.domains.len() && s1.domains[j].host == host);
        if j < id1 {
            assert(s1.domains[j] == s.domains[j]);
            assert(has_host(s.domains, host));
        }
        assert(j == id1);
        assert forall|a: int, b: int| 0 <= a < b < s1.domains.len() implies (
        #[trigger] s1.domains[a]).host != (#[trigger] s1.domains[b]).host by {
            if b < id1 {
                assert(s1.domains[a] == s.domains[a]);
                assert(s1.domains[b] == s.domains[b]);
            } else {
                assert(s1.domains[a] == s.domains[a]);
                assert(s1.domains[b].host == host);
                assert(!has_host(s.domains, host));
            }
        }
    }
}

} // verus!
