//! The crawl orchestrator: one crawl cycle over a fetched page, and the
//! policy of the continuous loop.
//!
//! Fetching, reputation lookup and name resolution are outside
//! collaborators; their outcomes come in as plain values, and everything
//! decided from them — the once-only reputation guard, graceful
//! degradation to the neutral score, enrichment aborting without stopping
//! the page, link discovery, the visited mark — is verified here.

use vstd::prelude::*;
use crate::store::Store;
use crate::store::StoreV;
use crate::store::MAX_SCORE_HUNDREDTHS;
use crate::store::admit_domain_spec;
use crate::store::admit_page_spec;
use crate::store::set_reputation_spec;
use crate::store::set_ip_spec;
use crate::store::set_technologies_spec;
use crate::store::set_header_technologies_spec;
use crate::store::set_page_language_spec;
use crate::store::add_language_spec;
use crate::store::mark_visited_spec;
use crate::store::mark_failed_spec;
use crate::rules::RuleSet;
use crate::rules::RuleV;
use crate::matcher::match_records;
use crate::matcher::match_body;
use crate::matcher::match_headers;
use crate::matcher::header_values;
use crate::language::DocumentInfo;
use crate::language::DocumentInfoV;
use crate::language::detect_language;
use crate::language::detected_language;
use crate::frontier::selection_ok;
use crate::frontier::exists_eligible;
use crate::frontier::select_next;
use crate::frontier::discover_spec;
use crate::frontier::discover_links;
use crate::frontier::admit_link_spec;
use crate::strutil::extract_host;
use crate::strutil::host_of;

verus! {

/// What a reputation lookup came back with: a score in hundredths on the
/// 0–10 scale, a response with a non-success status, or no response at
/// all.
#[derive(Debug, Clone, Copy, PartialEq, Eq, Structural)]
pub enum ReputationOutcome {
    Score(u32),
    ErrorStatus,
    TransportFailed,
}

/// The score an outcome yields: the reported score, or the neutral zero
/// on either failure — reputation trouble must not stop a crawl.
pub open spec fn outcome_score(o: ReputationOutcome) -> u32 {
    match o {
        ReputationOutcome::Score(s) => s,
        ReputationOutcome::ErrorStatus => 0,
        ReputationOutcome::TransportFailed => 0,
    }
}

/// Reads the score off a lookup outcome, degrading failures to zero.
pub fn reputation_score(o: &ReputationOutcome) -> (r: u32)
    ensures
        r == outcome_score(*o),
{
    match o {
        ReputationOutcome::Score(s) => *s,
        ReputationOutcome::ErrorStatus => 0,
        ReputationOutcome::TransportFailed => 0,
    }
}

/// What a name resolution came back with: the resolved addresses, in
/// order, or failure.
#[derive(Debug)]
pub enum ResolutionOutcome {
    Resolved(Vec<String>),
    Failed,
}

/// The addresses an outcome carries, where it carries any.
pub open spec fn resolution_ips(o: ResolutionOutcome) -> Option<Seq<Seq<char>>> {
    match o {
        ResolutionOutcome::Resolved(v) => Some(v.deep_view()),
        ResolutionOutcome::Failed => None,
    }
}

/// Why one crawl failed: the fetch itself did not come back. Nothing in
/// the store changes for such a page until the loop marks it failed.
#[derive(Debug, Clone, Copy, PartialEq, Eq, Structural)]
pub enum CrawlError {
    Fetch,
}

/// What the continuous loop does next: crawl the given page, or stop —
/// an empty frontier ends the loop, it does not wait for work.
#[derive(Debug, Clone, Copy, PartialEq, Eq, Structural)]
pub enum CrawlStep {
    Crawl(usize),
    Stop,
}

/// What applying a reputation outcome does to the store.
pub open spec fn reputation_spec(s: StoreV, domain_id: int, o: ReputationOutcome) -> StoreV {
    set_reputation_spec(s, domain_id, outcome_score(o))
}

/// Applies the outcome of the one reputation lookup for a domain: the
/// score — neutral zero on failure — lands on the domain and on every
/// page it owns.
pub fn apply_reputation(store: &mut Store, domain_id: usize, outcome: &ReputationOutcome)
    requires
        old(store)@.wf(),
        domain_id < old(store)@.domains.len(),
        *outcome matches ReputationOutcome::Score(sc) ==> sc <= MAX_SCORE_HUNDREDTHS,
    ensures
        final(store)@.wf(),
        final(store)@ == reputation_spec(old(store)@, domain_id as int, *outcome),
{
    let score = reputation_score(outcome);
    store.set_domain_reputation(domain_id, score);
}

/// What applying a resolution outcome does: the first address lands on
/// the domain; failure, or an empty answer, changes nothing.
pub open spec fn resolution_spec(s: StoreV, domain_id: int, o: ResolutionOutcome) -> StoreV {
    match resolution_ips(o) {
        Some(ips) => if ips.len() > 0 {
            set_ip_spec(s, domain_id, ips[0])
        } else {
            s
        },
        None => s,
    }
}

/// Applies a name-resolution outcome. A failed resolution aborts this
/// domain's enrichment and nothing more: the page's crawl goes on.
pub fn apply_resolution(store: &mut Store, domain_id: usize, outcome: &ResolutionOutcome)
    requires
        old(store)@.wf(),
        domain_id < old(store)@.domains.len(),
    ensures
        final(store)@.wf(),
        final(store)@ == resolution_spec(old(store)@, domain_id as int, *outcome),
{
    match outcome {
        ResolutionOutcome::Resolved(ips) => {
            if ips.len() > 0 {
                proof {
                    assert(ips.deep_view()[0] == ips@[0]@);
                }
                store.set_domain_ip(domain_id, &ips[0]);
            }
        },
        ResolutionOutcome::Failed => {},
    }
}

/// What fingerprinting a page does: the body records and the header
/// records land on the page as two separate lists.
pub open spec fn fingerprint_spec(
    s: StoreV,
    page_id: int,
    body_rules: Seq<RuleV>,
    header_rules: Seq<RuleV>,
    body: Seq<char>,
    header_vals: Seq<Seq<char>>,
    now: u64,
) -> StoreV {
    set_header_technologies_spec(
        set_technologies_spec(s, page_id, match_records(body_rules, seq![body]), now),
        page_id,
        match_records(header_rules, header_vals),
        now,
    )
}

/// Fingerprints a fetched page: the body against the body rules, every
/// header value against the header rules, both persisted on the page.
pub fn fingerprint_page(
    store: &mut Store,
    page_id: usize,
    body: &String,
    headers: &Vec<(String, String)>,
    body_rules: &RuleSet,
    header_rules: &RuleSet,
    now: u64,
)
    requires
        old(store)@.wf(),
        page_id < old(store)@.pages.len(),
    ensures
        final(store)@.wf(),
        final(store)@ == fingerprint_spec(
            old(store)@,
            page_id as int,
            body_rules@,
            header_rules@,
            body@,
            header_values(headers@),
            now,
        ),
{
    let techs = match_body(body_rules, body);
    store.set_page_technologies(page_id, techs, now);
    let header_techs = match_headers(header_rules, headers);
    store.set_page_header_technologies(page_id, header_techs, now);
}

/// What recording a page's detected language does: where detection
/// yields a language, it lands on the page and in the owning domain's
/// cumulative set; where it yields nothing, the store does not change.
pub open spec fn language_spec(s: StoreV, page_id: int, d: DocumentInfoV, now: u64) -> StoreV {
    match detected_language(d) {
        Some(l) => add_language_spec(
            set_page_language_spec(s, page_id, l, now),
            s.pages[page_id].domain_id,
            l,
        ),
        None => s,
    }
}

/// Runs language detection over what was read from the page and records
/// the result, if there is one.
pub fn record_language(store: &mut Store, page_id: usize, info: &DocumentInfo, now: u64)
    requires
        old(store)@.wf(),
        page_id < old(store)@.pages.len(),
    ensures
        final(store)@.wf(),
        final(store)@ == language_spec(old(store)@, page_id as int, info@, now),
{
    let lang = detect_language(info);
    match lang {
        Some(l) => {
            let domain_id = store.pages[page_id].domain_id;
            proof {
                assert(store@.pages[page_id as int] == store.pages@[page_id as int]@);
            }
            store.set_page_language(page_id, &l, now);
            store.add_domain_language(domain_id, &l);
        },
        None => {},
    }
}

/// The orchestrator of the crawl: remembers which site it is working on
/// and drives one cycle — admit, enrich, fingerprint, discover, mark.
#[derive(Debug)]
pub struct Scrapper {
    pub site_url: String,
    pub site_domain: String,
}

/// What starting a crawl does to the store, and what it hands back:
/// the store after domain and page admission, the two ids, and whether a
/// reputation lookup is still owed for this domain.
pub open spec fn begin_spec(s: StoreV, url: Seq<char>, now: u64) -> (StoreV, int, int, bool) {
    let (s1, did) = admit_domain_spec(s, host_of(url), now);
    let (s2, pid) = admit_page_spec(s1, url, did, now);
    (s2, did, pid, s2.domains[did].reputation is None)
}

impl Scrapper {
    /// A fresh orchestrator, not yet working on any site.
    pub fn new() -> (s: Self)
        ensures
            s.site_url@ == Seq::<char>::empty(),
            s.site_domain@ == Seq::<char>::empty(),
    {
        Scrapper { site_url: String::new(), site_domain: String::new() }
    }

    /// Starts one crawl of a fetched URL: extracts the host, admits
    /// domain and page idempotently, remembers the site, and says
    /// whether the one reputation lookup for this domain is still owed —
    /// reputation is fetched at most once per domain, guarded by the
    /// stored value's presence.
    pub fn begin_crawl(&mut self, store: &mut Store, url: &String, now: u64) -> (r: (
        usize,
        usize,
        bool,
    ))
        requires
            old(store)@.wf(),
        ensures
            final(store)@.wf(),
            final(store)@ == begin_spec(old(store)@, url@, now).0,
            r.0 as int == begin_spec(old(store)@, url@, now).1,
            r.1 as int == begin_spec(old(store)@, url@, now).2,
            r.2 == begin_spec(old(store)@, url@, now).3,
            r.0 < final(store)@.domains.len(),
            r.1 < final(store)@.pages.len(),
            r.2 == (final(store)@.domains[r.0 as int].reputation is None),
            final(self).site_url@ == url@,
            final(self).site_domain@ == host_of(url@),
    {
        let host = extract_host(url.as_str());
        let domain_id = store.admit_domain(&host, now);
        let page_id = store.admit_page(url, domain_id, now);
        self.site_url = url.clone();
        self.site_domain = host;
        proof {
            assert(store@.domains[domain_id as int] == store.domains@[domain_id as int]@);
        }
        let need = store.domains[domain_id].reputation.is_none();
        (domain_id, page_id, need)
    }
}

/// Admitting links never removes anything: domain and page counts only
/// grow.
pub proof fn lemma_discover_grows(
    s: StoreV,
    hrefs: Seq<Seq<char>>,
    origin: Seq<char>,
    deny: Seq<Seq<char>>,
    now: u64,
)
    ensures
        discover_spec(s, hrefs, origin, deny, now).pages.len() >= s.pages.len(),
        discover_spec(s, hrefs, origin, deny, now).domains.len() >= s.domains.len(),
    decreases hrefs.len(),
{
    if hrefs.len() == 0 {
    } else {
        let s1 = admit_link_spec(s, hrefs[0], origin, deny, now).0;
        assert(s1.pages.len() >= s.pages.len() && s1.domains.len() >= s.domains.len());
        lemma_discover_grows(s1, hrefs.skip(1), origin, deny, now);
    }
}

/// What one whole crawl cycle over a fetched page does, after the fetch
/// itself: the owed reputation outcome (where one was owed), the
/// resolution outcome, both fingerprints, the detected language, every
/// discovered link, and finally the visited mark with `now` as the new
/// scrape time.
pub open spec fn complete_spec(
    s: StoreV,
    page_id: int,
    domain_id: int,
    rep: Option<ReputationOutcome>,
    res: ResolutionOutcome,
    body_rules: Seq<RuleV>,
    header_rules: Seq<RuleV>,
    body: Seq<char>,
    header_vals: Seq<Seq<char>>,
    d: DocumentInfoV,
    hrefs: Seq<Seq<char>>,
    origin: Seq<char>,
    deny: Seq<Seq<char>>,
    now: u64,
) -> StoreV {
    let s1 = match rep {
        Some(o) => reputation_spec(s, domain_id, o),
        None => s,
    };
    let s2 = resolution_spec(s1, domain_id, res);
    let s3 = fingerprint_spec(s2, page_id, body_rules, header_rules, body, header_vals, now);
    let s4 = language_spec(s3, page_id, d, now);
    let s5 = discover_spec(s4, hrefs, origin, deny, now);
    mark_visited_spec(s5, page_id, now)
}

/// Drives the rest of one crawl cycle, once the page is fetched and the
/// owed outside lookups are in hand. `reputation` must carry an outcome
/// exactly where the domain's score is still unset — the at-most-once
/// guard — and the cycle ends with the page marked visited.
pub fn complete_crawl(
    store: &mut Store,
    page_id: usize,
    domain_id: usize,
    reputation: &Option<ReputationOutcome>,
    resolution: &ResolutionOutcome,
    body: &String,
    headers: &Vec<(String, String)>,
    body_rules: &RuleSet,
    header_rules: &RuleSet,
    info: &DocumentInfo,
    hrefs: &Vec<String>,
    origin: &String,
    deny: &Vec<String>,
    now: u64,
)
    requires
        old(store)@.wf(),
        page_id < old(store)@.pages.len(),
        domain_id < old(store)@.domains.len(),
        (*reputation is Some) == (old(store)@.domains[domain_id as int].reputation is None),
        *reputation matches Some(o) ==> (o matches ReputationOutcome::Score(sc) ==> sc
            <= MAX_SCORE_HUNDREDTHS),
    ensures
        final(store)@.wf(),
        final(store)@ == complete_spec(
            old(store)@,
            page_id as int,
            domain_id as int,
            *reputation,
            *resolution,
            body_rules@,
            header_rules@,
            body@,
            header_values(headers@),
            info@,
            hrefs.deep_view(),
            origin@,
            deny.deep_view(),
            now,
        ),
{
    match reputation {
        Some(o) => apply_reputation(store, domain_id, o),
        None => {},
    }
    apply_resolution(store, domain_id, resolution);
    fingerprint_page(store, page_id, body, headers, body_rules, header_rules, now);
    record_language(store, page_id, info, now);
    let ghost before_links = store@;
    discover_links(store, hrefs, origin, deny, now);
    proof {
        lemma_discover_grows(before_links, hrefs.deep_view(), origin@, deny.deep_view(), now);
    }
    store.mark_page_visited(page_id, now);
}

/// The continuous loop's one decision: crawl the next eligible page, or
/// stop — an empty frontier is a stop condition, not a wait condition.
pub fn next_action(store: &Store, now: u64) -> (r: CrawlStep)
    ensures
        match r {
            CrawlStep::Crawl(i) => selection_ok(store@, now, Some(i as int)),
            CrawlStep::Stop => !exists_eligible(store@, now),
        },
{
    match select_next(store, now) {
        Some(i) => CrawlStep::Crawl(i),
        None => CrawlStep::Stop,
    }
}

/// What the loop does after a failed crawl: the page is marked failed —
/// crawlable goes false, terminally — and the loop goes on.
pub fn record_failure(store: &mut Store, page_id: usize, now: u64)
    requires
        old(store)@.wf(),
        page_id < old(store)@.pages.len(),
    ensures
        final(store)@.wf(),
        final(store)@ == mark_failed_spec(old(store)@, page_id as int, now),
{
    store.mark_page_failed(page_id, now);
}

} // verus!
