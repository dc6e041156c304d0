//! The sitemap crawler: one site's recursive sitemap-index traversal
//! as a fetch-driven state machine.
//!
//! The crawler itself performs no I/O.  A driver loop asks
//! [`Crawler::next_sitemap`] which sitemap URL to fetch next (each is
//! handed out at most once: the visited set is the single gate) and
//! feeds the fetched document to [`Crawler::process_document`], which
//! extracts the locations, removes exact duplicates, applies the
//! ignore and pattern rules, enqueues nested sitemap references and
//! appends content URLs to the discovered list.  When
//! `next_sitemap` returns `None` the traversal is complete and
//! [`Crawler::into_result`] yields the discovered URL list.  A fetch
//! failure — at the root index or at any nested document — is
//! terminal for the whole site: the driver reports it through
//! [`Crawler::on_fetch_failure`], after which no further fetch is
//! requested and the crawl's result is [`CrawlError::FetchFailed`].

use vstd::prelude::*;
use crate::config::Config;
use crate::pattern::{first_match, str_views};
use crate::seqs::lemma_contains_push;
use crate::sitemaps::{contains_string, extract_loc_urls, valid_locs};
use crate::text::has_sub;
use crate::urls::{
    parse_url, push_index_segment, sitemap_index_of, url_accepted, url_base_capable, url_canon,
    url_path_of, PageUrl, UrlView,
};

verus! {

/// Failure of one site's crawl.
#[derive(Debug, PartialEq, Eq, Structural)]
pub enum CrawlError {
    /// The site origin cannot take path segments, so it has no
    /// sitemap index URL.  Fatal to this site's crawl only.
    InvalidBaseUrl,
    /// A sitemap document could not be fetched.  The whole site crawl
    /// fails fast, root and nested documents alike.
    FetchFailed,
}

/// The path marker that makes a location a nested sitemap reference
/// rather than a content URL.
pub open spec fn nested_marker() -> Seq<char> {
    seq!['s', 'i', 't', 'e', 'm', 'a', 'p', 's', '/']
}

/// The views of a sequence of URLs.
pub open spec fn url_views(v: Seq<PageUrl>) -> Seq<UrlView> {
    v.map_values(|p: PageUrl| p@)
}

/// The mathematical state of one site's crawl.
#[verifier::ext_equal]
pub ghost struct CrawlModel {
    /// Ignore substrings, from the rule set.
    pub ignore_paths: Seq<Seq<char>>,
    /// Route templates in priority order, from the rule set.
    pub patterns: Seq<Seq<char>>,
    /// Sitemap URLs already handed out for fetching.
    pub visited: Seq<Seq<char>>,
    /// Sitemap URLs waiting to be fetched, front first.
    pub pending: Seq<UrlView>,
    /// Route templates that already own a discovered URL.
    pub seen_patterns: Seq<Seq<char>>,
    /// The discovered content URLs, in discovery order.
    pub discovered: Seq<UrlView>,
    /// Whether a sitemap fetch failed; a failed crawl yields no
    /// URLs.
    pub failed: bool,
}

/// Whether the rule set drops this path: it contains one of the
/// ignore substrings.
pub open spec fn ignored_path(ignores: Seq<Seq<char>>, path: Seq<char>) -> bool {
    exists|i: int| 0 <= i < ignores.len() && has_sub(path, ignores[i])
}

/// One candidate location against the crawl state, checked in rule
/// order: the ignore list first, then the pattern dedup slot, and
/// only then the routing decision between the nested-sitemap queue
/// and the discovered list.
pub open spec fn consider_url(m: CrawlModel, u: UrlView) -> CrawlModel {
    if ignored_path(m.ignore_paths, u.path) {
        m
    } else {
        let fm = first_match(u.path, m.patterns);
        if fm matches Some(p) && m.seen_patterns.contains(p) {
            m
        } else {
            let m1 = match fm {
                Option::Some(p) => CrawlModel { seen_patterns: m.seen_patterns.push(p), ..m },
                Option::None => m,
            };
            if has_sub(u.path, nested_marker()) {
                CrawlModel { pending: m1.pending.push(u), ..m1 }
            } else {
                CrawlModel { discovered: m1.discovered.push(u), ..m1 }
            }
        }
    }
}

/// The view a location text parses to.
pub open spec fn parsed_view(t: Seq<char>) -> UrlView {
    UrlView { full: url_canon(t), path: url_path_of(t) }
}

/// The serializations of a sequence of URL views.
pub open spec fn fulls_of(s: Seq<UrlView>) -> Seq<Seq<char>> {
    s.map_values(|u: UrlView| u.full)
}

/// Duplicate removal over URLs, keyed by exact serialization, first
/// occurrence kept in place.
pub open spec fn dedup_urls(s: Seq<UrlView>) -> Seq<UrlView>
    decreases s.len(),
{
    if s.len() == 0 {
        Seq::empty()
    } else {
        let pre = dedup_urls(s.drop_last());
        if fulls_of(pre).contains(s.last().full) {
            pre
        } else {
            pre.push(s.last())
        }
    }
}

/// The candidates one document contributes: its valid locations,
/// parsed, with exact duplicates removed.
pub open spec fn doc_candidates(doc: Seq<char>) -> Seq<UrlView> {
    dedup_urls(valid_locs(doc).map_values(|t: Seq<char>| parsed_view(t)))
}

/// The candidates of a document folded into the crawl state, in
/// document order.
pub open spec fn fold_consider(m: CrawlModel, us: Seq<UrlView>) -> CrawlModel
    decreases us.len(),
{
    if us.len() == 0 {
        m
    } else {
        fold_consider(consider_url(m, us[0]), us.skip(1))
    }
}

/// What processing one fetched document does to the crawl state.
pub open spec fn process_doc_spec(m: CrawlModel, doc: Seq<char>) -> CrawlModel {
    fold_consider(m, doc_candidates(doc))
}

/// The next fetch decision: pending URLs already visited are
/// discarded; the first fresh one is marked visited and handed out.
pub open spec fn pop_next(m: CrawlModel) -> (CrawlModel, Option<UrlView>)
    decreases m.pending.len(),
{
    if m.pending.len() == 0 {
        (m, Option::None)
    } else {
        let u = m.pending[0];
        let m1 = CrawlModel { pending: m.pending.skip(1), ..m };
        if m.visited.contains(u.full) {
            pop_next(m1)
        } else {
            (CrawlModel { visited: m1.visited.push(u.full), ..m1 }, Option::Some(u))
        }
    }
}

/// The ignore substrings a rule set supplies; none without one.
pub open spec fn rules_ignores(rules: Option<Config>) -> Seq<Seq<char>> {
    match rules {
        Option::Some(c) => str_views(c.ignore_paths@),
        Option::None => Seq::empty(),
    }
}

/// The route templates a rule set supplies; none without one.
pub open spec fn rules_patterns(rules: Option<Config>) -> Seq<Seq<char>> {
    match rules {
        Option::Some(c) => str_views(c.patterns@),
        Option::None => Seq::empty(),
    }
}

/// The state a crawl starts from: nothing visited, nothing
/// discovered, the site's sitemap index URL alone in the queue.
pub open spec fn initial_crawl(rules: Option<Config>, origin_full: Seq<char>) -> CrawlModel {
    CrawlModel {
        ignore_paths: rules_ignores(rules),
        patterns: rules_patterns(rules),
        visited: Seq::empty(),
        pending: seq![
            UrlView {
                full: sitemap_index_of(origin_full),
                path: url_path_of(sitemap_index_of(origin_full)),
            },
        ],
        seen_patterns: Seq::empty(),
        discovered: Seq::empty(),
        failed: false,
    }
}

/// What a fetch failure does to the crawl state: the queue is
/// dropped, so no further fetch is requested, and the crawl is
/// marked failed.  Everything gathered so far stays as it is.
pub open spec fn fail_crawl(m: CrawlModel) -> CrawlModel {
    CrawlModel { pending: Seq::empty(), failed: true, ..m }
}

/// Whether the path falls under the rule set's ignore list.
fn path_ignored(ignores: &Vec<String>, path: &str) -> (r: bool)
    ensures
        r == ignored_path(str_views(ignores@), path@),
{
    let mut i: usize = 0;
    while i < ignores.len()
        invariant
            i <= ignores@.len(),
            forall|j: int| 0 <= j < i ==> !has_sub(path@, str_views(ignores@)[j]),
        decreases ignores@.len() - i,
    {
        if crate::text::contains_sub(path, ignores[i].as_str()) {
            proof {
                assert(has_sub(path@, str_views(ignores@)[i as int]));
            }
            return true;
        }
        i = i + 1;
    }
    proof {
        if ignored_path(str_views(ignores@), path@) {
            let j = choose|j: int|
                0 <= j < str_views(ignores@).len() && has_sub(path@, str_views(ignores@)[j]);
            assert(!has_sub(path@, str_views(ignores@)[j]));
        }
    }
    false
}

/// Whether a URL with this serialization occurs in `v`.
fn contains_full(v: &Vec<PageUrl>, x: &String) -> (r: bool)
    ensures
        r == fulls_of(url_views(v@)).contains(x@),
{
    let mut k: usize = 0;
    while k < v.len()
        invariant
            k <= v@.len(),
            forall|t: int| 0 <= t < k ==> fulls_of(url_views(v@))[t] != x@,
        decreases v@.len() - k,
    {
        if v[k].full == *x {
            proof {
                assert(fulls_of(url_views(v@))[k as int] == x@);
            }
            return true;
        }
        k = k + 1;
    }
    proof {
        if fulls_of(url_views(v@)).contains(x@) {
            let t = choose|t: int|
                0 <= t < fulls_of(url_views(v@)).len() && fulls_of(url_views(v@))[t] == x@;
            assert(fulls_of(url_views(v@))[t] != x@);
        }
    }
    false
}

/// The sitemap index URL of a site origin: the origin with the fixed
/// `sitemaps.xml` segment appended to its path.  Fails exactly for
/// origins that cannot take path segments.  The length bound is the
/// `url` crate's own limit on serializations, with room for the
/// appended segment.
pub fn build_sitemap_index_url(base_url: &PageUrl) -> (r: Result<PageUrl, CrawlError>)
    requires
        base_url.full@.len() < 0x15555500,
    ensures
        r is Ok <==> (url_accepted(base_url.full@) && url_base_capable(base_url.full@)),
        r matches Ok(u) ==> u.full@ == sitemap_index_of(base_url.full@),
        r matches Ok(u) ==> u.path@ == url_path_of(sitemap_index_of(base_url.full@)),
        r matches Err(e) ==> e == CrawlError::InvalidBaseUrl,
{
    match push_index_segment(base_url.full.as_str()) {
        Some(u) => Ok(u),
        None => Err(CrawlError::InvalidBaseUrl),
    }
}

/// One site's crawl state.  See the module documentation for the
/// driving protocol.
pub struct Crawler {
    ignore_paths: Vec<String>,
    patterns: Vec<String>,
    visited: Vec<String>,
    pending: Vec<PageUrl>,
    seen_patterns: Vec<String>,
    discovered: Vec<PageUrl>,
    failed: bool,
}

impl View for Crawler {
    type V = CrawlModel;

    closed spec fn view(&self) -> CrawlModel {
        CrawlModel {
            ignore_paths: str_views(self.ignore_paths@),
            patterns: str_views(self.patterns@),
            visited: str_views(self.visited@),
            pending: url_views(self.pending@),
            seen_patterns: str_views(self.seen_patterns@),
            discovered: url_views(self.discovered@),
            failed: self.failed,
        }
    }
}

impl Crawler {
    /// Start a crawl of one site.  The site's sitemap index URL is
    /// the origin with the fixed index segment appended; an origin
    /// that cannot take path segments has none, which aborts this
    /// site's crawl before any fetch.  The length bound is the `url`
    /// crate's own limit on serializations.
    pub fn new(origin: &PageUrl, rules: Option<Config>) -> (r: Result<Crawler, CrawlError>)
        requires
            origin.full@.len() < 0x15555500,
        ensures
            r is Ok <==> (url_accepted(origin.full@) && url_base_capable(origin.full@)),
            r matches Err(e) ==> e == CrawlError::InvalidBaseUrl,
            r matches Ok(c) ==> c@ == initial_crawl(rules, origin.full@),
            r matches Ok(c) ==> crawl_inv(c@),
    {
        match build_sitemap_index_url(origin) {
            Err(e) => Err(e),
            Ok(index_url) => {
                let (ignore_paths, patterns) = match rules {
                    Some(c) => (c.ignore_paths, c.patterns),
                    None => (Vec::new(), Vec::new()),
                };
                let mut pending: Vec<PageUrl> = Vec::new();
                let ghost index_view = index_url@;
                pending.push(index_url);
                let crawler = Crawler {
                    ignore_paths,
                    patterns,
                    visited: Vec::new(),
                    pending,
                    seen_patterns: Vec::new(),
                    discovered: Vec::new(),
                    failed: false,
                };
                proof {
                    assert(url_views(crawler.pending@) =~= seq![index_view]);
                    assert(crawler@ =~= initial_crawl(rules, origin.full@));
                    lemma_inv_empty(crawler@);
                }
                Ok(crawler)
            },
        }
    }

    /// Apply the rule checks to one unique location and route it.
    fn consider(&mut self, u: PageUrl)
        ensures
            final(self)@ == consider_url(old(self)@, u@),
    {
        let ghost m0 = old(self)@;
        if path_ignored(&self.ignore_paths, u.path.as_str()) {
            return;
        }
        match crate::pattern::find_first_pattern(u.path.as_str(), &self.patterns) {
            Some(p) => {
                if contains_string(&self.seen_patterns, &p) {
                    return;
                }
                let ghost old_seen = self.seen_patterns@;
                self.seen_patterns.push(p);
                proof {
                    assert(str_views(self.seen_patterns@) =~= str_views(old_seen).push(
                        first_match(u.path@, m0.patterns)->Some_0,
                    ));
                }
            },
            None => {},
        }
        let ghost m1 = self@;
        proof {
            assert(m1 =~= (match first_match(u@.path, m0.patterns) {
                Option::Some(p) => CrawlModel { seen_patterns: m0.seen_patterns.push(p), ..m0 },
                Option::None => m0,
            }));
        }
        let marker = "sitemaps/";
        proof {
            reveal_strlit("sitemaps/");
            assert(marker@ =~= nested_marker());
        }
        if crate::text::contains_sub(u.path.as_str(), marker) {
            let ghost old_pending = self.pending@;
            let ghost uv = u@;
            self.pending.push(u);
            proof {
                assert(url_views(self.pending@) =~= url_views(old_pending).push(uv));
                assert(self@ =~= (CrawlModel { pending: m1.pending.push(uv), ..m1 }));
            }
        } else {
            let ghost old_disc = self.discovered@;
            let ghost uv = u@;
            self.discovered.push(u);
            proof {
                assert(url_views(self.discovered@) =~= url_views(old_disc).push(uv));
                assert(self@ =~= (CrawlModel { discovered: m1.discovered.push(uv), ..m1 }));
            }
        }
    }

    /// The next sitemap URL to fetch, or `None` when the traversal
    /// is complete.  Every URL handed out is fresh — it was never in
    /// the visited set — and is inserted there in the same step:
    /// that insertion is the single gate that makes a cyclic sitemap
    /// graph safe to walk.
    pub fn next_sitemap(&mut self) -> (r: Option<PageUrl>)
        ensures
            final(self)@ == pop_next(old(self)@).0,
            match r {
                Some(u) => pop_next(old(self)@).1 == Some(u@),
                None => pop_next(old(self)@).1 is None,
            },
            r matches Some(u) ==> !old(self)@.visited.contains(u@.full),
            r matches Some(u) ==> final(self)@.visited == old(self)@.visited.push(u@.full),
            r is None ==> final(self)@.visited == old(self)@.visited && final(self)@.pending.len()
                == 0,
            final(self)@.failed == old(self)@.failed,
            crawl_inv(old(self)@) ==> crawl_inv(final(self)@),
    {
        let ghost orig = old(self)@;
        loop
            invariant
                orig == old(self)@,
                pop_next(orig) == pop_next(self@),
            decreases self@.pending.len(),
        {
            if self.pending.len() == 0 {
                proof {
                    assert(self@.pending.len() == 0);
                    assert(pop_next(self@) == (self@, Option::<UrlView>::None));
                    lemma_pop_next(orig);
                    if crawl_inv(orig) {
                        lemma_pop_inv(orig);
                    }
                }
                return None;
            }
            let ghost m = self@;
            let ghost pend_before = self.pending@;
            let u = self.pending.remove(0);
            proof {
                assert(m.pending[0] == u@);
                assert(pend_before.remove(0) =~= pend_before.skip(1));
                assert(url_views(self.pending@) =~= m.pending.skip(1));
            }
            let fresh = !contains_string(&self.visited, &u.full);
            if fresh {
                let ghost old_vis = self.visited@;
                let ghost uv = u@;
                self.visited.push(u.full.clone());
                proof {
                    assert(str_views(self.visited@) =~= str_views(old_vis).push(uv.full));
                    let m1 = CrawlModel { pending: m.pending.skip(1), ..m };
                    assert(self@ =~= (CrawlModel { visited: m1.visited.push(uv.full), ..m1 }));
                    assert(pop_next(m) == (self@, Option::Some(uv)));
                    lemma_pop_next(orig);
                    if crawl_inv(orig) {
                        lemma_pop_inv(orig);
                    }
                }
                return Some(u);
            }
            proof {
                let m1 = CrawlModel { pending: m.pending.skip(1), ..m };
                assert(self@ =~= m1);
                assert(pop_next(m) == pop_next(m1));
            }
        }
    }

    /// Feed one fetched sitemap document to the crawl: extract its
    /// locations, drop exact duplicates, apply the ignore list and
    /// the pattern dedup, enqueue nested sitemap references and
    /// append content URLs to the discovered list.
    pub fn process_document(&mut self, doc: &str)
        ensures
            final(self)@ == process_doc_spec(old(self)@, doc@),
            final(self)@.visited == old(self)@.visited,
            final(self)@.ignore_paths == old(self)@.ignore_paths,
            final(self)@.patterns == old(self)@.patterns,
            final(self)@.failed == old(self)@.failed,
            crawl_inv(old(self)@) ==> crawl_inv(final(self)@),
    {
        let ghost m0 = old(self)@;
        let texts = extract_loc_urls(doc);
        let mut parsed: Vec<PageUrl> = Vec::new();
        let mut i: usize = 0;
        proof {
            assert(url_views(parsed@) =~= str_views(texts@).map_values(
                |t: Seq<char>| parsed_view(t),
            ).take(0));
        }
        while i < texts.len()
            invariant
                i <= texts@.len(),
                str_views(texts@) == valid_locs(doc@),
                url_views(parsed@) == str_views(texts@).map_values(
                    |t: Seq<char>| parsed_view(t),
                ).take(i as int),
            decreases texts@.len() - i,
        {
            let ghost mapped = str_views(texts@).map_values(|t: Seq<char>| parsed_view(t));
            let ghost old_parsed = parsed@;
            match parse_url(texts[i].as_str()) {
                Some(u) => {
                    proof {
                        assert(u@ =~= parsed_view(str_views(texts@)[i as int]));
                    }
                    parsed.push(u);
                    proof {
                        assert(url_views(parsed@) =~= url_views(old_parsed).push(
                            mapped[i as int],
                        ));
                        assert(mapped.take(i + 1) =~= mapped.take(i as int).push(
                            mapped[i as int],
                        ));
                    }
                },
                None => {
                    proof {
                        crate::sitemaps::lemma_valid_locs_accepted(doc@, i as int);
                    }
                    let u: PageUrl = vstd::pervasive::unreached();
                    parsed.push(u);
                },
            }
            i = i + 1;
        }
        proof {
            let mapped = str_views(texts@).map_values(|t: Seq<char>| parsed_view(t));
            assert(mapped.take(texts@.len() as int) =~= mapped);
        }
        let mut unique: Vec<PageUrl> = Vec::new();
        let mut k: usize = 0;
        proof {
            assert(url_views(parsed@).take(0) =~= Seq::<UrlView>::empty());
        }
        while k < parsed.len()
            invariant
                k <= parsed@.len(),
                url_views(unique@) == dedup_urls(url_views(parsed@).take(k as int)),
            decreases parsed@.len() - k,
        {
            let ghost views = url_views(parsed@);
            let ghost old_unique = unique@;
            let x = &parsed[k];
            let dup = contains_full(&unique, &x.full);
            if !dup {
                unique.push(PageUrl { full: x.full.clone(), path: x.path.clone() });
            }
            proof {
                assert(views.take(k + 1).drop_last() =~= views.take(k as int));
                assert(views.take(k + 1).last() == views[k as int]);
                assert(views[k as int] == x@);
                if !dup {
                    assert(url_views(unique@) =~= url_views(old_unique).push(x@));
                }
            }
            k = k + 1;
        }
        proof {
            assert(url_views(parsed@).take(parsed@.len() as int) =~= url_views(parsed@));
            assert(url_views(unique@) == doc_candidates(doc@));
        }
        let ghost candidates = url_views(unique@);
        let mut q = unique;
        loop
            invariant_except_break
                fold_consider(m0, candidates) == fold_consider(self@, url_views(q@)),
            ensures
                self@ == fold_consider(m0, candidates),
            decreases q@.len(),
        {
            if q.len() == 0 {
                proof {
                    assert(url_views(q@).len() == 0);
                }
                break;
            }
            let ghost qv_old = q@;
            let u = q.remove(0);
            proof {
                assert(u@ == url_views(qv_old)[0]);
                assert(url_views(q@) =~= url_views(qv_old).skip(1)) by {
                    assert(q@ =~= qv_old.remove(0));
                }
            }
            let ghost m_before = self@;
            self.consider(u);
            proof {
                assert(fold_consider(m_before, url_views(qv_old)) == fold_consider(
                    self@,
                    url_views(q@),
                ));
            }
        }
        proof {
            lemma_fold_keeps(m0, candidates);
            if crawl_inv(m0) {
                lemma_fold_inv(m0, candidates);
            }
        }
    }

    /// A sitemap fetch failed — at the root index or at any nested
    /// document.  The whole site's crawl fails fast: the queue is
    /// dropped so no further fetch is requested, and the crawl's
    /// result becomes `FetchFailed`.  This is deliberate isolation:
    /// everything gathered so far stays in place, but none of it is
    /// returned.
    pub fn on_fetch_failure(&mut self)
        ensures
            final(self)@ == fail_crawl(old(self)@),
            final(self)@.visited == old(self)@.visited,
            final(self)@.discovered == old(self)@.discovered,
            final(self)@.pending.len() == 0,
            final(self)@.failed,
            crawl_inv(old(self)@) ==> crawl_inv(final(self)@),
    {
        self.pending = Vec::new();
        self.failed = true;
        proof {
            assert(url_views(self.pending@) =~= Seq::<UrlView>::empty());
            assert(self@ =~= fail_crawl(old(self)@));
            if crawl_inv(old(self)@) {
                lemma_fail_inv(old(self)@);
            }
        }
    }

    /// End the crawl.  A crawl that saw a fetch failure yields
    /// `FetchFailed` and no URLs; any other crawl yields the
    /// discovered URL list in discovery order.
    pub fn into_result(self) -> (r: Result<Vec<PageUrl>, CrawlError>)
        ensures
            r is Ok <==> !self@.failed,
            r matches Ok(v) ==> url_views(v@) == self@.discovered,
            r matches Err(e) ==> e == CrawlError::FetchFailed,
    {
        if self.failed {
            Err(CrawlError::FetchFailed)
        } else {
            Ok(self.discovered)
        }
    }

    /// How many sitemap URLs have been handed out for fetching so
    /// far.
    pub fn visited_count(&self) -> (n: usize)
        ensures
            n == self@.visited.len(),
    {
        self.visited.len()
    }
}

/// What the next-fetch decision leaves alone and what it guarantees:
/// the rule set and the output are untouched; a URL handed out was
/// never visited before and is visited afterwards; exhaustion leaves
/// the visited set as it is and the queue empty.
pub proof fn lemma_pop_next(m: CrawlModel)
    ensures
        pop_next(m).0.ignore_paths == m.ignore_paths,
        pop_next(m).0.patterns == m.patterns,
        pop_next(m).0.seen_patterns == m.seen_patterns,
        pop_next(m).0.discovered == m.discovered,
        pop_next(m).0.failed == m.failed,
        pop_next(m).1 matches Some(u) ==> !m.visited.contains(u.full),
        pop_next(m).1 matches Some(u) ==> pop_next(m).0.visited == m.visited.push(u.full),
        pop_next(m).1 is None ==> pop_next(m).0.visited == m.visited && pop_next(
            m,
        ).0.pending.len() == 0,
    decreases m.pending.len(),
{
    if m.pending.len() > 0 {
        let u = m.pending[0];
        let m1 = CrawlModel { pending: m.pending.skip(1), ..m };
        if m.visited.contains(u.full) {
            lemma_pop_next(m1);
        }
    }
}

/// Whether a URL's first-matching template is already recorded in
/// the pattern dedup set.
pub open spec fn slot_recorded(m: CrawlModel, u: UrlView) -> bool {
    match first_match(u.path, m.patterns) {
        Option::Some(p) => m.seen_patterns.contains(p),
        Option::None => true,
    }
}

/// Two URLs collapse to the same route: both match, and their first
/// matching template is the same one.
pub open spec fn same_first_match(patterns: Seq<Seq<char>>, a: UrlView, b: UrlView) -> bool {
    first_match(a.path, patterns) is Some && first_match(a.path, patterns) == first_match(
        b.path,
        patterns,
    )
}

/// The pattern-collapse invariant of a crawl state: every discovered
/// URL that matches a template holds that template's dedup slot, and
/// no two discovered URLs collapse to the same template.
pub open spec fn collapse_inv(m: CrawlModel) -> bool {
    &&& (forall|i: int|
        0 <= i < m.discovered.len() ==> slot_recorded(m, #[trigger] m.discovered[i]))
    &&& (forall|i: int, j: int|
        0 <= i < j < m.discovered.len() ==> !(#[trigger] same_first_match(
            m.patterns,
            m.discovered[i],
            m.discovered[j],
        )))
}

/// The ignore invariant of a crawl state: no discovered URL's path
/// contains any configured ignore substring.
pub open spec fn ignore_inv(m: CrawlModel) -> bool {
    forall|i: int|
        0 <= i < m.discovered.len() ==> !ignored_path(
            m.ignore_paths,
            (#[trigger] m.discovered[i]).path,
        )
}

/// The invariant every crawl state this crate produces satisfies:
/// the ignore rule and the pattern collapse both hold of the
/// discovered list.
pub open spec fn crawl_inv(m: CrawlModel) -> bool {
    collapse_inv(m) && ignore_inv(m)
}

/// A state with nothing discovered satisfies the crawl invariant; in
/// particular a fresh crawl does.
pub proof fn lemma_inv_empty(m: CrawlModel)
    requires
        m.discovered.len() == 0,
    ensures
        crawl_inv(m),
{
}

/// Considering one URL preserves the ignore invariant: an ignored
/// URL is dropped, and anything appended was not ignored.
pub proof fn lemma_consider_ignore(m: CrawlModel, u: UrlView)
    requires
        ignore_inv(m),
    ensures
        ignore_inv(consider_url(m, u)),
{
    let m2 = consider_url(m, u);
    if !ignored_path(m.ignore_paths, u.path) {
        assert forall|i: int| 0 <= i < m2.discovered.len() implies !ignored_path(
            m2.ignore_paths,
            m2.discovered[i].path,
        ) by {
            if i < m.discovered.len() {
                assert(!ignored_path(m.ignore_paths, m.discovered[i].path));
            }
        }
    }
}

/// Considering one URL preserves the pattern-collapse invariant.
pub proof fn lemma_consider_collapse(m: CrawlModel, u: UrlView)
    requires
        collapse_inv(m),
    ensures
        collapse_inv(consider_url(m, u)),
{
    let m2 = consider_url(m, u);
    if ignored_path(m.ignore_paths, u.path) {
    } else {
        let fm = first_match(u.path, m.patterns);
        if fm matches Some(p) && m.seen_patterns.contains(p) {
        } else {
            let m1 = match fm {
                Option::Some(p) => CrawlModel { seen_patterns: m.seen_patterns.push(p), ..m },
                Option::None => m,
            };
            assert forall|x: Seq<char>| m.seen_patterns.contains(x) implies m1.seen_patterns
                .contains(x) by {
                match fm {
                    Option::Some(p) => {
                        lemma_contains_push(m.seen_patterns, p, x);
                    },
                    Option::None => {},
                }
            }
            match fm {
                Option::Some(p) => {
                    assert(m1.seen_patterns[m.seen_patterns.len() as int] == p);
                    assert(m1.seen_patterns.contains(p));
                },
                Option::None => {},
            }
            if has_sub(u.path, nested_marker()) {
                assert forall|i: int| 0 <= i < m2.discovered.len() implies slot_recorded(
                    m2,
                    m2.discovered[i],
                ) by {
                    assert(slot_recorded(m, m.discovered[i]));
                }
            } else {
                let n = m.discovered.len() as int;
                assert forall|i: int| 0 <= i < m2.discovered.len() implies slot_recorded(
                    m2,
                    m2.discovered[i],
                ) by {
                    if i < n {
                        assert(m2.discovered[i] == m.discovered[i]);
                        assert(slot_recorded(m, m.discovered[i]));
                    } else {
                        assert(m2.discovered[i] == u);
                    }
                }
                assert forall|i: int, j: int|
                    0 <= i < j < m2.discovered.len() implies !(#[trigger] same_first_match(
                    m2.patterns,
                    m2.discovered[i],
                    m2.discovered[j],
                )) by {
                    if j < n {
                        assert(!same_first_match(m.patterns, m.discovered[i], m.discovered[j]));
                    } else {
                        assert(m2.discovered[j] == u);
                        assert(m2.discovered[i] == m.discovered[i]);
                        if same_first_match(m2.patterns, m.discovered[i], u) {
                            assert(first_match(m.discovered[i].path, m.patterns) == fm);
                            assert(slot_recorded(m, m.discovered[i]));
                            assert(false);
                        }
                    }
                }
            }
        }
    }
}

/// Processing a whole document preserves the crawl invariant.
pub proof fn lemma_fold_inv(m: CrawlModel, us: Seq<UrlView>)
    requires
        crawl_inv(m),
    ensures
        crawl_inv(fold_consider(m, us)),
    decreases us.len(),
{
    if us.len() > 0 {
        lemma_consider_collapse(m, us[0]);
        lemma_consider_ignore(m, us[0]);
        lemma_fold_inv(consider_url(m, us[0]), us.skip(1));
    }
}

/// The next-fetch decision preserves the crawl invariant: it touches
/// only the queue and the visited set.
pub proof fn lemma_pop_inv(m: CrawlModel)
    requires
        crawl_inv(m),
    ensures
        crawl_inv(pop_next(m).0),
{
    lemma_pop_next(m);
    let m2 = pop_next(m).0;
    assert forall|i: int| 0 <= i < m2.discovered.len() implies slot_recorded(
        m2,
        m2.discovered[i],
    ) by {
        assert(slot_recorded(m, m.discovered[i]));
    }
    assert forall|i: int, j: int|
        0 <= i < j < m2.discovered.len() implies !(#[trigger] same_first_match(
        m2.patterns,
        m2.discovered[i],
        m2.discovered[j],
    )) by {
        assert(!same_first_match(m.patterns, m.discovered[i], m.discovered[j]));
    }
    assert forall|i: int| 0 <= i < m2.discovered.len() implies !ignored_path(
        m2.ignore_paths,
        m2.discovered[i].path,
    ) by {
        assert(!ignored_path(m.ignore_paths, m.discovered[i].path));
    }
}

/// A fetch failure preserves the crawl invariant: it touches only
/// the queue and the failure mark.
pub proof fn lemma_fail_inv(m: CrawlModel)
    requires
        crawl_inv(m),
    ensures
        crawl_inv(fail_crawl(m)),
{
    let m2 = fail_crawl(m);
    assert forall|i: int| 0 <= i < m2.discovered.len() implies slot_recorded(
        m2,
        m2.discovered[i],
    ) by {
        assert(slot_recorded(m, m.discovered[i]));
    }
    assert forall|i: int, j: int|
        0 <= i < j < m2.discovered.len() implies !(#[trigger] same_first_match(
        m2.patterns,
        m2.discovered[i],
        m2.discovered[j],
    )) by {
        assert(!same_first_match(m.patterns, m.discovered[i], m.discovered[j]));
    }
    assert forall|i: int| 0 <= i < m2.discovered.len() implies !ignored_path(
        m2.ignore_paths,
        m2.discovered[i].path,
    ) by {
        assert(!ignored_path(m.ignore_paths, m.discovered[i].path));
    }
}

/// Pattern collapse: in any crawl state satisfying the invariant —
/// every state this crate's methods produce — no two discovered URLs
/// have the same first-matching route template.  With templates
/// `["/foo/:id"]` and locations `/foo/1`, `/foo/2`, `/foo/3`, at
/// most one of them is discovered.
pub proof fn lemma_pattern_collapse(m: CrawlModel, i: int, j: int)
    requires
        collapse_inv(m),
        0 <= i < j < m.discovered.len(),
        first_match(m.discovered[i].path, m.patterns) is Some,
    ensures
        first_match(m.discovered[i].path, m.patterns) != first_match(
            m.discovered[j].path,
            m.patterns,
        ),
{
    assert(!same_first_match(m.patterns, m.discovered[i], m.discovered[j]));
}

/// Ignore precedence, first half: an ignored URL changes nothing —
/// it is neither discovered nor enqueued, and it does not consume a
/// pattern dedup slot.
pub proof fn lemma_ignored_dropped(m: CrawlModel, u: UrlView)
    requires
        ignored_path(m.ignore_paths, u.path),
    ensures
        consider_url(m, u) == m,
{
}

/// Ignore precedence, second half: after an ignored URL, a
/// non-ignored content URL whose first-matching template is still
/// free is discovered — the ignored URL did not take the slot.
pub proof fn lemma_ignore_precedence(m: CrawlModel, u1: UrlView, u2: UrlView)
    requires
        ignored_path(m.ignore_paths, u1.path),
        !ignored_path(m.ignore_paths, u2.path),
        ({
            let fm = first_match(u2.path, m.patterns);
            fm matches Some(p) && !m.seen_patterns.contains(p)
        }),
        !has_sub(u2.path, nested_marker()),
    ensures
        consider_url(consider_url(m, u1), u2).discovered == m.discovered.push(u2),
{
}

/// Idempotent visitation: a sitemap URL handed out for fetching was
/// never fetched before and is in the visited set from then on, and
/// processing a document never shrinks the visited set.  A crawl
/// therefore fetches each sitemap URL at most once, however often a
/// cyclic sitemap graph references it.
pub proof fn lemma_idempotent_visitation(m: CrawlModel, doc: Seq<char>)
    ensures
        pop_next(m).1 matches Some(u) ==> !m.visited.contains(u.full),
        pop_next(m).1 matches Some(u) ==> pop_next(m).0.visited.contains(u.full),
        process_doc_spec(m, doc).visited == m.visited,
{
    lemma_pop_next(m);
    match pop_next(m).1 {
        Option::Some(u) => {
            assert(pop_next(m).0.visited[m.visited.len() as int] == u.full);
        },
        Option::None => {},
    }
    lemma_fold_keeps(m, doc_candidates(doc));
}

/// Considering one URL never touches the visited set or the rule
/// set.
pub proof fn lemma_consider_keeps(m: CrawlModel, u: UrlView)
    ensures
        consider_url(m, u).visited == m.visited,
        consider_url(m, u).ignore_paths == m.ignore_paths,
        consider_url(m, u).patterns == m.patterns,
        consider_url(m, u).failed == m.failed,
{
}

/// Processing a whole document never touches the visited set or the
/// rule set.
pub proof fn lemma_fold_keeps(m: CrawlModel, us: Seq<UrlView>)
    ensures
        fold_consider(m, us).visited == m.visited,
        fold_consider(m, us).ignore_paths == m.ignore_paths,
        fold_consider(m, us).patterns == m.patterns,
        fold_consider(m, us).failed == m.failed,
    decreases us.len(),
{
    if us.len() > 0 {
        lemma_consider_keeps(m, us[0]);
        lemma_fold_keeps(consider_url(m, us[0]), us.skip(1));
    }
}

} // verus!
