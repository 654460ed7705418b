//! The crawl engine as a state machine. It decides which URL to fetch next,
//! how long to pause before the fetch, how a fetched page is classified and
//! which of its links join the frontier. The caller performs each fetch and
//! reports what came back.
use vstd::prelude::*;
use crate::address::{key_of, resolution_of, resolve, Resolution, ResolutionView, UrlView, WebUrl};
use crate::page::{is_hit, links_of, selector_parses, CssRule, Page};
use crate::rules::{admits, Admission};
use crate::visited::VisitedSet;

verus! {

/// User name and password sent with every request.
#[derive(Clone, Debug)]
pub struct Credentials {
    pub user: String,
    pub pass: String,
}

/// Everything a crawl is configured with. It does not change during a crawl.
pub struct RuleSet {
    /// Where the crawl starts, in order.
    pub seeds: Vec<WebUrl>,
    /// Which URLs may be fetched.
    pub admission: Admission,
    /// Carried for the caller; the engine does not read robots files.
    pub respect_robots: bool,
    /// Selects the elements whose `href` are followed; `a[href]` when absent.
    pub link_rule: Option<CssRule>,
    /// A page is a hit when this selects something; every page is when absent.
    pub match_rule: Option<CssRule>,
    /// Pause between consecutive fetches, in milliseconds.
    pub delay_ms: u64,
    /// Sent with every request when present.
    pub credentials: Option<Credentials>,
}

/// Why a crawl could not start. Nothing has been fetched when this comes.
#[derive(Clone, Copy, Debug, PartialEq, Eq, Structural)]
pub enum StartError {
    /// The seed at this index is refused by the rule set's own admission rules.
    SeedRejected(usize),
    /// No link rule was given and the default one could not be compiled.
    DefaultLinkRule,
}

/// The next fetch to perform: wait `pause_ms` milliseconds, then fetch `url`.
pub struct FetchOrder {
    pub url: WebUrl,
    pub pause_ms: u64,
}

/// What a finished crawl found.
pub struct CrawlOutcome {
    /// Fetched pages that matched.
    pub hits: Vec<WebUrl>,
    /// Fetched pages that did not match.
    pub misses: Vec<WebUrl>,
    /// URLs whose fetch failed, so their links were never followed.
    pub unexhausted: Vec<WebUrl>,
}

/// One crawl in progress.
pub struct Crawl {
    admission: Admission,
    link_rule: CssRule,
    match_rule: Option<CssRule>,
    delay_ms: u64,
    credentials: Option<Credentials>,
    respect_robots: bool,
    frontier: Vec<WebUrl>,
    cursor: usize,
    visited: VisitedSet,
    started: bool,
    hits: Vec<WebUrl>,
    misses: Vec<WebUrl>,
    unexhausted: Vec<WebUrl>,
}

/// The model of a [`Crawl`].
pub struct CrawlView {
    pub admission: Admission,
    pub link_rule: Seq<char>,
    pub match_rule: Option<Seq<char>>,
    pub delay_ms: u64,
    pub credentials: Option<Credentials>,
    pub respect_robots: bool,
    /// Every URL queued so far; those before `cursor` have been taken.
    pub frontier: Seq<UrlView>,
    pub cursor: int,
    /// Keys of the URLs taken from the frontier.
    pub visited: Set<Seq<char>>,
    /// Whether a fetch has been ordered yet.
    pub started: bool,
    pub hits: Seq<UrlView>,
    pub misses: Seq<UrlView>,
    pub unexhausted: Seq<UrlView>,
}

pub open spec fn urls(v: Seq<WebUrl>) -> Seq<UrlView> {
    v.map_values(|u: WebUrl| u@)
}

pub open spec fn rule_source(r: Option<CssRule>) -> Option<Seq<char>> {
    match r {
        Some(c) => Some(c.source()),
        None => None,
    }
}

/// The selector that picks links when the rule set names none.
pub open spec fn default_link_rule() -> Seq<char> {
    "a[href]"@
}

/// Whether every seed is admitted by the rule set's own admission rules.
pub open spec fn seeds_admitted(a: Admission, seeds: Seq<WebUrl>) -> bool {
    forall|i: int| 0 <= i < seeds.len() ==> admits(a, #[trigger] seeds[i]@.text)
}

/// Whether some URL of the frontier from `cursor` on has a key outside `visited`.
pub open spec fn has_pending(frontier: Seq<UrlView>, cursor: int, visited: Set<Seq<char>>) -> bool {
    exists|k: int| cursor <= k < frontier.len() && !visited.contains(key_of(#[trigger] frontier[k].text))
}

/// The URLs that the link targets `hrefs`, found on page `base`, add to the
/// frontier: those that resolve, are admitted and whose key is not visited,
/// in order, duplicates kept.
pub open spec fn new_targets(
    a: Admission,
    visited: Set<Seq<char>>,
    base: UrlView,
    hrefs: Seq<Seq<char>>,
) -> Seq<UrlView>
    decreases hrefs.len(),
{
    if hrefs.len() == 0 {
        Seq::empty()
    } else {
        let rest = new_targets(a, visited, base, hrefs.drop_last());
        match resolution_of(base, hrefs.last()) {
            ResolutionView::Resolved(u) => {
                if admits(a, u.text) && !visited.contains(key_of(u.text)) {
                    rest.push(u)
                } else {
                    rest
                }
            },
            _ => rest,
        }
    }
}

/// The link targets among `hrefs` that could not be resolved, in order.
pub open spec fn malformed(base: UrlView, hrefs: Seq<Seq<char>>) -> Seq<Seq<char>>
    decreases hrefs.len(),
{
    if hrefs.len() == 0 {
        Seq::empty()
    } else {
        let rest = malformed(base, hrefs.drop_last());
        match resolution_of(base, hrefs.last()) {
            ResolutionView::Malformed => rest.push(hrefs.last()),
            _ => rest,
        }
    }
}

pub open spec fn strs(v: Seq<String>) -> Seq<Seq<char>> {
    v.map_values(|s: String| s@)
}

/// The state after the page at `u` was classified.
pub open spec fn with_visit(c: CrawlView, u: UrlView, hit: bool) -> CrawlView {
    if hit {
        CrawlView { hits: c.hits.push(u), ..c }
    } else {
        CrawlView { misses: c.misses.push(u), ..c }
    }
}

/// The state after the link targets `hrefs` of page `base` were queued.
pub open spec fn with_links(c: CrawlView, base: UrlView, hrefs: Seq<Seq<char>>) -> CrawlView {
    CrawlView { frontier: c.frontier + new_targets(c.admission, c.visited, base, hrefs), ..c }
}

/// The state after the fetch of `u` failed.
pub open spec fn with_failure(c: CrawlView, u: UrlView) -> CrawlView {
    CrawlView { unexhausted: c.unexhausted.push(u), ..c }
}

/// Takes the next frontier entry whose key is not visited, marking it visited.
fn take_next(frontier: &Vec<WebUrl>, cursor: &mut usize, visited: &mut VisitedSet) -> (r: Option<usize>)
    requires
        old(visited).wf(),
        *old(cursor) <= frontier@.len(),
    ensures
        final(visited).wf(),
        *old(cursor) <= *final(cursor) <= frontier@.len(),
        r is Some <==> has_pending(urls(frontier@), *old(cursor) as int, old(visited)@),
        match r {
            Some(j) => {
                &&& j == *final(cursor) - 1
                &&& *old(cursor) <= j
                &&& !old(visited)@.contains(key_of(frontier@[j as int]@.text))
                &&& final(visited)@ == old(visited)@.insert(key_of(frontier@[j as int]@.text))
                &&& forall|k: int|
                    *old(cursor) <= k < j ==> old(visited)@.contains(
                        key_of(#[trigger] frontier@[k]@.text),
                    )
            },
            None => {
                &&& *final(cursor) == frontier@.len()
                &&& final(visited)@ == old(visited)@
            },
        },
{
    let ghost c0 = *cursor;
    while *cursor < frontier.len()
        invariant
            visited.wf(),
            visited@ == old(visited)@,
            c0 == *old(cursor),
            c0 <= *cursor <= frontier@.len(),
            forall|k: int| c0 <= k < *cursor ==> old(visited)@.contains(key_of(#[trigger] frontier@[k]@.text)),
        decreases frontier@.len() - *cursor,
    {
        let key = frontier[*cursor].key();
        *cursor = *cursor + 1;
        let ghost before = visited@;
        if visited.insert(key) {
            proof {
                let j = *cursor - 1;
                assert(urls(frontier@)[j as int] == frontier@[j as int]@);
                assert(!old(visited)@.contains(key_of(urls(frontier@)[j as int].text)));
            }
            return Some(*cursor - 1);
        }
        proof {
            assert(visited@ =~= before);
        }
    }
    proof {
        if has_pending(urls(frontier@), c0 as int, old(visited)@) {
            let k = choose|k: int|
                c0 <= k < urls(frontier@).len() && !old(visited)@.contains(
                    key_of(#[trigger] urls(frontier@)[k].text),
                );
            assert(urls(frontier@)[k] == frontier@[k]@);
        }
    }
    None
}

/// Appends to `frontier` the URLs that `hrefs`, found on page `base`, lead to
/// and that may be crawled; returns the targets that could not be resolved.
fn extend_frontier(
    admission: &Admission,
    visited: &VisitedSet,
    frontier: &mut Vec<WebUrl>,
    base: &WebUrl,
    hrefs: &Vec<String>,
) -> (r: Vec<String>)
    ensures
        urls(final(frontier)@) == urls(old(frontier)@) + new_targets(
            *admission,
            visited@,
            base@,
            strs(hrefs@),
        ),
        strs(r@) == malformed(base@, strs(hrefs@)),
{
    let mut reported: Vec<String> = Vec::new();
    let mut i: usize = 0;
    while i < hrefs.len()
        invariant
            0 <= i <= hrefs@.len(),
            urls(frontier@) == urls(old(frontier)@) + new_targets(
                *admission,
                visited@,
                base@,
                strs(hrefs@.subrange(0, i as int)),
            ),
            strs(reported@) == malformed(base@, strs(hrefs@.subrange(0, i as int))),
        decreases hrefs@.len() - i,
    {
        let ghost hs = strs(hrefs@.subrange(0, i as int + 1));
        proof {
            assert(hs.drop_last() =~= strs(hrefs@.subrange(0, i as int)));
            assert(hs.last() == hrefs@[i as int]@);
        }
        let ghost f0 = urls(frontier@);
        let ghost r0 = strs(reported@);
        match resolve(base, hrefs[i].as_str()) {
            Resolution::Resolved(u) => {
                if admission.is_admitted(u.as_str()) {
                    let key = u.key();
                    if !visited.contains(&key) {
                        let ghost uv = u@;
                        frontier.push(u);
                        proof {
                            assert(urls(frontier@) =~= f0.push(uv));
                        }
                    }
                }
            },
            Resolution::Malformed => {
                reported.push(hrefs[i].clone());
                proof {
                    assert(strs(reported@) =~= r0.push(hrefs@[i as int]@));
                }
            },
            Resolution::Fragment => {},
        }
        i = i + 1;
    }
    proof {
        assert(hrefs@.subrange(0, hrefs@.len() as int) =~= hrefs@);
    }
    reported
}

impl View for Crawl {
    type V = CrawlView;

    closed spec fn view(&self) -> CrawlView {
        CrawlView {
            admission: self.admission,
            link_rule: self.link_rule.source(),
            match_rule: rule_source(self.match_rule),
            delay_ms: self.delay_ms,
            credentials: self.credentials,
            respect_robots: self.respect_robots,
            frontier: urls(self.frontier@),
            cursor: self.cursor as int,
            visited: self.visited@,
            started: self.started,
            hits: urls(self.hits@),
            misses: urls(self.misses@),
            unexhausted: urls(self.unexhausted@),
        }
    }
}

impl Crawl {
    /// The internal invariant: the visited set holds each key once and the
    /// cursor stays within the frontier.
    pub closed spec fn wf(&self) -> bool {
        &&& self.visited.wf()
        &&& self.cursor <= self.frontier@.len()
    }

    /// Starts a crawl of `rules.seeds`. Fails, before anything is fetched,
    /// when a seed is refused by the rule set's own admission rules.
    pub fn start(rules: RuleSet) -> (r: Result<Crawl, StartError>)
        ensures
            match r {
                Err(StartError::SeedRejected(i)) => {
                    &&& i < rules.seeds@.len()
                    &&& !admits(rules.admission, rules.seeds@[i as int]@.text)
                    &&& forall|j: int| 0 <= j < i ==> admits(rules.admission, #[trigger] rules.seeds@[j]@.text)
                },
                Err(StartError::DefaultLinkRule) => {
                    &&& seeds_admitted(rules.admission, rules.seeds@)
                    &&& rules.link_rule is None
                    &&& !selector_parses(default_link_rule())
                },
                Ok(c) => {
                    &&& seeds_admitted(rules.admission, rules.seeds@)
                    &&& (rules.link_rule is Some || selector_parses(default_link_rule()))
                    &&& c.wf()
                    &&& c@.admission == rules.admission
                    &&& c@.link_rule == match rules.link_rule {
                        Some(l) => l.source(),
                        None => default_link_rule(),
                    }
                    &&& c@.match_rule == rule_source(rules.match_rule)
                    &&& c@.delay_ms == rules.delay_ms
                    &&& c@.credentials == rules.credentials
                    &&& c@.respect_robots == rules.respect_robots
                    &&& c@.frontier == urls(rules.seeds@)
                    &&& c@.cursor == 0
                    &&& c@.visited == Set::<Seq<char>>::empty()
                    &&& !c@.started
                    &&& c@.hits.len() == 0
                    &&& c@.misses.len() == 0
                    &&& c@.unexhausted.len() == 0
                },
            },
    {
        let mut i: usize = 0;
        while i < rules.seeds.len()
            invariant
                0 <= i <= rules.seeds@.len(),
                forall|j: int| 0 <= j < i ==> admits(rules.admission, #[trigger] rules.seeds@[j]@.text),
            decreases rules.seeds@.len() - i,
        {
            if !rules.admission.is_admitted(rules.seeds[i].as_str()) {
                return Err(StartError::SeedRejected(i));
            }
            i = i + 1;
        }
        let RuleSet {
            seeds,
            admission,
            respect_robots,
            link_rule,
            match_rule,
            delay_ms,
            credentials,
        } = rules;
        let link_rule = match link_rule {
            Some(l) => l,
            None => {
                proof {
                    reveal_strlit("a[href]");
                }
                match CssRule::parse("a[href]") {
                    Ok(l) => l,
                    Err(_) => {
                        return Err(StartError::DefaultLinkRule);
                    },
                }
            },
        };
        let c = Crawl {
            admission,
            link_rule,
            match_rule,
            delay_ms,
            credentials,
            respect_robots,
            frontier: seeds,
            cursor: 0,
            visited: VisitedSet::new(),
            started: false,
            hits: Vec::new(),
            misses: Vec::new(),
            unexhausted: Vec::new(),
        };
        proof {
            assert(c@.hits.len() == 0);
        }
        Ok(c)
    }

    /// Decides the next fetch: the first URL of the frontier not yet visited,
    /// which becomes visited before it is fetched. The pause is zero before
    /// the first fetch and the rule set's delay before every later one.
    /// `None` when the frontier is exhausted: the crawl is over.
    pub fn next_fetch(&mut self) -> (r: Option<FetchOrder>)
        requires
            old(self).wf(),
        ensures
            final(self).wf(),
            r is Some <==> has_pending(old(self)@.frontier, old(self)@.cursor, old(self)@.visited),
            final(self)@.admission == old(self)@.admission,
            final(self)@.link_rule == old(self)@.link_rule,
            final(self)@.match_rule == old(self)@.match_rule,
            final(self)@.delay_ms == old(self)@.delay_ms,
            final(self)@.credentials == old(self)@.credentials,
            final(self)@.respect_robots == old(self)@.respect_robots,
            final(self)@.frontier == old(self)@.frontier,
            final(self)@.hits == old(self)@.hits,
            final(self)@.misses == old(self)@.misses,
            final(self)@.unexhausted == old(self)@.unexhausted,
            match r {
                Some(order) => {
                    let j = final(self)@.cursor - 1;
                    &&& old(self)@.cursor <= j < old(self)@.frontier.len()
                    &&& order.url@ == old(self)@.frontier[j]
                    &&& !old(self)@.visited.contains(key_of(order.url@.text))
                    &&& forall|k: int|
                        old(self)@.cursor <= k < j ==> old(self)@.visited.contains(
                            key_of(#[trigger] old(self)@.frontier[k].text),
                        )
                    &&& final(self)@.visited == old(self)@.visited.insert(key_of(order.url@.text))
                    &&& order.pause_ms == (if old(self)@.started {
                        old(self)@.delay_ms
                    } else {
                        0
                    })
                    &&& final(self)@.started
                },
                None => {
                    &&& final(self)@.cursor == old(self)@.frontier.len()
                    &&& final(self)@.visited == old(self)@.visited
                    &&& final(self)@.started == old(self)@.started
                },
            },
    {
        match take_next(&self.frontier, &mut self.cursor, &mut self.visited) {
            Some(j) => {
                proof {
                    assert(urls(self.frontier@)[j as int] == self.frontier@[j as int]@);
                    assert forall|k: int|
                        old(self)@.cursor <= k < j implies old(self)@.visited.contains(
                            key_of(#[trigger] old(self)@.frontier[k].text),
                        ) by {
                        assert(urls(self.frontier@)[k] == self.frontier@[k]@);
                    }
                }
                let url = self.frontier[j].duplicate();
                let pause_ms = if self.started {
                    self.delay_ms
                } else {
                    0
                };
                self.started = true;
                Some(FetchOrder { url, pause_ms })
            },
            None => None,
        }
    }

    /// Records that `url` was fetched and classified: a hit or a miss.
    pub fn record_visit(&mut self, url: &WebUrl, hit: bool)
        ensures
            final(self)@ == with_visit(old(self)@, url@, hit),
            final(self).wf() == old(self).wf(),
    {
        let ghost h0 = self.hits@;
        let ghost m0 = self.misses@;
        if hit {
            self.hits.push(url.duplicate());
            proof {
                assert(urls(self.hits@) =~= urls(h0).push(url@));
            }
        } else {
            self.misses.push(url.duplicate());
            proof {
                assert(urls(self.misses@) =~= urls(m0).push(url@));
            }
        }
    }

    /// Queues the URLs that the link targets `hrefs`, found on page `base`,
    /// lead to: those that resolve, are admitted and are not yet visited.
    /// Returns the targets that could not be resolved, for reporting; the
    /// fragment-only ones are dropped silently.
    pub fn absorb_links(&mut self, base: &WebUrl, hrefs: &Vec<String>) -> (r: Vec<String>)
        ensures
            final(self)@ == with_links(old(self)@, base@, strs(hrefs@)),
            old(self).wf() ==> final(self).wf(),
            strs(r@) == malformed(base@, strs(hrefs@)),
    {
        let r = extend_frontier(&self.admission, &self.visited, &mut self.frontier, base, hrefs);
        proof {
            assert(urls(self.frontier@).len() == self.frontier@.len());
        }
        r
    }

    /// Handles the page fetched from `url` with text `body`: records it as a
    /// hit or a miss, then queues its links. Returns the link targets that
    /// could not be resolved, for reporting.
    pub fn page_fetched(&mut self, url: &WebUrl, body: &str) -> (r: Vec<String>)
        ensures
            old(self).wf() ==> final(self).wf(),
            final(self)@ == with_links(
                with_visit(old(self)@, url@, is_hit(body@, old(self)@.match_rule)),
                url@,
                links_of(body@, old(self)@.link_rule),
            ),
            strs(r@) == malformed(url@, links_of(body@, old(self)@.link_rule)),
    {
        let page = Page::parse(body);
        let hit = page.matches(self.match_rule.as_ref());
        let links = page.links(&self.link_rule);
        self.record_visit(url, hit);
        self.absorb_links(url, &links)
    }

    /// Records that fetching `url` failed: its links will not be followed.
    pub fn fetch_failed(&mut self, url: WebUrl)
        ensures
            final(self)@ == with_failure(old(self)@, url@),
            final(self).wf() == old(self).wf(),
    {
        let ghost u0 = self.unexhausted@;
        let ghost uv = url@;
        self.unexhausted.push(url);
        proof {
            assert(urls(self.unexhausted@) =~= urls(u0).push(uv));
        }
    }

    /// Ends the crawl and hands over what it found.
    pub fn finish(self) -> (r: CrawlOutcome)
        ensures
            urls(r.hits@) == self@.hits,
            urls(r.misses@) == self@.misses,
            urls(r.unexhausted@) == self@.unexhausted,
    {
        CrawlOutcome { hits: self.hits, misses: self.misses, unexhausted: self.unexhausted }
    }

    /// The credentials to send with every request.
    pub fn credentials(&self) -> (r: &Option<Credentials>)
        ensures
            *r == self@.credentials,
    {
        &self.credentials
    }

    /// Whether the rule set asked for robots files to be respected.
    pub fn respect_robots(&self) -> (r: bool)
        ensures
            r == self@.respect_robots,
    {
        self.respect_robots
    }
}

/// Whether the link target `href` on page `base` leads to a URL whose key is
/// in `visited`, or to no URL at all.
pub open spec fn leads_to_visited(visited: Set<Seq<char>>, base: UrlView, href: Seq<char>) -> bool {
    match resolution_of(base, href) {
        ResolutionView::Resolved(u) => visited.contains(key_of(u.text)),
        _ => true,
    }
}

/// Submitting URLs that are already visited to the frontier changes nothing:
/// link targets that all lead to visited URLs add no entry.
pub proof fn lemma_visited_links_add_nothing(
    a: Admission,
    visited: Set<Seq<char>>,
    base: UrlView,
    hrefs: Seq<Seq<char>>,
)
    requires
        forall|i: int| 0 <= i < hrefs.len() ==> leads_to_visited(visited, base, #[trigger] hrefs[i]),
    ensures
        new_targets(a, visited, base, hrefs) == Seq::<UrlView>::empty(),
    decreases hrefs.len(),
{
    if hrefs.len() > 0 {
        let init = hrefs.drop_last();
        assert forall|i: int| 0 <= i < init.len() implies leads_to_visited(visited, base, #[trigger] init[i]) by {
            assert(init[i] == hrefs[i]);
        }
        lemma_visited_links_add_nothing(a, visited, base, init);
        assert(leads_to_visited(visited, base, hrefs[hrefs.len() - 1]));
    }
}

/// A crawl seeded with one page whose links all lead back to that page (or
/// nowhere) performs exactly one fetch: the page is pending at the start, and
/// once it is taken, classified and its links queued, nothing is pending.
pub proof fn lemma_self_link_single_fetch(c: CrawlView, page: UrlView, hrefs: Seq<Seq<char>>, hit: bool)
    requires
        c.frontier == seq![page],
        c.cursor == 0,
        c.visited == Set::<Seq<char>>::empty(),
        forall|i: int|
            0 <= i < hrefs.len() ==> leads_to_visited(
                set![key_of(page.text)],
                page,
                #[trigger] hrefs[i],
            ),
    ensures
        has_pending(c.frontier, c.cursor, c.visited),
        !has_pending(
            with_links(
                with_visit(
                    CrawlView { cursor: 1, visited: c.visited.insert(key_of(page.text)), ..c },
                    page,
                    hit,
                ),
                page,
                hrefs,
            ).frontier,
            1,
            c.visited.insert(key_of(page.text)),
        ),
{
    let v = c.visited.insert(key_of(page.text));
    assert(v =~= set![key_of(page.text)]);
    assert(!c.visited.contains(key_of(c.frontier[0].text)));
    lemma_visited_links_add_nothing(c.admission, v, page, hrefs);
    let after = with_links(
        with_visit(CrawlView { cursor: 1, visited: v, ..c }, page, hit),
        page,
        hrefs,
    );
    assert(after.frontier =~= seq![page]);
}

} // verus!
