//! The crawl engine: the state that all workers of a crawl share, and every
//! decision that a worker takes.
//!
//! A worker asks for the next step, asks whether its task may be fetched,
//! fetches it, reports what came of it, and hands the task back. Fetching,
//! sleeping and writing are left to the caller.

use vstd::prelude::*;

use crate::config::{ConfigView, CrawlConfig};
use crate::error::{CrawlError, ErrorView};
use crate::fetcher::{FetchResponse, Fetcher, ResponseView};
use crate::filter::{FilterView, UrlFilter};
use crate::frontier::{self, Frontier, FrontierView, Lease};
use crate::normalize;
use crate::page::{CrawlTask, CrawledPage, PageError, PageErrorKind, TaskView};
use crate::parser::{self, parse_html, ParsedHtml, ParsedView};
use crate::robots::{RobotsCache, RobotsView};
use crate::stats::{self, Stats, StatsSnapshot};
use crate::text::{self, contains, copy_opt};
use crate::time::{Duration, Instant};
use crate::weburl::{Url, UrlView};

verus! {

/// How long an idle worker waits before re-checking the frontier, in
/// milliseconds: this bounds the latency of detecting that the crawl is
/// finished.
pub const IDLE_POLL_MILLIS: u64 = 50;

/// Maximum number of crawl events buffered for an observer.
///
/// Events are telemetry, not control-plane state. If an observer falls behind,
/// excess events are dropped rather than letting observability allocate
/// unbounded memory or slow down crawling.
pub const EVENT_BUFFER: usize = 4096;

/// How many children of one sitemap index are fetched.
pub const MAX_CHILD_SITEMAPS: usize = 50;

/// A best-effort telemetry event emitted by the crawl engine.
#[derive(Debug)]
pub enum CrawlEvent {
    /// A page was fetched successfully.
    Page {
        /// The requested URL.
        url: String,
        /// Final HTTP status.
        status: u16,
        /// Depth of the page.
        depth: u32,
        /// Newly enqueued in-scope links found on the page.
        new_links: usize,
    },
    /// A URL failed to be crawled.
    Failed {
        /// The URL that failed.
        url: String,
        /// Failure classification.
        kind: PageErrorKind,
        /// Human-readable detail.
        error: String,
    },
}

/// Totals reported when a crawl finishes.
#[derive(Debug, Clone, Copy)]
pub struct CrawlSummary {
    /// Pages fetched successfully.
    pub pages_fetched: u64,
    /// URLs that failed.
    pub pages_failed: u64,
    /// URLs accepted into the frontier.
    pub urls_discovered: u64,
    /// Total bytes downloaded.
    pub bytes_downloaded: u64,
    /// Wall-clock duration of the crawl.
    pub duration: Duration,
}

/// Interactive crawl control: pause leasing new URLs, resume, or request a
/// graceful stop.
#[derive(Debug, Clone, Copy, PartialEq, Eq, Structural)]
pub struct CrawlControl {
    pub paused: bool,
    pub stopping: bool,
}

impl CrawlControl {
    /// Neither paused nor stopping.
    pub fn new() -> (r: Self)
        ensures
            r == (CrawlControl { paused: false, stopping: false }),
    {
        CrawlControl { paused: false, stopping: false }
    }

    /// Request a graceful stop. In-flight requests are allowed to finish.
    pub fn stop(&mut self)
        ensures
            *final(self) == (CrawlControl { stopping: true, ..*old(self) }),
    {
        self.stopping = true;
    }

    /// Pause the crawl. Workers stop leasing new URLs; in-flight requests keep
    /// running until they finish.
    pub fn pause(&mut self)
        ensures
            *final(self) == (CrawlControl { paused: true, ..*old(self) }),
    {
        self.paused = true;
    }

    /// Resume a paused crawl.
    pub fn resume(&mut self)
        ensures
            *final(self) == (CrawlControl { paused: false, ..*old(self) }),
    {
        self.paused = false;
    }

    /// Toggle between paused and running.
    pub fn toggle_pause(&mut self)
        ensures
            *final(self) == (CrawlControl { paused: !old(self).paused, ..*old(self) }),
    {
        self.paused = !self.paused;
    }

    /// Whether the crawl has been paused.
    pub fn is_paused(&self) -> (r: bool)
        ensures
            r == self.paused,
    {
        self.paused
    }

    /// Whether a graceful stop has been requested.
    pub fn is_stopping(&self) -> (r: bool)
        ensures
            r == self.stopping,
    {
        self.stopping
    }
}

/// What a worker does next.
#[derive(Debug)]
pub enum Step {
    /// Leave: the crawl is over or stopping.
    Exit,
    /// Sleep up to this long, waking early if another worker makes progress.
    Sleep(Duration),
    /// Process a task.
    Work(CrawlTask),
}

/// Whether a task may be fetched.
#[derive(Debug, Clone, Copy, PartialEq, Eq, Structural)]
pub enum Admission {
    /// The rules of its origin are not known yet: learn them and ask again.
    Unknown,
    /// The rules of its origin forbid it.
    Denied,
    /// It may be fetched.
    Granted,
}

/// Everything that the workers of one crawl share.
pub struct Engine {
    config: CrawlConfig,
    filter: UrlFilter,
    robots: RobotsCache,
    frontier: Frontier,
    stats: Stats,
    control: CrawlControl,
    error: Option<CrawlError>,
}

/// The state of an [`Engine`].
pub struct EngineView {
    pub config: ConfigView,
    pub filter: FilterView,
    pub robots: RobotsView,
    pub frontier: FrontierView,
    pub stats: Stats,
    pub control: CrawlControl,
    /// What the crawl is aborted for, if it is.
    pub error: Option<ErrorView>,
}

/// The view of an optional error.
pub open spec fn opt_error(e: Option<CrawlError>) -> Option<ErrorView> {
    match e {
        Some(v) => Some(v@),
        None => None,
    }
}

impl View for Engine {
    type V = EngineView;

    closed spec fn view(&self) -> EngineView {
        EngineView {
            config: self.config@,
            filter: self.filter@,
            robots: self.robots@,
            frontier: self.frontier@,
            stats: self.stats,
            control: self.control,
            error: opt_error(self.error),
        }
    }
}

/// The frontier after all of `tasks` were offered to it, in order.
pub open spec fn offered(f: FrontierView, tasks: Seq<TaskView>) -> FrontierView
    decreases tasks.len(),
{
    if tasks.len() == 0 {
        f
    } else {
        offered(f, tasks.drop_last()).added(tasks.last())
    }
}

/// How many of `tasks`, offered in order, the frontier accepts.
pub open spec fn accepted(f: FrontierView, tasks: Seq<TaskView>) -> nat
    decreases tasks.len(),
{
    if tasks.len() == 0 {
        0
    } else {
        accepted(f, tasks.drop_last()) + if offered(f, tasks.drop_last()).accepts(tasks.last()) {
            1nat
        } else {
            0
        }
    }
}

/// Those of `urls` that the filter allows, in order.
pub open spec fn in_scope(f: FilterView, urls: Seq<UrlView>) -> Seq<UrlView>
    decreases urls.len(),
{
    if urls.len() == 0 {
        Seq::empty()
    } else if f.allows(urls.last()) {
        in_scope(f, urls.drop_last()).push(urls.last())
    } else {
        in_scope(f, urls.drop_last())
    }
}

/// All of `urls`, or those that the filter allows.
spec fn chosen(filtered: bool, f: FilterView, urls: Seq<UrlView>) -> Seq<UrlView> {
    if filtered {
        in_scope(f, urls)
    } else {
        urls
    }
}

/// The seed tasks for `urls`.
pub open spec fn seed_tasks(urls: Seq<UrlView>) -> Seq<TaskView> {
    urls.map_values(|u: UrlView| TaskView::seed(u))
}

/// The tasks for links found on the page `base`.
pub open spec fn child_tasks(links: Seq<UrlView>, depth: u32, base: UrlView) -> Seq<TaskView> {
    links.map_values(|u: UrlView| TaskView::child(u, depth, base))
}

impl EngineView {
    /// An engine at the start of a crawl, with its clock started.
    pub open spec fn fresh(config: ConfigView, now: Instant) -> EngineView {
        EngineView {
            config,
            filter: FilterView::of(config),
            robots: RobotsView::empty(config.settings.user_agent),
            frontier: FrontierView::empty(
                config.settings.per_host_delay.nanos as nat,
                config.settings.max_depth,
                config.settings.max_pages,
            ),
            stats: Stats {
                fetched: 0,
                failed: 0,
                discovered: 0,
                in_flight: 0,
                bytes: 0,
                start: now,
            },
            control: CrawlControl { paused: false, stopping: false },
            error: None,
        }
    }

    /// What every reachable state satisfies: the parts go with the
    /// configuration, the frontier is sound, a request is in flight for every
    /// task that is out, and every accepted URL was counted.
    pub open spec fn consistent(self) -> bool {
        &&& self.filter == FilterView::of(self.config)
        &&& self.robots.user_agent == self.config.settings.user_agent
        &&& self.frontier.base_delay == self.config.settings.per_host_delay.nanos
        &&& self.frontier.max_depth == self.config.settings.max_depth
        &&& self.frontier.max_pages == self.config.settings.max_pages
        &&& self.frontier.sound()
        &&& self.stats.in_flight == self.frontier.active
        &&& self.stats.discovered == self.frontier.seen.len()
    }

    /// The state after `tasks` were offered to the frontier and the accepted
    /// ones counted.
    pub open spec fn enqueued(self, tasks: Seq<TaskView>) -> EngineView {
        EngineView {
            frontier: offered(self.frontier, tasks),
            stats: Stats {
                discovered: (self.stats.discovered + accepted(self.frontier, tasks)) as u64,
                ..self.stats
            },
            ..self
        }
    }

    /// Whether `r` is the right next step at `now`, and `after` the state that
    /// goes with it. A stopping crawl hands out nothing; a paused one neither,
    /// but its workers stay. Otherwise the frontier decides.
    pub open spec fn steps(self, now: Instant, r: Step, after: EngineView) -> bool {
        let idle = IDLE_POLL_MILLIS * 1_000_000;
        if self.control.stopping {
            r is Exit && after == self
        } else if self.control.paused {
            (r matches Step::Sleep(d) && d.nanos == idle) && after == self
        } else {
            match r {
                Step::Exit => {
                    &&& self.frontier.answers(now.nanos as nat, Lease::Done, after.frontier)
                    &&& after == self
                },
                Step::Sleep(d) => {
                    &&& self.frontier.answers(now.nanos as nat, Lease::Wait(d), after.frontier) || (
                    self.frontier.answers(now.nanos as nat, Lease::Idle, after.frontier) && d.nanos
                        == idle)
                    &&& after == self
                },
                Step::Work(t) => {
                    &&& self.frontier.answers(now.nanos as nat, Lease::Ready(t), after.frontier)
                    &&& after == EngineView {
                        frontier: after.frontier,
                        stats: Stats {
                            in_flight: (self.stats.in_flight + 1) as u64,
                            ..self.stats
                        },
                        ..self
                    }
                },
            }
        }
    }

    /// Whether the task for `u` may be fetched.
    pub open spec fn admission(self, u: UrlView) -> Admission {
        if !self.config.settings.respect_robots {
            Admission::Granted
        } else if !self.robots.knows(u) {
            Admission::Unknown
        } else if self.robots.entry(u).allows(u.text()) {
            Admission::Granted
        } else {
            Admission::Denied
        }
    }

    /// The state after a task for `u` was admitted: a crawl-delay that its
    /// origin advertises slows its host down, where that is respected.
    pub open spec fn admitted(self, u: UrlView) -> EngineView {
        if self.config.settings.respect_robots && self.config.settings.respect_crawl_delay
            && self.admission(u) is Granted {
            match (self.robots.entry(u).delay, frontier::key_of(u)) {
                (Some(d), Some(h)) => EngineView { frontier: self.frontier.slowed(h, d), ..self },
                _ => self,
            }
        } else {
            self
        }
    }

    /// The state after a page with `links` was fetched for a task at `depth`.
    pub open spec fn page_recorded(
        self,
        depth: u32,
        final_url: UrlView,
        body_bytes: u64,
        links: Seq<UrlView>,
    ) -> EngineView {
        let next = self.enqueued(
            child_tasks(in_scope(self.filter, links), (depth + 1) as u32, final_url),
        );
        EngineView {
            stats: Stats {
                fetched: stats::wrapped_sum(next.stats.fetched, 1),
                bytes: stats::wrapped_sum(next.stats.bytes, body_bytes),
                ..next.stats
            },
            ..next
        }
    }

    /// The state after a page failed.
    pub open spec fn failure_recorded(self) -> EngineView {
        EngineView {
            stats: Stats { failed: stats::wrapped_sum(self.stats.failed, 1), ..self.stats },
            ..self
        }
    }

    /// The state after a task was handed back.
    pub open spec fn handed_back(self) -> EngineView {
        EngineView {
            frontier: self.frontier.completed(),
            stats: Stats {
                in_flight: stats::wrapped_predecessor(self.stats.in_flight),
                ..self.stats
            },
            ..self
        }
    }

    /// The state after a fatal error: the first one is kept, and the crawl
    /// stops.
    pub open spec fn aborted(self, e: ErrorView) -> EngineView {
        EngineView {
            error: match self.error {
                Some(first) => Some(first),
                None => Some(e),
            },
            control: CrawlControl { stopping: true, ..self.control },
            ..self
        }
    }
}

/// Offering tasks keeps a frontier sound and its limits as they were, and
/// remembers exactly the accepted ones.
proof fn offered_facts(f: FrontierView, tasks: Seq<TaskView>)
    requires
        f.sound(),
    ensures
        offered(f, tasks).sound(),
        offered(f, tasks).base_delay == f.base_delay,
        offered(f, tasks).max_depth == f.max_depth,
        offered(f, tasks).max_pages == f.max_pages,
        offered(f, tasks).active == f.active,
        offered(f, tasks).seen.len() == f.seen.len() + accepted(f, tasks),
        accepted(f, tasks) <= tasks.len(),
    decreases tasks.len(),
{
    if tasks.len() > 0 {
        offered_facts(f, tasks.drop_last());
        frontier::soundness_is_kept(
            offered(f, tasks.drop_last()),
            frontier::Happening::Offer(tasks.last()),
        );
    }
}

/// Bytes as text, with what is no UTF-8 replaced, as
/// `String::from_utf8_lossy` does it.
pub uninterp spec fn utf8_lossy(bytes: Seq<u8>) -> Seq<char>;

/// `String::from_utf8_lossy`. Claimed: the text is a function of the bytes, and
/// bytes that are UTF-8 are decoded as such.
#[verifier::external_body]
fn decode_lossy(bytes: &[u8]) -> (r: String)
    ensures
        r@ == utf8_lossy(bytes@),
        vstd::utf8::valid_utf8(bytes@) ==> r@ == vstd::utf8::decode_utf8(bytes@),
{
    String::from_utf8_lossy(bytes).into_owned()
}

/// Whether a `Content-Type` announces HTML.
pub open spec fn announces_html(content_type: Option<Seq<char>>) -> bool {
    match content_type {
        Some(ct) => text::contains_text(ct, "html"@),
        None => false,
    }
}

/// Whether a `Content-Type` announces HTML.
pub fn is_html(content_type: &Option<String>) -> (r: bool)
    ensures
        r == announces_html(text::opt_view(*content_type)),
{
    match content_type {
        Some(ct) => contains(ct.as_str(), "html"),
        None => false,
    }
}

/// The title and links of a response: none unless it is HTML.
pub open spec fn parsed_body(response: ResponseView) -> ParsedView {
    if announces_html(response.content_type) {
        parser::parsed(response.final_url, utf8_lossy(response.body))
    } else {
        ParsedView { title: None, links: Seq::empty() }
    }
}

/// Extract the title and links of a response.
pub fn parse_body(response: &FetchResponse) -> (r: ParsedHtml)
    ensures
        r@ == parsed_body(response@),
{
    if is_html(&response.content_type) {
        let body = decode_lossy(response.body.as_slice());
        parse_html(&response.final_url, body.as_str())
    } else {
        let links: Vec<Url> = Vec::new();
        proof {
            assert(crate::config::url_views(links@) =~= Seq::empty());
        }
        ParsedHtml { title: None, links }
    }
}

/// Copy a list of URLs.
fn copy_urls(urls: &Vec<Url>) -> (r: Vec<Url>)
    ensures
        crate::config::url_views(r@) == crate::config::url_views(urls@),
{
    let mut out: Vec<Url> = Vec::new();
    let mut i: usize = 0;
    while i < urls.len()
        invariant
            i <= urls@.len(),
            out@.len() == i,
            forall|k: int| 0 <= k < i ==> (#[trigger] out@[k])@ == urls@[k]@,
        decreases urls.len() - i,
    {
        out.push(urls[i].copy());
        i += 1;
    }
    proof {
        assert(crate::config::url_views(out@) =~= crate::config::url_views(urls@));
    }
    out
}

/// What became of the links of a page.
pub struct EnqueueOutcome {
    /// The links that are in scope.
    pub links: Vec<String>,
    /// How many of them were new.
    pub newly_enqueued: usize,
}

/// The record of a page, as it is handed to the sink.
pub open spec fn page_record(
    page: CrawledPage,
    task: TaskView,
    response: ResponseView,
    title: Option<Seq<char>>,
    links: Seq<Seq<char>>,
    fetched_at: Seq<char>,
    elapsed: Duration,
) -> bool {
    &&& page.url@ == task.url.text()
    &&& page.final_url@ == response.final_url.text()
    &&& page.status == response.status
    &&& page.depth == task.depth
    &&& text::opt_view(page.referrer) == task.referrer_text()
    &&& text::opt_view(page.content_type) == response.content_type
    &&& text::opt_view(page.title) == title
    &&& page.content_length == response.body.len()
    &&& text::texts(page.links@) == links
    &&& page.fetched_at@ == fetched_at
    &&& page.elapsed_ms == (elapsed.nanos as int / 1_000_000) % 0x1_0000_0000_0000_0000
}

/// The event that reports a page.
pub fn page_event(page: &CrawledPage, new_links: usize) -> (r: CrawlEvent)
    ensures
        r matches CrawlEvent::Page { url, status, depth, new_links: n } && url@ == page.url@
            && status == page.status && depth == page.depth && n == new_links,
{
    CrawlEvent::Page { url: page.url.clone(), status: page.status, depth: page.depth, new_links }
}

/// The event that reports a failure.
pub fn failure_event(error: &PageError) -> (r: CrawlEvent)
    ensures
        r matches CrawlEvent::Failed { url, kind, error: message } && url@ == error.url@ && kind
            == error.kind && message@ == error.error@,
{
    CrawlEvent::Failed { url: error.url.clone(), kind: error.kind, error: error.error.clone() }
}

impl Engine {
    /// The parts of the engine are in order and go together.
    pub closed spec fn wf(&self) -> bool {
        &&& self.filter.wf()
        &&& self.robots.wf()
        &&& self.frontier.wf()
        &&& self@.consistent()
    }

    /// A well-formed engine is consistent.
    pub proof fn wf_facts(&self)
        requires
            self.wf(),
        ensures
            self@.consistent(),
    {
    }

    /// Build an engine for `config`, with its clock started at `now`.
    pub fn new(config: CrawlConfig, now: Instant) -> (r: Self)
        ensures
            r.wf(),
            r@ == EngineView::fresh(config@, now),
    {
        let filter = UrlFilter::from_config(&config);
        let robots = RobotsCache::new(config.user_agent.clone());
        let frontier = Frontier::new(&config);
        proof {
            frontier.wf_facts();
        }
        Engine {
            config,
            filter,
            robots,
            frontier,
            stats: Stats::new(now),
            control: CrawlControl::new(),
            error: None,
        }
    }

    /// The configuration of the crawl.
    pub fn config(&self) -> (r: &CrawlConfig)
        ensures
            r@ == self@.config,
    {
        &self.config
    }

    /// The limits of the crawl's requests.
    pub fn fetcher(&self) -> (r: Fetcher)
        ensures
            r.max_retries == self@.config.settings.max_retries,
            r.max_body_bytes == self@.config.settings.max_body_bytes,
    {
        Fetcher::from_config(&self.config)
    }

    /// Live metrics.
    pub fn stats(&self) -> (r: Stats)
        ensures
            r == self@.stats,
    {
        self.stats
    }

    /// The crawl's controls as they stand.
    pub fn control(&self) -> (r: CrawlControl)
        ensures
            r == self@.control,
    {
        self.control
    }

    /// Set the crawl's controls.
    pub fn set_control(&mut self, control: CrawlControl)
        requires
            old(self).wf(),
        ensures
            final(self).wf(),
            final(self)@ == (EngineView { control, ..old(self)@ }),
    {
        self.control = control;
    }

    /// Offer seed tasks for `urls` to the frontier, passing over those out of
    /// scope if `filtered`.
    fn offer_seeds(&mut self, urls: &Vec<Url>, filtered: bool) -> (r: usize)
        requires
            old(self).wf(),
        ensures
            final(self).wf(),
            ({
                let all = crate::config::url_views(urls@);
                let tasks = seed_tasks(
                    if filtered {
                        in_scope(old(self)@.filter, all)
                    } else {
                        all
                    },
                );
                &&& final(self)@ == old(self)@.enqueued(tasks)
                &&& r == accepted(old(self)@.frontier, tasks)
            }),
    {
        let ghost all = crate::config::url_views(urls@);
        let ghost f = self.frontier@;
        let ghost filter = self.filter@;
        let mut added: usize = 0;
        let mut i: usize = 0;
        proof {
            assert(seed_tasks(chosen(filtered, filter, all.take(0))) =~= Seq::empty());
        }
        while i < urls.len()
            invariant
                i <= urls@.len(),
                all == crate::config::url_views(urls@),
                filter == self.filter@,
                self.frontier.wf(),
                self.filter.wf(),
                *self == (Engine { frontier: self.frontier, ..*old(self) }),
                self.frontier@ == offered(
                    f,
                    seed_tasks(chosen(filtered, filter, all.take(i as int))),
                ),
                added == accepted(f, seed_tasks(chosen(filtered, filter, all.take(i as int)))),
                added <= i,
            decreases urls.len() - i,
        {
            let url = &urls[i];
            proof {
                let now = all.take(i as int);
                let then = all.take(i + 1);
                assert(then.drop_last() =~= now);
                assert(then.last() == url@);
                let before = seed_tasks(chosen(filtered, filter, now));
                let next = seed_tasks(chosen(filtered, filter, then));
                if !filtered || filter.allows(url@) {
                    assert(chosen(filtered, filter, then) =~= chosen(filtered, filter, now).push(
                        url@,
                    ));
                    assert(next =~= before.push(TaskView::seed(url@)));
                    assert(next.drop_last() =~= before);
                } else {
                    assert(next =~= before);
                }
            }
            if !filtered || self.filter.allows(url) {
                if self.frontier.add(CrawlTask::seed(url.copy())) {
                    added += 1;
                }
            }
            i += 1;
        }
        proof {
            assert(all.take(i as int) =~= all);
            offered_facts(f, seed_tasks(chosen(filtered, filter, all)));
            self.frontier.wf_facts();
        }
        self.stats.add_discovered(added as u64);
        added
    }

    /// Put the seeds of the configuration into the frontier, at depth `0`. They
    /// are crawled whatever the filter says. Returns how many were new.
    pub fn seed(&mut self) -> (r: usize)
        requires
            old(self).wf(),
        ensures
            final(self).wf(),
            final(self)@ == old(self)@.enqueued(seed_tasks(old(self)@.config.settings.seeds)),
            r == accepted(old(self)@.frontier, seed_tasks(old(self)@.config.settings.seeds)),
    {
        let seeds = copy_urls(&self.config.seeds);
        self.offer_seeds(&seeds, false)
    }

    /// Put the pages that a sitemap advertises into the frontier, at depth `0`,
    /// as far as they are in scope. Returns how many were new.
    pub fn seed_from_sitemap(&mut self, pages: &Vec<Url>) -> (r: usize)
        requires
            old(self).wf(),
        ensures
            final(self).wf(),
            ({
                let tasks = seed_tasks(
                    in_scope(old(self)@.filter, crate::config::url_views(pages@)),
                );
                &&& final(self)@ == old(self)@.enqueued(tasks)
                &&& r == accepted(old(self)@.frontier, tasks)
            }),
    {
        self.offer_seeds(pages, true)
    }
}

impl Engine {
    /// Decide what a worker does next. A task that is handed out is in flight
    /// until it is handed back.
    pub fn next_step(&mut self, now: Instant) -> (r: Step)
        requires
            old(self).wf(),
        ensures
            final(self).wf(),
            old(self)@.steps(now, r, final(self)@),
    {
        if self.control.is_stopping() {
            return Step::Exit;
        }
        if self.control.is_paused() {
            return Step::Sleep(Duration::from_millis(IDLE_POLL_MILLIS));
        }
        let ghost before = self.frontier@;
        match self.frontier.lease(now) {
            Lease::Ready(task) => {
                proof {
                    self.frontier.wf_facts();
                    let h = choose|h: Seq<char>| #[trigger]
                        before.earliest(h, now.nanos as nat) && before.allowed_at(
                            h,
                            now.nanos as nat,
                        ) <= now.nanos && task@ == before.task(h, 0) && self.frontier@
                            == before.leased(h, now.nanos as nat);
                    assert(self.frontier@.active == before.active + 1);
                }
                self.stats.inc_in_flight();
                Step::Work(task)
            },
            Lease::Wait(delay) => Step::Sleep(delay),
            Lease::Idle => Step::Sleep(Duration::from_millis(IDLE_POLL_MILLIS)),
            Lease::Done => Step::Exit,
        }
    }

    /// Whether the rules for `url` have to be learnt before it may be fetched.
    pub fn needs_rules(&self, url: &Url) -> (r: bool)
        requires
            self.wf(),
        ensures
            r == (self@.admission(url@) is Unknown),
    {
        self.config.respect_robots && self.robots.allowed(url).is_none()
    }

    /// Decide whether a task may be fetched. Where its origin advertises a
    /// crawl-delay that is to be respected, its host is slowed down.
    pub fn screen(&mut self, task: &CrawlTask) -> (r: Admission)
        requires
            old(self).wf(),
        ensures
            final(self).wf(),
            r == old(self)@.admission(task@.url),
            final(self)@ == old(self)@.admitted(task@.url),
    {
        if !self.config.respect_robots {
            return Admission::Granted;
        }
        match self.robots.allowed(&task.url) {
            None => Admission::Unknown,
            Some(false) => Admission::Denied,
            Some(true) => {
                if self.config.respect_crawl_delay {
                    if let Some(Some(delay)) = self.robots.crawl_delay(&task.url) {
                        self.frontier.set_host_delay(&task.url, delay);
                        proof {
                            self.frontier.wf_facts();
                        }
                    }
                }
                Admission::Granted
            },
        }
    }

    /// Remember what the `robots.txt` of `url`'s origin says: the file that
    /// arrived, or nothing.
    pub fn learn_robots(&mut self, url: &Url, file: Option<Vec<u8>>)
        requires
            old(self).wf(),
        ensures
            final(self).wf(),
            final(self)@ == (EngineView {
                robots: old(self)@.robots.stored(
                    url@,
                    match file {
                        Some(f) => Some(f@),
                        None => None,
                    },
                ),
                ..old(self)@
            }),
    {
        self.robots.store(url, file);
    }

    /// The sitemaps that `url`'s origin declares in its `robots.txt`; `None`
    /// while nothing is known about the origin.
    pub fn declared_sitemaps(&self, url: &Url) -> (r: Option<Vec<String>>)
        requires
            self.wf(),
        ensures
            r is Some <==> self@.robots.knows(url@),
            r matches Some(list) ==> text::texts(list@) == self@.robots.entry(url@).sitemaps,
    {
        self.robots.sitemaps(url)
    }

    /// Filter, enqueue, and tally the links found on the page at `base`.
    pub fn enqueue_links(&mut self, depth: u32, base: &Url, links: Vec<Url>) -> (r: EnqueueOutcome)
        requires
            old(self).wf(),
            depth < u32::MAX,
        ensures
            final(self).wf(),
            ({
                let kept = in_scope(old(self)@.filter, crate::config::url_views(links@));
                let tasks = child_tasks(kept, (depth + 1) as u32, base@);
                &&& final(self)@ == old(self)@.enqueued(tasks)
                &&& text::texts(r.links@) == parser::url_texts(kept)
                &&& r.newly_enqueued == accepted(old(self)@.frontier, tasks)
            }),
    {
        let ghost all = crate::config::url_views(links@);
        let ghost f = self.frontier@;
        let ghost filter = self.filter@;
        let child_depth: u32 = depth + 1;
        let mut in_scope_links: Vec<String> = Vec::new();
        let mut newly_enqueued: usize = 0;
        let mut i: usize = 0;
        proof {
            assert(in_scope(filter, all.take(0)) =~= Seq::empty());
            assert(child_tasks(in_scope(filter, all.take(0)), child_depth, base@) =~= Seq::empty());
            assert(text::texts(in_scope_links@) =~= parser::url_texts(
                in_scope(filter, all.take(0)),
            ));
        }
        while i < links.len()
            invariant
                i <= links@.len(),
                all == crate::config::url_views(links@),
                filter == self.filter@,
                child_depth == depth + 1,
                self.frontier.wf(),
                self.filter.wf(),
                *self == (Engine { frontier: self.frontier, ..*old(self) }),
                text::texts(in_scope_links@) == parser::url_texts(
                    in_scope(filter, all.take(i as int)),
                ),
                self.frontier@ == offered(
                    f,
                    child_tasks(in_scope(filter, all.take(i as int)), child_depth, base@),
                ),
                newly_enqueued == accepted(
                    f,
                    child_tasks(in_scope(filter, all.take(i as int)), child_depth, base@),
                ),
                newly_enqueued <= i,
            decreases links.len() - i,
        {
            let link = &links[i];
            let ghost now = in_scope(filter, all.take(i as int));
            let ghost then = in_scope(filter, all.take(i + 1));
            proof {
                assert(all.take(i + 1).drop_last() =~= all.take(i as int));
                assert(all.take(i + 1).last() == link@);
                if filter.allows(link@) {
                    let before = child_tasks(now, child_depth, base@);
                    let next = child_tasks(then, child_depth, base@);
                    assert(next =~= before.push(TaskView::child(link@, child_depth, base@)));
                    assert(next.drop_last() =~= before);
                    assert(parser::url_texts(then) =~= parser::url_texts(now).push(link@.text()));
                }
            }
            if self.filter.allows(link) {
                let ghost was = in_scope_links@;
                let shown = link.text();
                let ghost t = shown@;
                in_scope_links.push(shown);
                proof {
                    assert(text::texts(in_scope_links@) =~= text::texts(was).push(t));
                }
                if self.frontier.add(CrawlTask::child(link.copy(), child_depth, base.copy())) {
                    newly_enqueued += 1;
                }
            }
            i += 1;
        }
        proof {
            assert(all.take(i as int) =~= all);
            offered_facts(f, child_tasks(in_scope(filter, all), child_depth, base@));
            self.frontier.wf_facts();
        }
        self.stats.add_discovered(newly_enqueued as u64);
        EnqueueOutcome { links: in_scope_links, newly_enqueued }
    }

    /// Record a page that was fetched for `task`: enqueue its links, count it,
    /// and make the record for the sink. Also returns how many links were new.
    pub fn record_page(
        &mut self,
        task: &CrawlTask,
        response: &FetchResponse,
        parsed: ParsedHtml,
        fetched_at: String,
        elapsed: Duration,
    ) -> (r: (CrawledPage, usize))
        requires
            old(self).wf(),
            task.depth < u32::MAX,
        ensures
            final(self).wf(),
            final(self)@ == old(self)@.page_recorded(
                task@.depth,
                response@.final_url,
                response@.body.len() as u64,
                parsed@.links,
            ),
            page_record(
                r.0,
                task@,
                response@,
                parsed@.title,
                parser::url_texts(in_scope(old(self)@.filter, parsed@.links)),
                fetched_at@,
                elapsed,
            ),
            r.1 == accepted(
                old(self)@.frontier,
                child_tasks(
                    in_scope(old(self)@.filter, parsed@.links),
                    (task@.depth + 1) as u32,
                    response@.final_url,
                ),
            ),
    {
        let ParsedHtml { title, links } = parsed;
        let outcome = self.enqueue_links(task.depth, &response.final_url, links);
        let content_length: usize = response.body.len();
        self.stats.inc_fetched(content_length as u64);
        let millis: u128 = elapsed.as_millis() % 0x1_0000_0000_0000_0000;
        let page = CrawledPage {
            url: task.url.text(),
            final_url: response.final_url.text(),
            status: response.status,
            depth: task.depth,
            referrer: task.referrer_text(),
            content_type: copy_opt(&response.content_type),
            title,
            content_length,
            links: outcome.links,
            fetched_at,
            elapsed_ms: millis as u64,
        };
        (page, outcome.newly_enqueued)
    }

    /// Record a task that failed, and make the record for the sink.
    pub fn record_failure(
        &mut self,
        task: &CrawlTask,
        kind: PageErrorKind,
        message: String,
    ) -> (r: PageError)
        requires
            old(self).wf(),
        ensures
            final(self).wf(),
            final(self)@ == old(self)@.failure_recorded(),
            r.url@ == task@.url.text(),
            text::opt_view(r.referrer) == task@.referrer_text(),
            r.error@ == message@,
            r.kind == kind,
    {
        self.stats.inc_failed();
        PageError {
            url: task.url.text(),
            referrer: task.referrer_text(),
            error: message,
            kind,
        }
    }

    /// Record a task that `robots.txt` forbids.
    pub fn record_denial(&mut self, task: &CrawlTask) -> (r: PageError)
        requires
            old(self).wf(),
        ensures
            final(self).wf(),
            final(self)@ == old(self)@.failure_recorded(),
            r.url@ == task@.url.text(),
            text::opt_view(r.referrer) == task@.referrer_text(),
            r.error@ == "blocked by robots.txt"@,
            r.kind is RobotsDenied,
    {
        self.record_failure(task, PageErrorKind::RobotsDenied, "blocked by robots.txt".to_owned())
    }

    /// Record a fatal error and request shutdown. Only the first error is kept.
    pub fn fail_crawl(&mut self, error: CrawlError)
        requires
            old(self).wf(),
        ensures
            final(self).wf(),
            final(self)@ == old(self)@.aborted(error@),
    {
        if self.error.is_none() {
            self.error = Some(error);
        }
        self.control.stop();
    }

    /// Hand back a task that was handed out. Must follow each [`Step::Work`].
    pub fn hand_back(&mut self)
        requires
            old(self).wf(),
            old(self)@.frontier.active > 0,
        ensures
            final(self).wf(),
            final(self)@ == old(self)@.handed_back(),
    {
        self.stats.dec_in_flight();
        self.frontier.complete();
        proof {
            self.frontier.wf_facts();
        }
    }

    /// Conclude the crawl: the error that it was aborted for, or else its
    /// totals.
    pub fn conclude(&mut self, started: Instant, now: Instant) -> (r: Result<
        CrawlSummary,
        CrawlError,
    >)
        requires
            old(self).wf(),
        ensures
            final(self).wf(),
            final(self)@ == (EngineView { error: None, ..old(self)@ }),
            match r {
                Ok(s) => {
                    &&& old(self)@.error is None
                    &&& s.pages_fetched == old(self)@.stats.fetched
                    &&& s.pages_failed == old(self)@.stats.failed
                    &&& s.urls_discovered == old(self)@.stats.discovered
                    &&& s.bytes_downloaded == old(self)@.stats.bytes
                    &&& s.duration.nanos == if now.nanos >= started.nanos {
                        now.nanos - started.nanos
                    } else {
                        0
                    }
                },
                Err(e) => old(self)@.error == Some(e@),
            },
    {
        if let Some(error) = self.error.take() {
            return Err(error);
        }
        let snap = self.stats.snapshot(now);
        Ok(
            CrawlSummary {
                pages_fetched: snap.fetched,
                pages_failed: snap.failed,
                urls_discovered: snap.discovered,
                bytes_downloaded: snap.bytes,
                duration: now.since(started),
            },
        )
    }
}

/// A stopping crawl hands out no work, and neither does a paused one.
pub proof fn no_work_after_stop_or_pause(
    e: EngineView,
    now: Instant,
    r: Step,
    after: EngineView,
)
    requires
        e.steps(now, r, after),
        e.control.stopping || e.control.paused,
    ensures
        r !is Work,
        after == e,
        e.control.stopping ==> r is Exit,
{
}

/// The first fatal error is the one that is reported, and it stops the crawl.
pub proof fn the_first_error_is_kept(e: EngineView, first: ErrorView, second: ErrorView)
    requires
        e.error is None,
    ensures
        e.aborted(first).error == Some(first),
        e.aborted(first).aborted(second).error == Some(first),
        e.aborted(first).control.stopping,
{
}

/// Where `robots.txt` is not respected, every task is granted, and no host is
/// slowed down.
pub proof fn robots_can_be_ignored(e: EngineView, u: UrlView)
    requires
        !e.config.settings.respect_robots,
    ensures
        e.admission(u) is Granted,
        e.admitted(u) == e,
{
}

/// Where the crawl-delay is not respected, rules still allow and deny, but no
/// host is slowed down.
pub proof fn crawl_delay_can_be_ignored(e: EngineView, u: UrlView)
    requires
        e.config.settings.respect_robots,
        !e.config.settings.respect_crawl_delay,
        e.robots.knows(u),
    ensures
        e.admission(u) is Granted <==> e.robots.entry(u).allows(u.text()),
        e.admitted(u) == e,
{
}

/// What is in scope was among what was offered, and the filter allows it.
pub proof fn in_scope_is_allowed(f: FilterView, links: Seq<UrlView>, i: int)
    requires
        0 <= i < in_scope(f, links).len(),
    ensures
        f.allows(in_scope(f, links)[i]),
        links.contains(in_scope(f, links)[i]),
    decreases links.len(),
{
    if links.len() > 0 {
        let rest = links.drop_last();
        if i < in_scope(f, rest).len() {
            in_scope_is_allowed(f, rest, i);
            let k = rest.index_of(in_scope(f, rest)[i]);
            assert(links[k] == in_scope(f, links)[i]);
        } else {
            assert(links[links.len() - 1] == in_scope(f, links)[i]);
        }
    }
}

/// Everything that the filter allows is in scope.
proof fn allowed_is_in_scope(f: FilterView, links: Seq<UrlView>, i: int)
    requires
        0 <= i < links.len(),
        f.allows(links[i]),
    ensures
        in_scope(f, links).contains(links[i]),
    decreases links.len(),
{
    let rest = links.drop_last();
    if i < rest.len() {
        assert(rest[i] == links[i]);
        allowed_is_in_scope(f, rest, i);
        let k = in_scope(f, rest).index_of(links[i]);
        assert(in_scope(f, links)[k] == links[i]);
    } else {
        let n = in_scope(f, rest).len() as int;
        assert(in_scope(f, links)[n] == links[i]);
    }
}

/// Whether `t` is what waits once `o` was accepted.
spec fn files(o: TaskView, t: TaskView) -> bool {
    t == TaskView { url: normalize::normalized(o.url), ..o }
}

/// A task that waits after `tasks` were offered waited before, at the same
/// place, or is one of them.
proof fn offered_adds(f: FrontierView, tasks: Seq<TaskView>, h: Seq<char>, i: int) -> (k: int)
    requires
        offered(f, tasks).holds(h, i),
    ensures
        f.holds(h, i) ==> offered(f, tasks).task(h, i) == f.task(h, i),
        !f.holds(h, i) ==> 0 <= k < tasks.len() && files(tasks[k], offered(f, tasks).task(h, i)),
    decreases tasks.len(),
{
    if tasks.len() == 0 {
        0
    } else {
        let rest = tasks.drop_last();
        let w = offered(f, rest);
        let t = tasks.last();
        if w.holds(h, i) {
            assert(w.added(t).task(h, i) == w.task(h, i));
            let k = offered_adds(f, rest, h, i);
            if !f.holds(h, i) {
                assert(tasks[k] == rest[k]);
            }
            k
        } else {
            if f.holds(h, i) {
                offered_keeps(f, rest, h, i);
            }
            assert(files(t, w.added(t).task(h, i)));
            tasks.len() - 1
        }
    }
}

/// A task that waits still does after `tasks` were offered.
proof fn offered_keeps(f: FrontierView, tasks: Seq<TaskView>, h: Seq<char>, i: int)
    requires
        f.holds(h, i),
    ensures
        offered(f, tasks).holds(h, i),
    decreases tasks.len(),
{
    if tasks.len() > 0 {
        offered_keeps(f, tasks.drop_last(), h, i);
    }
}

/// A task that was offered is remembered, unless it is too deep or has no host.
proof fn offered_remembers(f: FrontierView, tasks: Seq<TaskView>, k: int)
    requires
        0 <= k < tasks.len(),
        f.within_depth(tasks[k].depth),
        frontier::key_of(normalize::normalized(tasks[k].url)) is Some,
    ensures
        offered(f, tasks).seen.contains(normalize::normalized(tasks[k].url).text()),
    decreases tasks.len(),
{
    let rest = tasks.drop_last();
    if k < rest.len() {
        assert(rest[k] == tasks[k]);
        offered_remembers(f, rest, k);
    } else {
        offered_limits(f, rest);
    }
}

/// Offering tasks keeps the depth limit.
proof fn offered_limits(f: FrontierView, tasks: Seq<TaskView>)
    ensures
        offered(f, tasks).max_depth == f.max_depth,
    decreases tasks.len(),
{
    if tasks.len() > 0 {
        offered_limits(f, tasks.drop_last());
    }
}

/// Only links in scope are enqueued: every task that a page adds to what waits
/// is for a link of the page that the filter allows, one level deeper, with the
/// page for its referrer.
pub proof fn children_are_in_scope(
    e: EngineView,
    depth: u32,
    final_url: UrlView,
    body_bytes: u64,
    links: Seq<UrlView>,
    h: Seq<char>,
    i: int,
)
    requires
        depth < u32::MAX,
        e.page_recorded(depth, final_url, body_bytes, links).frontier.holds(h, i),
        !e.frontier.holds(h, i),
    ensures
        ({
            let t = e.page_recorded(depth, final_url, body_bytes, links).frontier.task(h, i);
            &&& t.depth == depth + 1
            &&& t.referrer == Some(final_url)
            &&& exists|u: UrlView| #[trigger]
                links.contains(u) && e.filter.allows(u) && t.url == normalize::normalized(u)
        }),
{
    let kept = in_scope(e.filter, links);
    let tasks = child_tasks(kept, (depth + 1) as u32, final_url);
    let k = offered_adds(e.frontier, tasks, h, i);
    in_scope_is_allowed(e.filter, links, k);
    assert(tasks[k] == TaskView::child(kept[k], (depth + 1) as u32, final_url));
}

/// No link in scope is lost: after a page was recorded, every link of it that
/// the filter allows, that has a host and that is not too deep has been
/// accepted, now or before.
pub proof fn no_link_in_scope_is_lost(
    e: EngineView,
    depth: u32,
    final_url: UrlView,
    body_bytes: u64,
    links: Seq<UrlView>,
    i: int,
)
    requires
        depth < u32::MAX,
        0 <= i < links.len(),
        e.filter.allows(links[i]),
        e.frontier.within_depth((depth + 1) as u32),
        frontier::key_of(normalize::normalized(links[i])) is Some,
    ensures
        e.page_recorded(depth, final_url, body_bytes, links).frontier.seen.contains(
            normalize::normalized(links[i]).text(),
        ),
{
    let kept = in_scope(e.filter, links);
    let tasks = child_tasks(kept, (depth + 1) as u32, final_url);
    allowed_is_in_scope(e.filter, links, i);
    let k = kept.index_of(links[i]);
    assert(tasks[k] == TaskView::child(kept[k], (depth + 1) as u32, final_url));
    offered_remembers(e.frontier, tasks, k);
}

/// Whether a task may be fetched goes by the rules of its origin alone: where
/// rules are respected, it waits until they are known, and is granted exactly
/// where they allow its URL.
pub proof fn admission_goes_by_the_rules(e: EngineView, u: UrlView)
    ensures
        !e.config.settings.respect_robots ==> e.admission(u) is Granted,
        e.config.settings.respect_robots && !e.robots.knows(u) ==> e.admission(u) is Unknown,
        e.config.settings.respect_robots && e.robots.knows(u) && e.robots.entry(u).allows(u.text())
            ==> e.admission(u) is Granted,
        e.config.settings.respect_robots && e.robots.knows(u) && !e.robots.entry(u).allows(u.text())
            ==> e.admission(u) is Denied,
{
}

/// A crawl-delay that is respected is kept in full, however long it is: once a
/// task was admitted, its host has the delay that its origin advertises, or the
/// one it had where that is longer, and no other host is slowed down.
pub proof fn advertised_delays_slow_the_host(
    e: EngineView,
    u: UrlView,
    h: Seq<char>,
    d: nat,
    g: Seq<char>,
)
    requires
        e.config.settings.respect_robots,
        e.config.settings.respect_crawl_delay,
        e.robots.knows(u),
        e.robots.entry(u).allows(u.text()),
        e.robots.entry(u).delay == Some(d),
        u.host == Some(h),
    ensures
        ({
            let after = e.admitted(u);
            let host = text::lowered(h);
            &&& after.frontier.delay_of(host) >= d
            &&& after.frontier.delay_of(host) >= e.frontier.delay_of(host)
            &&& after.frontier.delay_of(host) == d || after.frontier.delay_of(host)
                == e.frontier.delay_of(host)
            &&& g != host ==> after.frontier.host(g) == e.frontier.host(g)
            &&& after == EngineView { frontier: after.frontier, ..e }
            &&& after.frontier.seen == e.frontier.seen
            &&& after.frontier.queued == e.frontier.queued
            &&& after.frontier.active == e.frontier.active
            &&& after.frontier.dispatched == e.frontier.dispatched
        }),
{
    frontier::hosts_go_by_name(u, u);
    frontier::the_largest_delay_counts(e.frontier, text::lowered(h), d);
}

/// A task whose origin advertises no delay, or that is not granted, slows nothing
/// down.
pub proof fn no_delay_slows_nothing(e: EngineView, u: UrlView)
    requires
        e.robots.entry(u).delay is None || !e.robots.knows(u) || !e.robots.entry(u).allows(u.text())
            || !e.config.settings.respect_robots || !e.config.settings.respect_crawl_delay,
    ensures
        e.admitted(u) == e,
{
}

/// What a worker is told, by the state of the crawl. It leaves a stopping crawl,
/// sleeps 50 ms in a paused one, and otherwise leaves once the budget is used up,
/// or nothing waits and nothing is out; sleeps 50 ms where nothing waits but
/// something is out; works where a task waits whose host may be contacted; and
/// else sleeps just until the first host may be.
pub proof fn what_workers_are_told(e: EngineView, now: Instant, r: Step, after: EngineView)
    requires
        e.steps(now, r, after),
    ensures
        e.control.stopping ==> r is Exit,
        !e.control.stopping && e.control.paused ==> (r matches Step::Sleep(d) && d.nanos
            == 50_000_000),
        !e.control.stopping && !e.control.paused ==> {
            let f = e.frontier;
            let used_up = f.max_pages matches Some(max) && f.dispatched >= max;
            let empty = forall|g: Seq<char>| (#[trigger] f.host(g)).tasks.len() == 0;
            &&& r is Exit <==> used_up || (empty && f.active == 0)
            &&& r is Work <==> !used_up && exists|g: Seq<char>|
                f.host(g).tasks.len() > 0 && (#[trigger] f.host(g).next_allowed matches Some(t)
                    ==> t <= now.nanos)
            &&& r matches Step::Sleep(d) ==> (empty && d.nanos == 50_000_000) || (exists|
                g: Seq<char>,
            |
                f.host(g).tasks.len() > 0 && #[trigger] f.host(g).next_allowed == Some(
                    (now.nanos + d.nanos) as nat,
                ) && forall|o: Seq<char>|
                    (#[trigger] f.host(o)).tasks.len() > 0 ==> (f.host(o).next_allowed matches Some(
                        t,
                    ) && t >= now.nanos + d.nanos))
        },
        r !is Work ==> after == e,
{
    let n = now.nanos as nat;
    if !e.control.stopping && !e.control.paused {
        let lease = match r {
            Step::Exit => Lease::Done,
            Step::Sleep(d) => if e.frontier.answers(n, Lease::Wait(d), after.frontier) {
                Lease::Wait(d)
            } else {
                Lease::Idle
            },
            Step::Work(t) => Lease::Ready(t),
        };
        frontier::the_budget_is_used_up(e.frontier, n, lease, after.frontier);
        if !(e.frontier.max_pages matches Some(max) && e.frontier.dispatched >= max) {
            frontier::answers_go_by_what_waits(e.frontier, n, lease, after.frontier);
        }
    }
}

/// A task that is handed out is in flight, and nothing else changes for it but
/// the frontier.
pub proof fn handed_out_tasks_are_in_flight(e: EngineView, now: Instant, r: Step, after: EngineView)
    requires
        e.steps(now, r, after),
        r is Work,
        e.stats.in_flight < u64::MAX,
    ensures
        after.stats.in_flight == e.stats.in_flight + 1,
        after == (EngineView {
            frontier: after.frontier,
            stats: Stats { in_flight: after.stats.in_flight, ..e.stats },
            ..e
        }),
        after.frontier.active == e.frontier.active + 1,
        after.frontier.dispatched == e.frontier.dispatched + 1,
{
    let n = now.nanos as nat;
    let h = choose|h: Seq<char>| #[trigger]
        e.frontier.earliest(h, n) && e.frontier.allowed_at(h, n) <= n && r->Work_0@
            == e.frontier.task(h, 0) && after.frontier == e.frontier.leased(h, n);
    assert(e.frontier.earliest(h, n));
}

/// The filter keeps the order of what it lets pass, and drops nothing else.
pub proof fn filtering_keeps_order(f: FilterView, urls: Seq<UrlView>)
    ensures
        in_scope(f, urls) == urls.filter(|u: UrlView| f.allows(u)),
    decreases urls.len(),
{
    reveal(Seq::filter);
    if urls.len() > 0 {
        filtering_keeps_order(f, urls.drop_last());
    }
    assert(in_scope(f, urls) =~= urls.filter(|u: UrlView| f.allows(u)));
}

/// One task is made for each URL, in order: a seed, or a link with its depth and
/// the page it was found on.
pub proof fn one_task_per_url(urls: Seq<UrlView>, depth: u32, base: UrlView, i: int)
    requires
        0 <= i < urls.len(),
    ensures
        seed_tasks(urls).len() == urls.len(),
        child_tasks(urls, depth, base).len() == urls.len(),
        seed_tasks(urls)[i] == (TaskView { url: urls[i], depth: 0, referrer: None }),
        child_tasks(urls, depth, base)[i] == (TaskView {
            url: urls[i],
            depth,
            referrer: Some(base),
        }),
{
}

/// No seed is lost: once the seeds were put into the frontier, every one of them
/// with a host has been accepted, whatever the filter says and however shallow
/// the crawl is.
pub proof fn no_seed_is_lost(e: EngineView, urls: Seq<UrlView>, i: int)
    requires
        0 <= i < urls.len(),
        normalize::normalized(urls[i]).host is Some,
    ensures
        e.enqueued(seed_tasks(urls)).frontier.seen.contains(normalize::normalized(urls[i]).text()),
{
    let tasks = seed_tasks(urls);
    assert(tasks[i] == TaskView::seed(urls[i]));
    frontier::hosts_go_by_name(normalize::normalized(urls[i]), normalize::normalized(urls[i]));
    offered_remembers(e.frontier, tasks, i);
}

/// No advertised page in scope is lost: once the pages of a sitemap were put into
/// the frontier, every one of them with a host that the filter allows has been
/// accepted.
pub proof fn no_advertised_page_is_lost(e: EngineView, pages: Seq<UrlView>, i: int)
    requires
        0 <= i < pages.len(),
        e.filter.allows(pages[i]),
        normalize::normalized(pages[i]).host is Some,
    ensures
        e.enqueued(seed_tasks(in_scope(e.filter, pages))).frontier.seen.contains(
            normalize::normalized(pages[i]).text(),
        ),
{
    let kept = in_scope(e.filter, pages);
    allowed_is_in_scope(e.filter, pages, i);
    let k = kept.index_of(pages[i]);
    no_seed_is_lost(e, kept, k);
}

/// Seeds wait at depth `0`, without a referrer, in canonical form, and nothing
/// else comes to wait with them.
pub proof fn seeds_wait_at_the_surface(e: EngineView, urls: Seq<UrlView>, h: Seq<char>, i: int)
    requires
        e.enqueued(seed_tasks(urls)).frontier.holds(h, i),
        !e.frontier.holds(h, i),
    ensures
        ({
            let t = e.enqueued(seed_tasks(urls)).frontier.task(h, i);
            &&& t.depth == 0
            &&& t.referrer is None
            &&& exists|k: int|
                0 <= k < urls.len() && t.url == normalize::normalized(#[trigger] urls[k])
        }),
{
    let tasks = seed_tasks(urls);
    let k = offered_adds(e.frontier, tasks, h, i);
    assert(tasks[k] == TaskView::seed(urls[k]));
    assert(0 <= k < urls.len() && e.enqueued(tasks).frontier.task(h, i).url
        == normalize::normalized(urls[k]));
}

/// What is new is counted once: offering tasks adds as many URLs to those that
/// were seen as were accepted, and the count of discovered URLs grows by just
/// that.
pub proof fn what_is_new_is_counted(e: EngineView, tasks: Seq<TaskView>)
    requires
        e.frontier.sound(),
        e.stats.discovered == e.frontier.seen.len(),
        e.stats.discovered + tasks.len() <= u64::MAX,
    ensures
        e.enqueued(tasks).frontier.seen.len() == e.frontier.seen.len() + accepted(
            e.frontier,
            tasks,
        ),
        e.enqueued(tasks).stats.discovered == e.enqueued(tasks).frontier.seen.len(),
        e.enqueued(tasks).stats == (Stats {
            discovered: e.enqueued(tasks).stats.discovered,
            ..e.stats
        }),
        e.enqueued(tasks) == (EngineView {
            frontier: e.enqueued(tasks).frontier,
            stats: e.enqueued(tasks).stats,
            ..e
        }),
{
    offered_facts(e.frontier, tasks);
}

/// Tasks are offered one after the other.
pub proof fn tasks_are_offered_in_turn(f: FrontierView, tasks: Seq<TaskView>, t: TaskView)
    ensures
        offered(f, Seq::empty()) == f,
        accepted(f, Seq::empty()) == 0,
        offered(f, tasks.push(t)) == offered(f, tasks).added(t),
        offered(f, tasks).accepts(t) ==> accepted(f, tasks.push(t)) == accepted(f, tasks) + 1,
        !offered(f, tasks).accepts(t) ==> accepted(f, tasks.push(t)) == accepted(f, tasks),
{
    assert(tasks.push(t).drop_last() =~= tasks);
    assert(tasks.push(t).last() == t);
}

/// A page that was fetched counts as one page and as all of its bytes, and
/// changes nothing but these counts and what its links add.
pub proof fn pages_are_counted(
    e: EngineView,
    depth: u32,
    final_url: UrlView,
    body_bytes: u64,
    links: Seq<UrlView>,
)
    requires
        depth < u32::MAX,
        e.stats.fetched < u64::MAX,
        e.stats.bytes + body_bytes <= u64::MAX,
    ensures
        ({
            let after = e.page_recorded(depth, final_url, body_bytes, links);
            let kept = links.filter(|u: UrlView| e.filter.allows(u));
            let next = e.enqueued(
                Seq::new(
                    kept.len(),
                    |i: int|
                        TaskView {
                            url: kept[i],
                            depth: (depth + 1) as u32,
                            referrer: Some(final_url),
                        },
                ),
            );
            &&& after.stats.fetched == e.stats.fetched + 1
            &&& after.stats.bytes == e.stats.bytes + body_bytes
            &&& after.stats.failed == e.stats.failed
            &&& after.stats.in_flight == e.stats.in_flight
            &&& after.stats.start == e.stats.start
            &&& after.stats.discovered == next.stats.discovered
            &&& after.frontier == next.frontier
            &&& after.config == e.config
            &&& after.filter == e.filter
            &&& after.robots == e.robots
            &&& after.control == e.control
            &&& after.error == e.error
        }),
{
    let kept = links.filter(|u: UrlView| e.filter.allows(u));
    filtering_keeps_order(e.filter, links);
    let tasks = Seq::new(
        kept.len(),
        |i: int| TaskView { url: kept[i], depth: (depth + 1) as u32, referrer: Some(final_url) },
    );
    assert(child_tasks(kept, (depth + 1) as u32, final_url) =~= tasks);
}

/// A failure counts as one, a task that is handed back is no longer out, and
/// neither changes anything else.
pub proof fn failures_and_returns_are_counted(e: EngineView)
    ensures
        e.stats.failed < u64::MAX ==> e.failure_recorded() == (EngineView {
            stats: Stats { failed: (e.stats.failed + 1) as u64, ..e.stats },
            ..e
        }),
        e.stats.in_flight > 0 && e.frontier.active > 0 ==> e.handed_back() == (EngineView {
            frontier: FrontierView { active: (e.frontier.active - 1) as nat, ..e.frontier },
            stats: Stats { in_flight: (e.stats.in_flight - 1) as u64, ..e.stats },
            ..e
        }),
{
}

/// A fatal error stops the crawl and is kept, unless one came before it; nothing
/// else changes.
pub proof fn fatal_errors_stop_the_crawl(e: EngineView, error: ErrorView)
    ensures
        e.aborted(error).control.stopping,
        e.aborted(error).control.paused == e.control.paused,
        e.error is None ==> e.aborted(error).error == Some(error),
        e.error is Some ==> e.aborted(error).error == e.error,
        e.aborted(error) == (EngineView {
            control: e.aborted(error).control,
            error: e.aborted(error).error,
            ..e
        }),
{
}

/// A crawl starts with the limits of its configuration, nothing in its frontier,
/// nothing counted, nothing known, and running.
pub proof fn crawls_start_empty(config: ConfigView, now: Instant, h: Seq<char>, u: UrlView)
    ensures
        ({
            let e = EngineView::fresh(config, now);
            &&& e.config == config
            &&& e.frontier.delay_of(h) == config.settings.per_host_delay.nanos
            &&& e.frontier.max_depth == config.settings.max_depth
            &&& e.frontier.max_pages == config.settings.max_pages
            &&& e.frontier.host(h).tasks.len() == 0
            &&& !e.frontier.seen.contains(h)
            &&& e.frontier.queued == 0 && e.frontier.active == 0 && e.frontier.dispatched == 0
            &&& !e.robots.knows(u)
            &&& e.robots.user_agent == config.settings.user_agent
            &&& e.stats.fetched == 0 && e.stats.failed == 0 && e.stats.discovered == 0
            &&& e.stats.in_flight == 0 && e.stats.bytes == 0 && e.stats.start == now
            &&& !e.control.paused && !e.control.stopping
            &&& e.error is None
        }),
{
    frontier::empty_frontiers_know_nothing(
        config.settings.per_host_delay.nanos as nat,
        config.settings.max_depth,
        config.settings.max_pages,
        h,
    );
}

/// A body is searched for a title and links exactly where its content type says
/// `html` somewhere.
pub proof fn html_is_read(response: ResponseView, before: Seq<char>, behind: Seq<char>)
    ensures
        response.content_type == Some(before + "html"@ + behind) ==> parsed_body(response)
            == parser::parsed(response.final_url, utf8_lossy(response.body)),
        response.content_type is None ==> parsed_body(response).title is None && parsed_body(
            response,
        ).links.len() == 0,
        response.content_type matches Some(ct) && !text::contains_text(ct, "html"@)
            ==> parsed_body(response).title is None && parsed_body(response).links.len() == 0,
{
    let whole = before + "html"@ + behind;
    text::containing_is_surrounding(whole, "html"@);
}

/// The record of a page holds what was requested, what came back and what was
/// found in it, and the time it took in whole milliseconds.
pub proof fn records_hold_the_page(
    page: CrawledPage,
    task: TaskView,
    response: ResponseView,
    title: Option<Seq<char>>,
    links: Seq<Seq<char>>,
    fetched_at: Seq<char>,
    elapsed: Duration,
)
    requires
        page_record(page, task, response, title, links, fetched_at, elapsed),
    ensures
        page.url@ == task.url.text(),
        page.final_url@ == response.final_url.text(),
        page.status == response.status,
        page.depth == task.depth,
        task.referrer matches Some(u) ==> (page.referrer matches Some(s) && s@ == u.text()),
        task.referrer is None ==> page.referrer is None,
        response.content_type matches Some(t) ==> (page.content_type matches Some(s) && s@ == t),
        response.content_type is None ==> page.content_type is None,
        title matches Some(t) ==> (page.title matches Some(s) && s@ == t),
        title is None ==> page.title is None,
        page.content_length == response.body.len(),
        page.links@.len() == links.len(),
        forall|i: int| 0 <= i < links.len() ==> (#[trigger] page.links@[i])@ == links[i],
        page.fetched_at@ == fetched_at,
        elapsed.nanos < 1_000_000 * 0x1_0000_0000_0000_0000 ==> page.elapsed_ms * 1_000_000
            <= elapsed.nanos < (page.elapsed_ms + 1) * 1_000_000,
{
    assert(text::texts(page.links@).len() == page.links@.len());
    assert forall|i: int| 0 <= i < links.len() implies (#[trigger] page.links@[i])@ == links[i] by {
        assert(text::texts(page.links@)[i] == page.links@[i]@);
    }
}

/// Idle workers look again after 50 ms, observers may fall 4096 events behind,
/// and at most 50 children of a sitemap index are fetched.
pub proof fn limits_are_as_documented()
    ensures
        IDLE_POLL_MILLIS == 50,
        EVENT_BUFFER == 4096,
        MAX_CHILD_SITEMAPS == 50,
{
}

} // verus!
