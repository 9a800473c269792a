//! One task from start to end: what a worker does next, after each thing that
//! happens to its task.

use vstd::prelude::*;

use crate::engine::{self, page_event, Admission, CrawlEvent, Engine, EngineView};
use crate::error::CrawlError;
use crate::fetcher::{FetchError, FetchResponse};
use crate::page::{CrawlTask, CrawledPage, PageError, PageErrorKind, TaskView};
use crate::parser::{self, ParsedHtml};
use crate::robots::{self, robots_url};
use crate::text;
use crate::time::Duration;
use crate::weburl::{self, Url, UrlView};

verus! {

/// Something that happens to a task.
pub enum TaskEvent {
    /// The task was handed out.
    Start,
    /// The `robots.txt` of its origin was asked for, and this arrived.
    Robots(Option<Vec<u8>>),
    /// Its page was fetched and read.
    Fetched {
        response: FetchResponse,
        parsed: ParsedHtml,
        fetched_at: String,
        elapsed: Duration,
    },
    /// Its page could not be fetched.
    Failed(FetchError),
}

/// What a worker does for a task.
pub enum TaskAction {
    /// Ask for the `robots.txt` that lies here.
    FetchRobots(Url),
    /// Fetch the task's page.
    FetchPage,
    /// Hand the page to the sink, and then tell whether it was taken.
    Deliver { page: CrawledPage, new_links: usize },
    /// Hand the failure to the sink; the task is done.
    Report(PageError),
}

/// Where the `robots.txt` of the origin of `u` lies.
pub open spec fn rules_place(u: UrlView) -> Option<UrlView> {
    match weburl::url_resolved(Some(u.text()), "/robots.txt"@) {
        Ok(v) => Some(v),
        Err(_) => None,
    }
}

impl EngineView {
    /// The state after `file` arrived for the origin of `u`.
    pub open spec fn taught(self, u: UrlView, file: Option<Seq<u8>>) -> EngineView {
        EngineView { robots: self.robots.stored(u, file), ..self }
    }
}

/// Whether `e` is the record of a failure of `task`.
pub open spec fn failure_record(
    e: PageError,
    task: TaskView,
    kind: PageErrorKind,
    message: Seq<char>,
) -> bool {
    &&& e.url@ == task.url.text()
    &&& text::opt_view(e.referrer) == task.referrer_text()
    &&& e.kind == kind
    &&& e.error@ == message
}

/// Whether `r` follows once the rules for `task` are known, and `after` is the
/// state that goes with it: the page is fetched where the rules allow that, and
/// else the task has failed.
pub open spec fn decided(e: EngineView, task: TaskView, r: TaskAction, after: EngineView) -> bool {
    match e.admission(task.url) {
        Admission::Granted => r is FetchPage && after == e.admitted(task.url),
        Admission::Denied => {
            &&& r matches TaskAction::Report(error) && failure_record(
                error,
                task,
                PageErrorKind::RobotsDenied,
                "blocked by robots.txt"@,
            )
            &&& after == e.failure_recorded()
        },
        Admission::Unknown => false,
    }
}

/// Whether `r` is what a worker does for `task` after `event`, and `after` the
/// state of the engine that goes with it.
pub open spec fn advances(
    e: EngineView,
    task: TaskView,
    event: TaskEvent,
    r: TaskAction,
    after: EngineView,
) -> bool {
    match event {
        TaskEvent::Start => if e.admission(task.url) !is Unknown {
            decided(e, task, r, after)
        } else {
            match rules_place(task.url) {
                Some(place) => (r matches TaskAction::FetchRobots(u) && u@ == place) && after == e,
                None => decided(e.taught(task.url, None), task, r, after),
            }
        },
        TaskEvent::Robots(file) => decided(
            e.taught(task.url, robots::opt_bytes(file)),
            task,
            r,
            after,
        ),
        TaskEvent::Fetched { response, parsed, fetched_at, elapsed } => {
            let links = engine::in_scope(e.filter, parsed@.links);
            &&& r matches TaskAction::Deliver { page, new_links } && engine::page_record(
                page,
                task,
                response@,
                parsed@.title,
                parser::url_texts(links),
                fetched_at@,
                elapsed,
            ) && new_links == engine::accepted(
                e.frontier,
                engine::child_tasks(links, (task.depth + 1) as u32, response@.final_url),
            )
            &&& after == e.page_recorded(
                task.depth,
                response@.final_url,
                response@.body.len() as u64,
                parsed@.links,
            )
        },
        TaskEvent::Failed(err) => {
            &&& r matches TaskAction::Report(error) && failure_record(
                error,
                task,
                err.kind,
                err.message@,
            )
            &&& after == e.failure_recorded()
        },
    }
}

/// Act on the rules for a task, once they are known.
fn decide(engine: &mut Engine, task: &CrawlTask) -> (r: TaskAction)
    requires
        old(engine).wf(),
        old(engine)@.admission(task@.url) !is Unknown,
    ensures
        final(engine).wf(),
        decided(old(engine)@, task@, r, final(engine)@),
{
    if engine.screen(task) == Admission::Granted {
        TaskAction::FetchPage
    } else {
        TaskAction::Report(engine.record_denial(task))
    }
}

/// Decide what a worker does for `task` after `event`.
pub fn advance(engine: &mut Engine, task: &CrawlTask, event: TaskEvent) -> (r: TaskAction)
    requires
        old(engine).wf(),
        event is Fetched ==> task.depth < u32::MAX,
    ensures
        final(engine).wf(),
        advances(old(engine)@, task@, event, r, final(engine)@),
{
    match event {
        TaskEvent::Start => {
            if !engine.needs_rules(&task.url) {
                return decide(engine, task);
            }
            match robots_url(&task.url) {
                Some(place) => TaskAction::FetchRobots(place),
                None => {
                    engine.learn_robots(&task.url, None);
                    decide(engine, task)
                },
            }
        },
        TaskEvent::Robots(file) => {
            engine.learn_robots(&task.url, file);
            decide(engine, task)
        },
        TaskEvent::Fetched { response, parsed, fetched_at, elapsed } => {
            let (page, new_links) = engine.record_page(
                task,
                &response,
                parsed,
                fetched_at,
                elapsed,
            );
            TaskAction::Deliver { page, new_links }
        },
        TaskEvent::Failed(err) => TaskAction::Report(
            engine.record_failure(task, err.kind, err.message),
        ),
    }
}

/// Conclude the delivery of a page: a page that the sink took is announced, and
/// a sink that fails aborts the crawl.
pub fn delivered(
    engine: &mut Engine,
    page: &CrawledPage,
    new_links: usize,
    taken: Result<(), CrawlError>,
) -> (r: Option<CrawlEvent>)
    requires
        old(engine).wf(),
    ensures
        final(engine).wf(),
        match taken {
            Ok(_) => {
                &&& r matches Some(CrawlEvent::Page { url, status, depth, new_links: n })
                    && url@ == page.url@ && status == page.status && depth == page.depth && n
                    == new_links
                &&& final(engine)@ == old(engine)@
            },
            Err(e) => r is None && final(engine)@ == old(engine)@.aborted(e@),
        },
{
    match taken {
        Ok(_) => Some(page_event(page, new_links)),
        Err(e) => {
            engine.fail_crawl(e);
            None
        },
    }
}

/// A page is fetched only where the rules of its origin are known to allow it,
/// or where rules are not respected.
pub proof fn only_granted_pages_are_fetched(
    e: EngineView,
    task: TaskView,
    event: TaskEvent,
    r: TaskAction,
    after: EngineView,
)
    requires
        advances(e, task, event, r, after),
        r is FetchPage,
    ensures
        after.config == e.config,
        after.config.settings.respect_robots ==> after.robots.knows(task.url)
            && after.robots.entry(task.url).allows(task.url.text()),
{
}

/// The record of a page speaks of its body: where the page was read from the
/// body that arrived, its title is the body's, its links are those of the body
/// that are in scope, and its length is the body's.
pub proof fn records_speak_of_their_body(
    e: EngineView,
    task: TaskView,
    event: TaskEvent,
    r: TaskAction,
    after: EngineView,
)
    requires
        advances(e, task, event, r, after),
        event matches TaskEvent::Fetched { response, parsed, .. } && parsed@
            == engine::parsed_body(response@),
    ensures
        ({
            let response = event->response@;
            let body = engine::parsed_body(response);
            let links = engine::in_scope(e.filter, body.links);
            &&& r matches TaskAction::Deliver { page, .. } && page.url@ == task.url.text()
                && page.final_url@ == response.final_url.text() && page.status == response.status
                && text::opt_view(page.title) == body.title && text::texts(page.links@)
                == parser::url_texts(links) && page.content_length == response.body.len()
            &&& after == e.page_recorded(
                task.depth,
                response.final_url,
                response.body.len() as u64,
                body.links,
            )
        }),
{
}

/// Once the rules were asked for, the task goes on or fails: they are not asked
/// for again.
pub proof fn rules_are_asked_for_once(
    e: EngineView,
    task: TaskView,
    file: Option<Vec<u8>>,
    r: TaskAction,
    after: EngineView,
)
    requires
        advances(e, task, TaskEvent::Robots(file), r, after),
    ensures
        r is FetchPage || r is Report,
{
}

/// What is known is not asked for again: a task whose origin is known goes on or
/// fails without asking for its `robots.txt`.
pub proof fn known_rules_are_remembered(
    e: EngineView,
    task: TaskView,
    r: TaskAction,
    after: EngineView,
)
    requires
        e.robots.knows(task.url),
        advances(e, task, TaskEvent::Start, r, after),
    ensures
        r is FetchPage || r is Report,
        after.robots == e.robots,
{
}

/// A denied page is recorded as a failure, and nothing else changes.
pub proof fn denied_pages_fail(
    e: EngineView,
    task: TaskView,
    r: TaskAction,
    after: EngineView,
)
    requires
        e.admission(task.url) is Denied,
        advances(e, task, TaskEvent::Start, r, after),
    ensures
        r matches TaskAction::Report(error) && error.kind is RobotsDenied,
        after.frontier == e.frontier,
        after.stats.fetched == e.stats.fetched,
{
}

/// How a task starts. Where rules are ignored, or known to allow its URL, its
/// page is fetched; where they are known to forbid it, it has failed; where
/// they are not known, the `robots.txt` at the root of its origin is asked for
/// first, and only where that place is no URL is the page fetched without.
pub proof fn tasks_start_by_their_rules(
    e: EngineView,
    task: TaskView,
    r: TaskAction,
    after: EngineView,
)
    requires
        advances(e, task, TaskEvent::Start, r, after),
    ensures
        !e.config.settings.respect_robots ==> r is FetchPage && after == e,
        e.config.settings.respect_robots && e.robots.knows(task.url) ==> {
            &&& e.robots.entry(task.url).allows(task.url.text()) ==> r is FetchPage
            &&& !e.robots.entry(task.url).allows(task.url.text()) ==> (r matches TaskAction::Report(
                error,
            ) && error.url@ == task.url.text() && error.kind is RobotsDenied && error.error@
                == "blocked by robots.txt"@)
            &&& after.robots == e.robots
        },
        e.config.settings.respect_robots && !e.robots.knows(task.url) ==> (
        match weburl::url_resolved(Some(task.url.text()), "/robots.txt"@) {
            Ok(place) => (r matches TaskAction::FetchRobots(u) && u@ == place) && after == e,
            Err(_) => r is FetchPage && after.robots.knows(task.url),
        }),
{
    engine::admission_goes_by_the_rules(e, task.url);
    let t = e.taught(task.url, None);
    engine::admission_goes_by_the_rules(t, task.url);
    robots::no_rules_are_no_limits(e.robots, task.url, task.url, None, task.url.text());
}

/// What follows the `robots.txt` of a task's origin, straight from the rules that
/// were read out of it: the page is fetched exactly where they allow its URL, a
/// delay they ask for is the least that the host gets from then on, and a page
/// that they forbid is reported as such.
pub proof fn rules_that_arrive_decide(
    e: EngineView,
    task: TaskView,
    file: Vec<u8>,
    rules: robots::RulesView,
    h: Seq<char>,
    r: TaskAction,
    after: EngineView,
)
    requires
        advances(e, task, TaskEvent::Robots(Some(file)), r, after),
        e.config.settings.respect_robots,
        e.robots.user_agent == e.config.settings.user_agent,
        file@.len() > 0,
        robots::robots_rules(e.config.settings.user_agent, file@) == Some(rules),
        task.url.host == Some(h),
    ensures
        rules.allowed.contains(task.url.text()) <==> r is FetchPage,
        !rules.allowed.contains(task.url.text()) ==> (r matches TaskAction::Report(error)
            && error.url@ == task.url.text() && text::opt_view(error.referrer)
            == task.referrer_text() && error.kind is RobotsDenied && error.error@
            == "blocked by robots.txt"@),
        r is FetchPage && e.config.settings.respect_crawl_delay ==> (rules.delay matches Some(d)
            ==> after.frontier.delay_of(text::lowered(h)) >= d),
        r is FetchPage ==> after.frontier.delay_of(text::lowered(h)) >= e.frontier.delay_of(
            text::lowered(h),
        ),
        after.robots.knows(task.url),
        after.robots.entry(task.url).delay == rules.delay,
        after.robots.entry(task.url).sitemaps == rules.sitemaps,
{
    let t = e.taught(task.url, Some(file@));
    robots::rules_are_kept_as_read(
        e.robots,
        task.url,
        task.url,
        file@,
        rules,
        task.url.text(),
    );
    engine::admission_goes_by_the_rules(t, task.url);
    if rules.allowed.contains(task.url.text()) {
        match rules.delay {
            Some(d) => {
                if e.config.settings.respect_crawl_delay {
                    engine::advertised_delays_slow_the_host(t, task.url, h, d, h);
                }
            },
            None => {
                engine::no_delay_slows_nothing(t, task.url);
            },
        }
    }
}

/// What follows where no rules came, whatever the reason: the page is fetched,
/// and no host is slowed down.
pub proof fn pages_without_rules_are_fetched(
    e: EngineView,
    task: TaskView,
    file: Option<Vec<u8>>,
    r: TaskAction,
    after: EngineView,
)
    requires
        advances(e, task, TaskEvent::Robots(file), r, after),
        file matches Some(f) ==> f@.len() == 0 || robots::robots_rules(
            e.robots.user_agent,
            f@,
        ) is None,
    ensures
        r is FetchPage,
        after.frontier == e.frontier,
        after.stats == e.stats,
{
    let bytes = robots::opt_bytes(file);
    robots::no_rules_are_no_limits(
        e.robots,
        task.url,
        task.url,
        bytes,
        task.url.text(),
    );
    let t = e.taught(task.url, bytes);
    engine::admission_goes_by_the_rules(t, task.url);
    engine::no_delay_slows_nothing(t, task.url);
}

/// A page that could not be fetched is reported with the reason and the message
/// of the failure, for the task's own URL and referrer, and counts as failed.
pub proof fn failures_are_reported_as_they_are(
    e: EngineView,
    task: TaskView,
    err: FetchError,
    r: TaskAction,
    after: EngineView,
)
    requires
        advances(e, task, TaskEvent::Failed(err), r, after),
        e.stats.failed < u64::MAX,
    ensures
        r matches TaskAction::Report(error) && error.url@ == task.url.text() && text::opt_view(
            error.referrer,
        ) == task.referrer_text() && error.kind == err.kind && error.error@ == err.message@,
        after == (EngineView {
            stats: crate::stats::Stats { failed: (e.stats.failed + 1) as u64, ..e.stats },
            ..e
        }),
{
    engine::failures_and_returns_are_counted(e);
}

/// A page that was fetched is delivered with all that is known of it: its links
/// are those that the filter allows, in order, and the number of new ones is how
/// many of them the frontier accepts.
pub proof fn pages_are_delivered_in_full(
    e: EngineView,
    task: TaskView,
    event: TaskEvent,
    r: TaskAction,
    after: EngineView,
)
    requires
        advances(e, task, event, r, after),
        event is Fetched,
    ensures
        r matches TaskAction::Deliver { page, new_links } && {
            let response = event->response@;
            let parsed = event->parsed@;
            let kept = parsed.links.filter(|u: UrlView| e.filter.allows(u));
            &&& page.url@ == task.url.text()
            &&& page.final_url@ == response.final_url.text()
            &&& page.status == response.status
            &&& page.depth == task.depth
            &&& text::opt_view(page.referrer) == task.referrer_text()
            &&& text::opt_view(page.content_type) == response.content_type
            &&& text::opt_view(page.title) == parsed.title
            &&& page.content_length == response.body.len()
            &&& page.links@.len() == kept.len()
            &&& forall|i: int|
                0 <= i < kept.len() ==> (#[trigger] page.links@[i])@ == kept[i].text()
            &&& page.fetched_at@ == event->fetched_at@
            &&& new_links == engine::accepted(
                e.frontier,
                engine::child_tasks(kept, (task.depth + 1) as u32, response.final_url),
            )
        },
{
    let parsed = event->parsed@;
    engine::filtering_keeps_order(e.filter, parsed.links);
    let kept = parsed.links.filter(|u: UrlView| e.filter.allows(u));
    if let TaskAction::Deliver { page, new_links } = r {
        assert(text::texts(page.links@).len() == page.links@.len());
        assert forall|i: int| 0 <= i < kept.len() implies (#[trigger] page.links@[i])@
            == kept[i].text() by {
            assert(text::texts(page.links@)[i] == page.links@[i]@);
            assert(parser::url_texts(kept)[i] == kept[i].text());
        }
    }
}

} // verus!
