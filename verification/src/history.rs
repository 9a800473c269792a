//! A crawl as a whole: what holds between any two moments of it, whatever its
//! workers do in between.
//!
//! A history is a list of states of the engine with what was done between them.
//! All that is done to the frontier on the way is to offer tasks, to slow hosts
//! down, to hand tasks out and to complete them.

use vstd::prelude::*;

use crate::config::ConfigView;
use crate::engine::{self, Admission, CrawlControl, EngineView, Step};
use crate::error::ErrorView;
use crate::frontier::{self, FrontierView, Happening, Lease};
use crate::normalize;
use crate::page::TaskView;
use crate::time::Instant;
use crate::weburl::UrlView;
use crate::worker::{self, TaskAction, TaskEvent};

verus! {

/// Something that is done to an engine, by the method of that name.
pub enum Act {
    Seed,
    SeedFromSitemap(Seq<UrlView>),
    SetControl(CrawlControl),
    /// What a worker was told to do at a time.
    NextStep(Instant, Step),
    Screen(UrlView),
    LearnRobots(UrlView, Option<Seq<u8>>),
    EnqueueLinks { depth: u32, base: UrlView, links: Seq<UrlView> },
    RecordPage { depth: u32, final_url: UrlView, body_bytes: u64, links: Seq<UrlView> },
    RecordFailure,
    FailCrawl(ErrorView),
    HandBack,
    Conclude,
    /// What a worker was told to do for a task after an event.
    Advance(TaskView, TaskEvent, TaskAction),
    /// What the sink said of a page.
    Delivered(Result<(), ErrorView>),
}

/// The tasks for the links of a page that are in scope.
pub open spec fn children(e: EngineView, depth: u32, base: UrlView, links: Seq<UrlView>) -> Seq<
    TaskView,
> {
    engine::child_tasks(engine::in_scope(e.filter, links), (depth + 1) as u32, base)
}

/// Whether `after` is the state that `act` leads to.
pub open spec fn leads_to(e: EngineView, act: Act, after: EngineView) -> bool {
    match act {
        Act::Seed => after == e.enqueued(engine::seed_tasks(e.config.settings.seeds)),
        Act::SeedFromSitemap(pages) => after == e.enqueued(
            engine::seed_tasks(engine::in_scope(e.filter, pages)),
        ),
        Act::SetControl(control) => after == EngineView { control, ..e },
        Act::NextStep(now, r) => e.steps(now, r, after),
        Act::Screen(u) => after == e.admitted(u),
        Act::LearnRobots(u, file) => after == e.taught(u, file),
        Act::EnqueueLinks { depth, base, links } => after == e.enqueued(
            children(e, depth, base, links),
        ),
        Act::RecordPage { depth, final_url, body_bytes, links } => after == e.page_recorded(
            depth,
            final_url,
            body_bytes,
            links,
        ),
        Act::RecordFailure => after == e.failure_recorded(),
        Act::FailCrawl(error) => after == e.aborted(error),
        Act::HandBack => e.frontier.active > 0 && after == e.handed_back(),
        Act::Conclude => after == EngineView { error: None, ..e },
        Act::Advance(task, event, r) => worker::advances(e, task, event, r, after),
        Act::Delivered(Ok(_)) => after == e,
        Act::Delivered(Err(error)) => after == e.aborted(error),
    }
}

/// The offers of `tasks`, in order.
pub open spec fn offers(tasks: Seq<TaskView>) -> Seq<Happening> {
    tasks.map_values(|t: TaskView| Happening::Offer(t))
}

/// What admitting a task for `u` does to the frontier.
pub open spec fn slowing(e: EngineView, u: UrlView) -> Seq<Happening> {
    if e.config.settings.respect_robots && e.config.settings.respect_crawl_delay && e.admission(
        u,
    ) is Granted {
        match (e.robots.entry(u).delay, frontier::key_of(u)) {
            (Some(d), Some(h)) => seq![Happening::Slow(h, d)],
            _ => Seq::empty(),
        }
    } else {
        Seq::empty()
    }
}

/// What `act` does to the frontier.
pub open spec fn happenings(e: EngineView, act: Act) -> Seq<Happening> {
    match act {
        Act::Seed => offers(engine::seed_tasks(e.config.settings.seeds)),
        Act::SeedFromSitemap(pages) => offers(
            engine::seed_tasks(engine::in_scope(e.filter, pages)),
        ),
        Act::NextStep(now, Step::Work(t)) => seq![
            Happening::HandOut(frontier::key_of(t@.url)->0, now.nanos as nat),
        ],
        Act::Screen(u) => slowing(e, u),
        Act::EnqueueLinks { depth, base, links } => offers(children(e, depth, base, links)),
        Act::RecordPage { depth, final_url, links, .. } => offers(
            children(e, depth, final_url, links),
        ),
        Act::HandBack => seq![Happening::Complete],
        Act::Advance(task, TaskEvent::Start, _) => if e.admission(task.url) !is Unknown {
            slowing(e, task.url)
        } else if worker::rules_place(task.url) is Some {
            Seq::empty()
        } else {
            slowing(e.taught(task.url, None), task.url)
        },
        Act::Advance(task, TaskEvent::Robots(file), _) => slowing(
            e.taught(task.url, crate::robots::opt_bytes(file)),
            task.url,
        ),
        Act::Advance(task, TaskEvent::Fetched { response, parsed, .. }, _) => offers(
            children(e, task.depth, response@.final_url, parsed@.links),
        ),
        _ => Seq::empty(),
    }
}

/// Offering tasks one after the other is a run of offers.
proof fn offered_is_run(f: FrontierView, tasks: Seq<TaskView>)
    ensures
        engine::offered(f, tasks) == f.run(offers(tasks)),
        f.can_run(offers(tasks)),
    decreases tasks.len(),
{
    if tasks.len() > 0 {
        offered_is_run(f, tasks.drop_last());
        assert(offers(tasks).drop_last() =~= offers(tasks.drop_last()));
        assert(offers(tasks).last() == Happening::Offer(tasks.last()));
    }
}

/// Admitting a task slows its host down or does nothing.
proof fn admitted_is_run(e: EngineView, u: UrlView)
    ensures
        e.admitted(u).frontier == e.frontier.run(slowing(e, u)),
        e.frontier.can_run(slowing(e, u)),
{
    match (e.robots.entry(u).delay, frontier::key_of(u)) {
        (Some(d), Some(h)) => frontier::run_of_one(e.frontier, Happening::Slow(h, d)),
        _ => {},
    }
}

/// A step of a worker hands out the task that waits first at its host, once the
/// host may be contacted, or leaves the frontier alone.
pub proof fn steps_are_happenings(e: EngineView, now: Instant, r: Step, after: EngineView)
    requires
        e.frontier.sound(),
        e.steps(now, r, after),
    ensures
        r !is Work ==> after.frontier == e.frontier,
        r matches Step::Work(t) ==> {
            &&& frontier::key_of(t@.url) matches Some(h)
            &&& e.frontier.can(Happening::HandOut(h, now.nanos as nat))
            &&& after.frontier == e.frontier.after(Happening::HandOut(h, now.nanos as nat))
            &&& e.frontier.holds(h, 0)
            &&& t@ == e.frontier.task(h, 0)
        },
{
    if let Step::Work(t) = r {
        let n = now.nanos as nat;
        let h = choose|h: Seq<char>| #[trigger]
            e.frontier.earliest(h, n) && e.frontier.allowed_at(h, n) <= n && t@ == e.frontier.task(
                h,
                0,
            ) && after.frontier == e.frontier.leased(h, n);
        assert(e.frontier.waiting(h));
        assert(e.frontier.holds(h, 0));
    }
}

/// Whatever is done to an engine does to its frontier what
/// [`happenings`] says, and leaves its configuration and its filter alone.
pub proof fn acts_are_happenings(e: EngineView, act: Act, after: EngineView)
    requires
        e.frontier.sound(),
        leads_to(e, act, after),
    ensures
        e.frontier.can_run(happenings(e, act)),
        after.frontier == e.frontier.run(happenings(e, act)),
        after.config == e.config,
        after.filter == e.filter,
{
    match act {
        Act::Seed => offered_is_run(
            e.frontier,
            engine::seed_tasks(e.config.settings.seeds),
        ),
        Act::SeedFromSitemap(pages) => offered_is_run(
            e.frontier,
            engine::seed_tasks(engine::in_scope(e.filter, pages)),
        ),
        Act::NextStep(now, r) => {
            steps_are_happenings(e, now, r, after);
            if let Step::Work(t) = r {
                frontier::run_of_one(
                    e.frontier,
                    Happening::HandOut(frontier::key_of(t@.url)->0, now.nanos as nat),
                );
            }
        },
        Act::Screen(u) => admitted_is_run(e, u),
        Act::EnqueueLinks { depth, base, links } => offered_is_run(
            e.frontier,
            children(e, depth, base, links),
        ),
        Act::RecordPage { depth, final_url, links, .. } => offered_is_run(
            e.frontier,
            children(e, depth, final_url, links),
        ),
        Act::HandBack => frontier::run_of_one(e.frontier, Happening::Complete),
        Act::Advance(task, event, _) => match event {
            TaskEvent::Start => {
                admitted_is_run(e, task.url);
                admitted_is_run(e.taught(task.url, None), task.url);
            },
            TaskEvent::Robots(file) => admitted_is_run(
                e.taught(task.url, crate::robots::opt_bytes(file)),
                task.url,
            ),
            TaskEvent::Fetched { response, parsed, .. } => offered_is_run(
                e.frontier,
                children(e, task.depth, response@.final_url, parsed@.links),
            ),
            TaskEvent::Failed(_) => {},
        },
        _ => {},
    }
}

/// Whether each of `acts` leads from one of `states` to the next.
pub open spec fn is_history(states: Seq<EngineView>, acts: Seq<Act>) -> bool {
    &&& states.len() == acts.len() + 1
    &&& forall|i: int| 0 <= i < acts.len() ==> leads_to(states[i], #[trigger] acts[i], states[i + 1])
}

/// What happens to the frontier from state `i` to state `j`.
pub open spec fn happened(states: Seq<EngineView>, acts: Seq<Act>, i: int, j: int) -> Seq<Happening>
    decreases j - i,
{
    if j <= i {
        Seq::empty()
    } else {
        happened(states, acts, i, j - 1) + happenings(states[j - 1], acts[j - 1])
    }
}

/// A crawl keeps its frontier sound, its configuration, its filter and its
/// limits, and never lowers the delay of a host.
pub proof fn crawls_stay_sound(states: Seq<EngineView>, acts: Seq<Act>, i: int, j: int)
    requires
        is_history(states, acts),
        0 <= i <= j <= acts.len(),
        states[i].frontier.sound(),
    ensures
        states[i].frontier.can_run(happened(states, acts, i, j)),
        states[j].frontier == states[i].frontier.run(happened(states, acts, i, j)),
        states[j].frontier.sound(),
        states[j].config == states[i].config,
        states[j].filter == states[i].filter,
        states[j].frontier.base_delay == states[i].frontier.base_delay,
        states[j].frontier.max_depth == states[i].frontier.max_depth,
        states[j].frontier.max_pages == states[i].frontier.max_pages,
        forall|h: Seq<char>| #[trigger]
            states[j].frontier.delay_of(h) >= states[i].frontier.delay_of(h),
    decreases j - i,
{
    if i < j {
        crawls_stay_sound(states, acts, i, j - 1);
        let e = states[j - 1];
        let act = acts[j - 1];
        assert(leads_to(states[j - 1], acts[j - 1], states[j - 1 + 1]));
        acts_are_happenings(e, act, states[j]);
        frontier::run_in_parts(
            states[i].frontier,
            happened(states, acts, i, j - 1),
            happenings(e, act),
        );
    }
    frontier::run_facts(states[i].frontier, happened(states, acts, i, j));
}

/// Whether `act` hands out a task.
pub open spec fn hands_out(act: Act) -> bool {
    act matches Act::NextStep(_, r) && r is Work
}

/// The task that `act` hands out.
pub open spec fn task_of(act: Act) -> TaskView {
    act->NextStep_1->Work_0@
}

/// When `act` hands out a task.
pub open spec fn time_of(act: Act) -> Instant {
    act->NextStep_0
}

/// No URL is handed out twice in a crawl.
pub proof fn no_page_is_handed_out_twice(
    states: Seq<EngineView>,
    acts: Seq<Act>,
    i: int,
    j: int,
)
    requires
        is_history(states, acts),
        states[0].frontier.sound(),
        0 <= i < j < acts.len(),
        hands_out(acts[i]),
        hands_out(acts[j]),
    ensures
        task_of(acts[i]).url.text() != task_of(acts[j]).url.text(),
{
    crawls_stay_sound(states, acts, 0, i);
    assert(leads_to(states[i], acts[i], states[i + 1]));
    assert(leads_to(states[j], acts[j], states[j + 1]));
    let now = time_of(acts[i]);
    let later = time_of(acts[j]);
    steps_are_happenings(states[i], now, acts[i]->NextStep_1, states[i + 1]);
    let h = frontier::key_of(task_of(acts[i]).url)->0;
    frontier::soundness_is_kept(states[i].frontier, Happening::HandOut(h, now.nanos as nat));
    crawls_stay_sound(states, acts, i + 1, j);
    steps_are_happenings(states[j], later, acts[j]->NextStep_1, states[j + 1]);
    frontier::no_url_is_handed_out_twice(
        states[i].frontier,
        h,
        now.nanos as nat,
        happened(states, acts, i + 1, j),
        frontier::key_of(task_of(acts[j]).url)->0,
        0,
    );
}

/// Requests to one host are kept apart: between any two tasks of a host that a
/// crawl hands out passes at least the delay that the host had at the first of
/// them, which is at least the configured one.
pub proof fn requests_are_spaced(states: Seq<EngineView>, acts: Seq<Act>, i: int, j: int)
    requires
        is_history(states, acts),
        states[0].consistent(),
        0 <= i < j < acts.len(),
        hands_out(acts[i]),
        hands_out(acts[j]),
        frontier::key_of(task_of(acts[i]).url) == frontier::key_of(
            task_of(acts[j]).url,
        ),
        time_of(acts[i]).nanos + states[i].frontier.delay_of(
            frontier::key_of(task_of(acts[i]).url)->0,
        ) <= u128::MAX,
    ensures
        ({
            let first = time_of(acts[i]);
            let second = time_of(acts[j]);
            let h = frontier::key_of(task_of(acts[i]).url)->0;
            &&& second.nanos >= first.nanos + states[i].frontier.delay_of(h)
            &&& second.nanos >= first.nanos + states[0].config.settings.per_host_delay.nanos
        }),
{
    crawls_stay_sound(states, acts, 0, i);
    assert(leads_to(states[i], acts[i], states[i + 1]));
    assert(leads_to(states[j], acts[j], states[j + 1]));
    let now = time_of(acts[i]);
    let later = time_of(acts[j]);
    steps_are_happenings(states[i], now, acts[i]->NextStep_1, states[i + 1]);
    let h = frontier::key_of(task_of(acts[i]).url)->0;
    frontier::soundness_is_kept(states[i].frontier, Happening::HandOut(h, now.nanos as nat));
    crawls_stay_sound(states, acts, i + 1, j);
    steps_are_happenings(states[j], later, acts[j]->NextStep_1, states[j + 1]);
    frontier::requests_to_a_host_are_spaced(
        states[i].frontier,
        h,
        now.nanos as nat,
        happened(states, acts, i + 1, j),
        later.nanos as nat,
    );
}

/// Nothing beyond the depth limit is handed out.
pub proof fn the_depth_limit_holds(states: Seq<EngineView>, acts: Seq<Act>, i: int)
    requires
        is_history(states, acts),
        states[0].consistent(),
        0 <= i < acts.len(),
        hands_out(acts[i]),
    ensures
        states[0].config.settings.max_depth matches Some(max) ==> task_of(acts[i]).depth
            <= max,
{
    crawls_stay_sound(states, acts, 0, i);
    assert(leads_to(states[i], acts[i], states[i + 1]));
    steps_are_happenings(states[i], time_of(acts[i]), acts[i]->NextStep_1, states[i + 1]);
}

/// How many of the first `n` acts hand out a task.
pub open spec fn handed_out(acts: Seq<Act>, n: int) -> nat
    decreases n,
{
    if n <= 0 {
        0
    } else {
        handed_out(acts, n - 1) + if hands_out(acts[n - 1]) {
            1nat
        } else {
            0
        }
    }
}

/// Offers hand out nothing.
proof fn offers_hand_nothing_out(tasks: Seq<TaskView>)
    ensures
        frontier::hand_outs(offers(tasks)) == 0,
    decreases tasks.len(),
{
    if tasks.len() > 0 {
        offers_hand_nothing_out(tasks.drop_last());
        assert(offers(tasks).drop_last() =~= offers(tasks.drop_last()));
        assert(offers(tasks).last() == Happening::Offer(tasks.last()));
    }
}

/// One thing by itself hands out one task or none.
proof fn one_hand_out(e: Happening)
    ensures
        frontier::hand_outs(seq![e]) == if e is HandOut {
            1nat
        } else {
            0
        },
{
    assert(seq![e].drop_last() =~= Seq::<Happening>::empty());
    assert(frontier::hand_outs(Seq::<Happening>::empty()) == 0);
}

/// Slowing a host down hands out nothing.
proof fn slowing_hands_nothing_out(e: EngineView, u: UrlView)
    ensures
        frontier::hand_outs(slowing(e, u)) == 0,
{
    match (e.robots.entry(u).delay, frontier::key_of(u)) {
        (Some(d), Some(h)) => one_hand_out(Happening::Slow(h, d)),
        _ => {},
    }
}

/// An act hands out a task to the frontier's count exactly where it hands one
/// to a worker.
proof fn acts_hand_out_once(e: EngineView, act: Act)
    ensures
        frontier::hand_outs(happenings(e, act)) == if hands_out(act) {
            1nat
        } else {
            0
        },
{
    match act {
        Act::Seed => offers_hand_nothing_out(engine::seed_tasks(e.config.settings.seeds)),
        Act::SeedFromSitemap(pages) => offers_hand_nothing_out(
            engine::seed_tasks(engine::in_scope(e.filter, pages)),
        ),
        Act::NextStep(now, Step::Work(t)) => one_hand_out(
            Happening::HandOut(frontier::key_of(t@.url)->0, now.nanos as nat),
        ),
        Act::Screen(u) => slowing_hands_nothing_out(e, u),
        Act::EnqueueLinks { depth, base, links } => offers_hand_nothing_out(
            children(e, depth, base, links),
        ),
        Act::RecordPage { depth, final_url, links, .. } => offers_hand_nothing_out(
            children(e, depth, final_url, links),
        ),
        Act::HandBack => one_hand_out(Happening::Complete),
        Act::Advance(task, event, _) => match event {
            TaskEvent::Start => {
                slowing_hands_nothing_out(e, task.url);
                slowing_hands_nothing_out(e.taught(task.url, None), task.url);
            },
            TaskEvent::Robots(file) => slowing_hands_nothing_out(
                e.taught(task.url, crate::robots::opt_bytes(file)),
                task.url,
            ),
            TaskEvent::Fetched { response, parsed, .. } => offers_hand_nothing_out(
                children(e, task.depth, response@.final_url, parsed@.links),
            ),
            TaskEvent::Failed(_) => {},
        },
        _ => {},
    }
}

/// The page budget is kept: a crawl hands out as many tasks as are counted, and
/// never more than the budget.
pub proof fn the_page_budget_holds(states: Seq<EngineView>, acts: Seq<Act>, n: int)
    requires
        is_history(states, acts),
        states[0].consistent(),
        0 <= n <= acts.len(),
    ensures
        states[n].frontier.dispatched == states[0].frontier.dispatched + handed_out(acts, n),
        states[0].config.settings.max_pages matches Some(max) ==> handed_out(acts, n) <= max,
    decreases n,
{
    crawls_stay_sound(states, acts, 0, n);
    if n > 0 {
        the_page_budget_holds(states, acts, n - 1);
        crawls_stay_sound(states, acts, 0, n - 1);
        let e = states[n - 1];
        let act = acts[n - 1];
        assert(leads_to(states[n - 1], acts[n - 1], states[n - 1 + 1]));
        acts_are_happenings(e, act, states[n]);
        acts_hand_out_once(e, act);
        frontier::hand_outs_are_counted(e.frontier, happenings(e, act));
    }
}

/// Whether a crawl may come to `t`: it is for a seed, at depth `0`, or for a URL
/// that the filter allows.
pub open spec fn belongs(config: ConfigView, t: TaskView) -> bool {
    exists|u: UrlView| #[trigger]
        normalize::normalized(u) == t.url && ((config.settings.seeds.contains(u) && t.depth == 0)
            || crate::filter::FilterView::of(config).allows(u))
}

/// Every task that an act offers belongs to the crawl.
proof fn offered_tasks_belong(e: EngineView, act: Act, config: ConfigView)
    requires
        e.config == config,
        e.filter == crate::filter::FilterView::of(config),
    ensures
        frontier::all_offered(happenings(e, act), |t: TaskView| belongs(config, t)),
{
    let events = happenings(e, act);
    let p = |t: TaskView| belongs(config, t);
    assert forall|i: int| 0 <= i < events.len() implies (#[trigger] events[i] matches
    Happening::Offer(t) ==> p(TaskView { url: normalize::normalized(t.url), ..t })) by {
        if let Happening::Offer(t) = events[i] {
            let queued = TaskView { url: normalize::normalized(t.url), ..t };
            match act {
                Act::Seed => {
                    let seeds = config.settings.seeds;
                    assert(engine::seed_tasks(seeds)[i] == TaskView::seed(seeds[i]));
                    assert(seeds.contains(seeds[i]));
                },
                Act::SeedFromSitemap(pages) => {
                    let kept = engine::in_scope(e.filter, pages);
                    assert(engine::seed_tasks(kept)[i] == TaskView::seed(kept[i]));
                    engine::in_scope_is_allowed(e.filter, pages, i);
                },
                Act::EnqueueLinks { depth, base, links } => {
                    let kept = engine::in_scope(e.filter, links);
                    assert(children(e, depth, base, links)[i].url == kept[i]);
                    engine::in_scope_is_allowed(e.filter, links, i);
                },
                Act::RecordPage { depth, final_url, links, .. } => {
                    let kept = engine::in_scope(e.filter, links);
                    assert(children(e, depth, final_url, links)[i].url == kept[i]);
                    engine::in_scope_is_allowed(e.filter, links, i);
                },
                Act::Advance(task, TaskEvent::Fetched { response, parsed, .. }, _) => {
                    let kept = engine::in_scope(e.filter, parsed@.links);
                    assert(children(e, task.depth, response@.final_url, parsed@.links)[i].url
                        == kept[i]);
                    engine::in_scope_is_allowed(e.filter, parsed@.links, i);
                },
                _ => {},
            }
            assert(normalize::normalized(t.url) == queued.url);
            assert(belongs(config, queued));
        }
    }
}

/// In a crawl from its start, every task that waits belongs to the crawl.
proof fn waiting_tasks_belong(
    states: Seq<EngineView>,
    acts: Seq<Act>,
    config: ConfigView,
    start: Instant,
    i: int,
)
    requires
        is_history(states, acts),
        states[0] == EngineView::fresh(config, start),
        0 <= i <= acts.len(),
    ensures
        frontier::all_waiting(states[i].frontier, |t: TaskView| belongs(config, t)),
        states[i].frontier.sound(),
        states[i].config == config,
    decreases i,
{
    let none = Seq::<Happening>::empty();
    let f = FrontierView::empty(
        config.settings.per_host_delay.nanos as nat,
        config.settings.max_depth,
        config.settings.max_pages,
    );
    assert(f.can_run(none));
    frontier::every_state_is_sound(f.base_delay, f.max_depth, f.max_pages, none);
    assert(f.run(none) == f);
    crawls_stay_sound(states, acts, 0, i);
    if i > 0 {
        waiting_tasks_belong(states, acts, config, start, i - 1);
        crawls_stay_sound(states, acts, 0, i - 1);
        let e = states[i - 1];
        let act = acts[i - 1];
        assert(leads_to(states[i - 1], acts[i - 1], states[i - 1 + 1]));
        acts_are_happenings(e, act, states[i]);
        offered_tasks_belong(e, act, config);
        frontier::only_what_was_offered_waits(
            e.frontier,
            happenings(e, act),
            |t: TaskView| belongs(config, t),
        );
    }
}

/// A crawl never leaves its scope: every task that it hands out is for a seed,
/// or for a URL that the filter allows, in canonical form.
pub proof fn crawls_stay_in_scope(
    states: Seq<EngineView>,
    acts: Seq<Act>,
    config: ConfigView,
    start: Instant,
    i: int,
)
    requires
        is_history(states, acts),
        states[0] == EngineView::fresh(config, start),
        0 <= i < acts.len(),
        hands_out(acts[i]),
    ensures
        belongs(config, task_of(acts[i])),
{
    waiting_tasks_belong(states, acts, config, start, i);
    assert(leads_to(states[i], acts[i], states[i + 1]));
    steps_are_happenings(states[i], time_of(acts[i]), acts[i]->NextStep_1, states[i + 1]);
}

/// A host that has to wait does not hold up another: while a crawl is neither
/// paused nor stopping and its budget lasts, a waiting task of any host that may
/// be contacted means that a worker gets work.
pub proof fn work_is_not_held_up(
    e: EngineView,
    h: Seq<char>,
    now: Instant,
    r: Step,
    after: EngineView,
)
    requires
        !e.control.stopping,
        !e.control.paused,
        !e.frontier.spent(),
        e.frontier.waiting(h),
        e.frontier.allowed_at(h, now.nanos as nat) <= now.nanos,
        e.steps(now, r, after),
    ensures
        r is Work,
{
    let n = now.nanos as nat;
    match r {
        Step::Sleep(d) => {
            if e.frontier.answers(n, Lease::Wait(d), after.frontier) {
                frontier::hosts_proceed_in_parallel(
                    e.frontier,
                    h,
                    n,
                    Lease::Wait(d),
                    after.frontier,
                );
            } else {
                frontier::hosts_proceed_in_parallel(e.frontier, h, n, Lease::Idle, after.frontier);
            }
        },
        Step::Exit => frontier::hosts_proceed_in_parallel(
            e.frontier,
            h,
            n,
            Lease::Done,
            after.frontier,
        ),
        Step::Work(_) => {},
    }
}

/// A crawl without a page budget that is not stopped ends only when every URL
/// that it discovered was handed out and handed back.
pub proof fn unstopped_crawls_end_drained(
    e: EngineView,
    now: Instant,
    after: EngineView,
)
    requires
        e.consistent(),
        !e.control.stopping,
        e.config.settings.max_pages is None,
        e.steps(now, Step::Exit, after),
    ensures
        e.frontier.queued == 0,
        e.stats.in_flight == 0,
        e.stats.discovered == e.frontier.dispatched,
{
    frontier::done_means_drained(e.frontier, now.nanos as nat, after.frontier);
}

/// Requests to one host are kept apart, whatever their paths, queries, ports and
/// schemes are: between any two tasks whose URLs have the same host passes at
/// least the delay that the host had at the first of them, which is at least the
/// configured one.
pub proof fn requests_to_equal_hosts_are_spaced(
    states: Seq<EngineView>,
    acts: Seq<Act>,
    i: int,
    j: int,
    host: Seq<char>,
)
    requires
        is_history(states, acts),
        states[0].consistent(),
        0 <= i < j < acts.len(),
        hands_out(acts[i]),
        hands_out(acts[j]),
        task_of(acts[i]).url.host == Some(host),
        task_of(acts[j]).url.host == Some(host),
        time_of(acts[i]).nanos + states[i].frontier.delay_of(crate::text::lowered(host))
            <= u128::MAX,
    ensures
        time_of(acts[j]).nanos >= time_of(acts[i]).nanos + states[i].frontier.delay_of(
            crate::text::lowered(host),
        ),
        time_of(acts[j]).nanos >= time_of(acts[i]).nanos
            + states[0].config.settings.per_host_delay.nanos,
{
    frontier::hosts_go_by_name(task_of(acts[i]).url, task_of(acts[j]).url);
    requests_are_spaced(states, acts, i, j);
}

/// A delay that an origin advertises is kept for the rest of the crawl: once a
/// task of a host was admitted under rules with a delay, any two later tasks of
/// that host are at least the delay apart.
pub proof fn advertised_delays_space_requests(
    states: Seq<EngineView>,
    acts: Seq<Act>,
    k: int,
    i: int,
    j: int,
    host: Seq<char>,
    d: nat,
)
    requires
        is_history(states, acts),
        states[0].consistent(),
        0 <= k < i < j < acts.len(),
        acts[k] matches Act::Screen(u) && u.host == Some(host) && states[k].robots.knows(u)
            && states[k].robots.entry(u).allows(u.text()) && states[k].robots.entry(u).delay
            == Some(d),
        states[0].config.settings.respect_robots,
        states[0].config.settings.respect_crawl_delay,
        hands_out(acts[i]),
        hands_out(acts[j]),
        task_of(acts[i]).url.host == Some(host),
        task_of(acts[j]).url.host == Some(host),
        time_of(acts[i]).nanos + states[i].frontier.delay_of(crate::text::lowered(host))
            <= u128::MAX,
    ensures
        time_of(acts[j]).nanos >= time_of(acts[i]).nanos + d,
{
    let u = acts[k]->Screen_0;
    let h = crate::text::lowered(host);
    crawls_stay_sound(states, acts, 0, k);
    assert(leads_to(states[k], acts[k], states[k + 1]));
    engine::advertised_delays_slow_the_host(states[k], u, host, d, h);
    crawls_stay_sound(states, acts, 0, k + 1);
    crawls_stay_sound(states, acts, k + 1, i);
    assert(states[i].frontier.delay_of(h) >= states[k + 1].frontier.delay_of(h));
    requests_to_equal_hosts_are_spaced(states, acts, i, j, host);
}

} // verus!
