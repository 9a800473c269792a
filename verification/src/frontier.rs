//! The URL frontier: deduplication, per-host scheduling, and crawl budgets.
//!
//! URLs are bucketed into one queue per host. Each host has a time at which it
//! may next be contacted; a task of the host is handed out only once that time
//! has come, and the time is then pushed forward by the host's delay. Requests
//! to one host are so kept apart, while different hosts proceed in parallel.

use std::collections::VecDeque;

use vstd::prelude::*;

use crate::config::CrawlConfig;
use crate::normalize::{self, normalize};
use crate::page::{CrawlTask, TaskView};
use crate::text::{self, to_lower};
use crate::text_map::TextMap;
use crate::time::{self, Duration, Instant};
use crate::weburl::{Url, UrlView};

verus! {

/// The result of asking the frontier for the next unit of work.
#[derive(Debug)]
pub enum Lease {
    /// A task is ready to be fetched now.
    Ready(CrawlTask),
    /// Work exists, but every host with work is rate-limited. Wait at most
    /// this long, then ask again.
    Wait(Duration),
    /// No queued work, but tasks are still in flight that may enqueue more.
    Idle,
    /// The crawl is finished: nothing queued, nothing in flight (or the page
    /// budget is exhausted).
    Done,
}

/// What the frontier keeps about one host.
struct HostQueue {
    tasks: VecDeque<CrawlTask>,
    next_allowed: Option<Instant>,
    delay: Option<Duration>,
}

/// Politeness-aware, de-duplicating URL queue with crawl budgets.
pub struct Frontier {
    hosts: TextMap<HostQueue>,
    seen: TextMap<()>,
    base_delay: Duration,
    max_depth: Option<u32>,
    max_pages: Option<usize>,
    queued: usize,
    active: usize,
    dispatched: usize,
}

/// What the frontier knows about one host: the tasks that wait, oldest first,
/// when the host may next be contacted, and its delay where one was set.
pub struct HostView {
    pub tasks: Seq<TaskView>,
    pub next_allowed: Option<nat>,
    pub delay: Option<nat>,
}

/// The state of a [`Frontier`]. Times and delays are in nanoseconds.
pub struct FrontierView {
    /// The hosts that were ever queued for or given a delay.
    pub hosts: Map<Seq<char>, HostView>,
    /// The text of every URL that was ever accepted, in canonical form.
    pub seen: Set<Seq<char>>,
    pub base_delay: nat,
    pub max_depth: Option<u32>,
    pub max_pages: Option<usize>,
    /// Tasks that wait.
    pub queued: nat,
    /// Tasks handed out and not yet completed.
    pub active: nat,
    /// Tasks ever handed out.
    pub dispatched: nat,
}

/// The key under which a URL's host is filed.
pub open spec fn key_of(u: UrlView) -> Option<Seq<char>> {
    match u.host {
        Some(h) => Some(text::lowered(h)),
        None => None,
    }
}

impl FrontierView {
    /// An empty frontier.
    pub open spec fn empty(
        base_delay: nat,
        max_depth: Option<u32>,
        max_pages: Option<usize>,
    ) -> FrontierView {
        FrontierView {
            hosts: Map::empty(),
            seen: Set::empty(),
            base_delay,
            max_depth,
            max_pages,
            queued: 0,
            active: 0,
            dispatched: 0,
        }
    }

    /// What is known about `h`.
    pub open spec fn host(self, h: Seq<char>) -> HostView {
        if self.hosts.dom().contains(h) {
            self.hosts[h]
        } else {
            HostView { tasks: Seq::empty(), next_allowed: None, delay: None }
        }
    }

    /// Whether a task of `h` waits.
    pub open spec fn waiting(self, h: Seq<char>) -> bool {
        self.host(h).tasks.len() > 0
    }

    /// Whether no task waits at all.
    pub open spec fn nothing_waits(self) -> bool {
        forall|h: Seq<char>| !#[trigger] self.waiting(h)
    }

    /// The delay kept between two requests to `h`.
    pub open spec fn delay_of(self, h: Seq<char>) -> nat {
        match self.host(h).delay {
            Some(d) => d,
            None => self.base_delay,
        }
    }

    /// When `h` may next be contacted: at once, if it never was.
    pub open spec fn allowed_at(self, h: Seq<char>, now: nat) -> nat {
        match self.host(h).next_allowed {
            Some(t) => t,
            None => now,
        }
    }

    /// Whether a task of `h` waits and no other host with a waiting task may be
    /// contacted earlier.
    pub open spec fn earliest(self, h: Seq<char>, now: nat) -> bool {
        &&& self.waiting(h)
        &&& forall|g: Seq<char>|
            #[trigger] self.waiting(g) ==> self.allowed_at(h, now) <= self.allowed_at(g, now)
    }

    /// Whether as many tasks were handed out as the page budget allows.
    pub open spec fn spent(self) -> bool {
        match self.max_pages {
            Some(max) => self.dispatched >= max,
            None => false,
        }
    }

    /// Whether a task at `depth` is within the depth limit.
    pub open spec fn within_depth(self, depth: u32) -> bool {
        match self.max_depth {
            Some(max) => depth <= max,
            None => true,
        }
    }

    /// Whether a task would be enqueued: it is not too deep, its URL has a
    /// host, and its canonical form was not accepted before.
    pub open spec fn accepts(self, t: TaskView) -> bool {
        let url = normalize::normalized(t.url);
        &&& self.within_depth(t.depth)
        &&& key_of(url) is Some
        &&& !self.seen.contains(url.text())
    }

    /// The state after a task was enqueued, at the end of its host's queue and
    /// with its URL in canonical form.
    pub open spec fn enqueued(self, t: TaskView) -> FrontierView {
        let url = normalize::normalized(t.url);
        let h = key_of(url)->0;
        let old = self.host(h);
        FrontierView {
            hosts: self.hosts.insert(
                h,
                HostView { tasks: old.tasks.push(TaskView { url, ..t }), ..old },
            ),
            seen: self.seen.insert(url.text()),
            queued: self.queued + 1,
            ..self
        }
    }

    /// The state after `add`.
    pub open spec fn added(self, t: TaskView) -> FrontierView {
        if self.accepts(t) {
            self.enqueued(t)
        } else {
            self
        }
    }

    /// The state after the delay of `h` was raised to at least `delay`.
    pub open spec fn slowed(self, h: Seq<char>, delay: nat) -> FrontierView {
        let d = if delay > self.delay_of(h) {
            delay
        } else {
            self.delay_of(h)
        };
        FrontierView {
            hosts: self.hosts.insert(h, HostView { delay: Some(d), ..self.host(h) }),
            ..self
        }
    }

    /// The state after the oldest task of `h` was handed out at `now`.
    pub open spec fn leased(self, h: Seq<char>, now: nat) -> FrontierView {
        let old = self.host(h);
        FrontierView {
            hosts: self.hosts.insert(
                h,
                HostView {
                    tasks: old.tasks.drop_first(),
                    next_allowed: Some(time::later(now, self.delay_of(h))),
                    ..old
                },
            ),
            queued: (self.queued - 1) as nat,
            active: self.active + 1,
            dispatched: self.dispatched + 1,
            ..self
        }
    }

    /// The state after a task that was handed out was completed.
    pub open spec fn completed(self) -> FrontierView {
        FrontierView { active: (self.active - 1) as nat, ..self }
    }

    /// Whether `r` is a right answer to a request for work at `now`, and
    /// `after` the state that goes with it.
    pub open spec fn answers(self, now: nat, r: Lease, after: FrontierView) -> bool {
        match r {
            Lease::Done => {
                &&& self.spent() || (self.nothing_waits() && self.active == 0)
                &&& after == self
            },
            Lease::Idle => {
                &&& !self.spent()
                &&& self.nothing_waits()
                &&& self.active > 0
                &&& after == self
            },
            Lease::Wait(d) => {
                &&& !self.spent()
                &&& exists|h: Seq<char>| #[trigger]
                    self.earliest(h, now) && self.allowed_at(h, now) > now && d.nanos
                        == self.allowed_at(h, now) - now
                &&& after == self
            },
            Lease::Ready(t) => {
                &&& !self.spent()
                &&& exists|h: Seq<char>| #[trigger]
                    self.earliest(h, now) && self.allowed_at(h, now) <= now && t@ == self.task(h, 0)
                        && after == self.leased(h, now)
            },
        }
    }

    /// The task at position `i` of the queue of `h`.
    pub open spec fn task(self, h: Seq<char>, i: int) -> TaskView {
        self.host(h).tasks[i]
    }

    /// Whether position `i` of the queue of `h` holds a task.
    pub open spec fn holds(self, h: Seq<char>, i: int) -> bool {
        0 <= i < self.host(h).tasks.len()
    }

    /// The texts of the URLs that wait.
    pub open spec fn pending(self) -> Set<Seq<char>> {
        Set::new(|x: Seq<char>| self.waits_for(x))
    }

    /// Whether a task for the URL with text `x` waits.
    pub open spec fn waits_for(self, x: Seq<char>) -> bool {
        exists|h: Seq<char>, i: int| #[trigger]
            self.holds(h, i) && self.task(h, i).url.text() == x
    }

    /// What every reachable state satisfies.
    pub open spec fn sound(self) -> bool {
        // Every waiting task is filed under its host, within the depth limit,
        // and remembered.
        &&& forall|h: Seq<char>, i: int| #[trigger]
            self.holds(h, i) ==> {
                let t = self.task(h, i);
                &&& key_of(t.url) == Some(h)
                &&& self.within_depth(t.depth)
                &&& self.seen.contains(t.url.text())
            }
        // No two waiting tasks are for the same URL.
        &&& forall|h: Seq<char>, i: int, g: Seq<char>, j: int|
            #![trigger self.holds(h, i), self.holds(g, j)]
            self.holds(h, i) && self.holds(g, j) && (h != g || i != j) ==> self.task(h, i).url.text()
                != self.task(g, j).url.text()
        // No host's delay is below the configured one.
        &&& forall|h: Seq<char>| #[trigger] self.delay_of(h) >= self.base_delay
        // Every accepted URL waits or was handed out.
        &&& self.seen.finite()
        &&& self.seen.len() == self.queued + self.dispatched
        &&& self.pending().finite()
        &&& self.pending().len() == self.queued
        &&& self.active <= self.dispatched
        // The page budget is kept.
        &&& match self.max_pages {
            Some(max) => self.dispatched <= max,
            None => true,
        }
    }
}

/// An empty frontier is sound.
proof fn empty_is_sound(base_delay: nat, max_depth: Option<u32>, max_pages: Option<usize>)
    ensures
        FrontierView::empty(base_delay, max_depth, max_pages).sound(),
{
    let v = FrontierView::empty(base_delay, max_depth, max_pages);
    assert(v.pending() =~= Set::empty());
}

/// Enqueuing keeps a frontier sound.
proof fn enqueued_is_sound(v: FrontierView, t: TaskView)
    requires
        v.sound(),
        v.accepts(t),
    ensures
        v.enqueued(t).sound(),
{
    let w = v.enqueued(t);
    let url = normalize::normalized(t.url);
    let k = key_of(url)->0;
    let end = v.host(k).tasks.len() as int;
    assert forall|h: Seq<char>, i: int| #[trigger] w.holds(h, i) implies (v.holds(h, i) && w.task(
        h,
        i,
    ) == v.task(h, i)) || (h == k && i == end) by {}
    assert(w.holds(k, end));
    assert(w.task(k, end).url == url);
    assert forall|h: Seq<char>, i: int| #[trigger] w.holds(h, i) implies {
        let u = w.task(h, i);
        &&& key_of(u.url) == Some(h)
        &&& w.within_depth(u.depth)
        &&& w.seen.contains(u.url.text())
    } by {
        if !(h == k && i == end) {
            assert(v.holds(h, i));
        }
    }
    assert forall|h: Seq<char>, i: int, g: Seq<char>, j: int|
        #![trigger w.holds(h, i), w.holds(g, j)]
        w.holds(h, i) && w.holds(g, j) && (h != g || i != j) implies w.task(h, i).url.text()
        != w.task(g, j).url.text() by {
        if h == k && i == end {
            assert(v.holds(g, j));
        } else if g == k && j == end {
            assert(v.holds(h, i));
        } else {
            assert(v.holds(h, i) && v.holds(g, j));
        }
    }
    assert forall|h: Seq<char>| #[trigger] w.delay_of(h) >= w.base_delay by {
        assert(v.delay_of(h) >= v.base_delay);
    }
    assert forall|x: Seq<char>| w.waits_for(x) <==> (v.waits_for(x) || x == url.text()) by {
        if w.waits_for(x) {
            let (h, i) = choose|h: Seq<char>, i: int| #[trigger]
                w.holds(h, i) && w.task(h, i).url.text() == x;
            if !(h == k && i == end) {
                assert(v.holds(h, i));
            }
        }
        if v.waits_for(x) {
            let (h, i) = choose|h: Seq<char>, i: int| #[trigger]
                v.holds(h, i) && v.task(h, i).url.text() == x;
            assert(w.holds(h, i) && w.task(h, i) == v.task(h, i));
        }
    }
    assert(w.pending() =~= v.pending().insert(url.text()));
    if v.pending().contains(url.text()) {
        let (h, i) = choose|h: Seq<char>, i: int| #[trigger]
            v.holds(h, i) && v.task(h, i).url.text() == url.text();
        assert(v.seen.contains(url.text()));
    }
}

/// A frontier with the queues and counts of a sound one is sound, as long as no
/// delay is below the configured one and no more tasks are out than were handed
/// out.
proof fn same_queues_are_sound(v: FrontierView, w: FrontierView)
    requires
        v.sound(),
        forall|h: Seq<char>| #[trigger] w.host(h).tasks == v.host(h).tasks,
        forall|h: Seq<char>| #[trigger] w.delay_of(h) >= w.base_delay,
        w.active <= w.dispatched,
        w == (FrontierView { hosts: w.hosts, active: w.active, ..v }),
    ensures
        w.sound(),
{
    assert forall|h: Seq<char>, i: int| #[trigger] w.holds(h, i) implies v.holds(h, i) && w.task(
        h,
        i,
    ) == v.task(h, i) by {
        assert(w.host(h).tasks == v.host(h).tasks);
    }
    assert forall|h: Seq<char>, i: int| #[trigger] w.holds(h, i) implies {
        let u = w.task(h, i);
        &&& key_of(u.url) == Some(h)
        &&& w.within_depth(u.depth)
        &&& w.seen.contains(u.url.text())
    } by {
        assert(v.holds(h, i));
    }
    assert forall|h: Seq<char>, i: int, g: Seq<char>, j: int|
        #![trigger w.holds(h, i), w.holds(g, j)]
        w.holds(h, i) && w.holds(g, j) && (h != g || i != j) implies w.task(h, i).url.text()
        != w.task(g, j).url.text() by {
        assert(v.holds(h, i) && v.holds(g, j));
    }
    assert forall|x: Seq<char>| w.waits_for(x) <==> v.waits_for(x) by {
        if w.waits_for(x) {
            let (h, i) = choose|h: Seq<char>, i: int| #[trigger]
                w.holds(h, i) && w.task(h, i).url.text() == x;
            assert(v.holds(h, i));
        }
        if v.waits_for(x) {
            let (h, i) = choose|h: Seq<char>, i: int| #[trigger]
                v.holds(h, i) && v.task(h, i).url.text() == x;
            assert(w.host(h).tasks == v.host(h).tasks);
            assert(w.holds(h, i));
        }
    }
    assert(w.pending() =~= v.pending());
}

/// Raising a delay keeps a frontier sound.
proof fn slowed_is_sound(v: FrontierView, k: Seq<char>, delay: nat)
    requires
        v.sound(),
    ensures
        v.slowed(k, delay).sound(),
{
    let w = v.slowed(k, delay);
    assert(v.delay_of(k) >= v.base_delay);
    assert forall|h: Seq<char>| #[trigger] w.delay_of(h) >= w.base_delay by {
        assert(v.delay_of(h) >= v.base_delay);
    }
    same_queues_are_sound(v, w);
}

/// Handing out a waiting task within the budget keeps a frontier sound.
proof fn leased_is_sound(v: FrontierView, k: Seq<char>, now: nat)
    requires
        v.sound(),
        v.waiting(k),
        !v.spent(),
    ensures
        v.leased(k, now).sound(),
        v.queued > 0,
{
    let w = v.leased(k, now);
    let first = v.task(k, 0).url.text();
    assert(v.holds(k, 0));
    assert(v.waits_for(first));
    assert(v.pending().contains(first));
    assert(v.pending().len() > 0);
    assert forall|h: Seq<char>, i: int| #[trigger] w.holds(h, i) implies {
        let from = if h == k {
            i + 1
        } else {
            i
        };
        v.holds(h, from) && w.task(h, i) == v.task(h, from)
    } by {}
    assert forall|h: Seq<char>, i: int| #[trigger] w.holds(h, i) implies {
        let u = w.task(h, i);
        &&& key_of(u.url) == Some(h)
        &&& w.within_depth(u.depth)
        &&& w.seen.contains(u.url.text())
    } by {
        if h == k {
            assert(v.holds(h, i + 1));
        } else {
            assert(v.holds(h, i));
        }
    }
    assert forall|h: Seq<char>, i: int, g: Seq<char>, j: int|
        #![trigger w.holds(h, i), w.holds(g, j)]
        w.holds(h, i) && w.holds(g, j) && (h != g || i != j) implies w.task(h, i).url.text()
        != w.task(g, j).url.text() by {
        let a = if h == k {
            i + 1
        } else {
            i
        };
        let b = if g == k {
            j + 1
        } else {
            j
        };
        assert(v.holds(h, a) && v.holds(g, b));
    }
    assert forall|h: Seq<char>| #[trigger] w.delay_of(h) >= w.base_delay by {
        assert(v.delay_of(h) >= v.base_delay);
    }
    assert forall|x: Seq<char>| w.waits_for(x) <==> (v.waits_for(x) && x != first) by {
        if w.waits_for(x) {
            let (h, i) = choose|h: Seq<char>, i: int| #[trigger]
                w.holds(h, i) && w.task(h, i).url.text() == x;
            let a = if h == k {
                i + 1
            } else {
                i
            };
            assert(v.holds(h, a));
        }
        if v.waits_for(x) && x != first {
            let (h, i) = choose|h: Seq<char>, i: int| #[trigger]
                v.holds(h, i) && v.task(h, i).url.text() == x;
            let a = if h == k {
                i - 1
            } else {
                i
            };
            assert(w.holds(h, a) && w.task(h, a) == v.task(h, i));
        }
    }
    assert(w.pending() =~= v.pending().remove(first));
}

/// Completing a task keeps a frontier sound.
proof fn completed_is_sound(v: FrontierView)
    requires
        v.sound(),
        v.active > 0,
    ensures
        v.completed().sound(),
{
    let w = v.completed();
    assert forall|h: Seq<char>| #[trigger] w.delay_of(h) >= w.base_delay by {
        assert(v.delay_of(h) >= v.base_delay);
    }
    same_queues_are_sound(v, w);
}

impl HostQueue {
    spec fn spec_view(self) -> HostView {
        HostView {
            tasks: self.tasks@.map_values(|t: CrawlTask| t@),
            next_allowed: match self.next_allowed {
                Some(t) => Some(t.nanos as nat),
                None => None,
            },
            delay: match self.delay {
                Some(d) => Some(d.nanos as nat),
                None => None,
            },
        }
    }
}

/// What is known about each host.
spec fn hosts_map(hosts: Map<Seq<char>, HostQueue>) -> Map<Seq<char>, HostView> {
    hosts.map_values(|q: HostQueue| q.spec_view())
}

impl View for Frontier {
    type V = FrontierView;

    closed spec fn view(&self) -> FrontierView {
        FrontierView {
            hosts: hosts_map(self.hosts.map()),
            seen: self.seen.keys().to_set(),
            base_delay: self.base_delay.nanos as nat,
            max_depth: self.max_depth,
            max_pages: self.max_pages,
            queued: self.queued as nat,
            active: self.active as nat,
            dispatched: self.dispatched as nat,
        }
    }
}

/// Changing what is kept about one host changes what is known about that host.
proof fn hosts_map_insert(hosts: Map<Seq<char>, HostQueue>, k: Seq<char>, q: HostQueue)
    ensures
        hosts_map(hosts.insert(k, q)) == hosts_map(hosts).insert(k, q.spec_view()),
{
    assert(hosts_map(hosts.insert(k, q)) =~= hosts_map(hosts).insert(k, q.spec_view()));
}

/// The key under which a URL's host is filed.
fn host_key(url: &Url) -> (r: Option<String>)
    ensures
        text::opt_view(r) == key_of(url@),
{
    match &url.host {
        Some(h) => Some(to_lower(h.as_str())),
        None => None,
    }
}

impl Frontier {
    /// The frontier's internal tables agree, and its state is sound.
    pub closed spec fn wf(&self) -> bool {
        &&& self.hosts.wf()
        &&& self.seen.wf()
        &&& self@.sound()
    }

    /// A well-formed frontier is sound, and what it remembers fits in memory.
    pub proof fn wf_facts(&self)
        requires
            self.wf(),
        ensures
            self@.sound(),
            self@.seen.len() <= usize::MAX,
    {
        self.seen.wf_facts();
        self.seen.keys().unique_seq_to_set();
    }

    /// Create an empty frontier from configuration.
    pub fn new(config: &CrawlConfig) -> (r: Self)
        ensures
            r.wf(),
            r@ == FrontierView::empty(
                config@.settings.per_host_delay.nanos as nat,
                config@.settings.max_depth,
                config@.settings.max_pages,
            ),
    {
        let r = Frontier {
            hosts: TextMap::new(),
            seen: TextMap::new(),
            base_delay: config.per_host_delay,
            max_depth: config.max_depth,
            max_pages: config.max_pages,
            queued: 0,
            active: 0,
            dispatched: 0,
        };
        proof {
            let e = FrontierView::empty(
                config@.settings.per_host_delay.nanos as nat,
                config@.settings.max_depth,
                config@.settings.max_pages,
            );
            assert(r@.hosts =~= e.hosts);
            assert(r@.seen =~= e.seen);
            empty_is_sound(e.base_delay, e.max_depth, e.max_pages);
        }
        r
    }

    /// Number of tasks waiting to be leased.
    pub fn queued(&self) -> (r: usize)
        ensures
            r == self@.queued,
    {
        self.queued
    }

    /// Number of leased-but-not-completed tasks.
    pub fn active(&self) -> (r: usize)
        ensures
            r == self@.active,
    {
        self.active
    }
}

/// The position of `key`'s entry, which is made if there is none.
fn slot(hosts: &mut TextMap<HostQueue>, key: String) -> (r: usize)
    requires
        old(hosts).wf(),
    ensures
        final(hosts).wf(),
        r < final(hosts).keys().len(),
        final(hosts).keys()[r as int] == key@,
        final(hosts).map().dom().contains(key@),
        ({
            let before = hosts_map(old(hosts).map());
            let known = if before.dom().contains(key@) {
                before[key@]
            } else {
                HostView { tasks: Seq::empty(), next_allowed: None, delay: None }
            };
            &&& final(hosts).map()[key@].spec_view() == known
            &&& hosts_map(final(hosts).map()) == before.insert(key@, known)
        }),
{
    let ghost before = hosts_map(hosts.map());
    match hosts.find(key.as_str()) {
        Some(i) => {
            proof {
                assert(before.insert(key@, before[key@]) =~= before);
            }
            i
        },
        None => {
            let i: usize = hosts.len();
            let q = HostQueue { tasks: VecDeque::new(), next_allowed: None, delay: None };
            let ghost k = key@;
            let ghost v = q.spec_view();
            proof {
                assert(v.tasks =~= Seq::empty());
            }
            hosts.insert(key, q);
            proof {
                assert(hosts_map(hosts.map()) =~= before.insert(k, v));
            }
            i
        },
    }
}

impl Frontier {
    /// Add a task, returning `true` if it was newly enqueued.
    ///
    /// The URL is normalized for deduplication. Tasks beyond the depth limit,
    /// already-seen URLs, and URLs without a host are dropped.
    pub fn add(&mut self, task: CrawlTask) -> (r: bool)
        requires
            old(self).wf(),
        ensures
            final(self).wf(),
            r == old(self)@.accepts(task@),
            final(self)@ == old(self)@.added(task@),
    {
        if let Some(max) = self.max_depth {
            if task.depth > max {
                return false;
            }
        }
        let ghost t = task@;
        let ghost before = self@;
        let CrawlTask { url, depth, referrer } = task;
        let url = normalize(url);
        let key = match host_key(&url) {
            Some(k) => k,
            None => {
                return false;
            },
        };
        let id = url.text();
        proof {
            self.seen.wf_facts();
            self.seen.keys().unique_seq_to_set();
        }
        if !self.seen.note(id) {
            return false;
        }
        proof {
            self.seen.wf_facts();
        }
        let ghost k = key@;
        let i: usize = slot(&mut self.hosts, key);
        let ghost hosts = self.hosts.map();
        let queue = self.hosts.value_mut(i);
        let ghost was = queue.spec_view();
        let task = CrawlTask { url, depth, referrer };
        let ghost view = task@;
        queue.tasks.push_back(task);
        proof {
            assert(queue.spec_view().tasks =~= was.tasks.push(view));
        }
        self.queued += 1;
        proof {
            hosts_map_insert(hosts, k, self.hosts.map()[k]);
            assert(self@.hosts =~= before.enqueued(t).hosts);
            enqueued_is_sound(before, t);
        }
        true
    }

    /// Raise a host's delay to at least `delay` (e.g. from a `robots.txt`
    /// `Crawl-delay`). Never lowers the configured base delay.
    pub fn set_host_delay(&mut self, url: &Url, delay: Duration)
        requires
            old(self).wf(),
        ensures
            final(self).wf(),
            final(self)@ == match key_of(url@) {
                Some(h) => old(self)@.slowed(h, delay.nanos as nat),
                None => old(self)@,
            },
    {
        let ghost before = self@;
        if let Some(key) = host_key(url) {
            let ghost k = key@;
            let base = self.base_delay;
            let i: usize = slot(&mut self.hosts, key);
            let ghost hosts = self.hosts.map();
            let queue = self.hosts.value_mut(i);
            let known = match queue.delay {
                Some(d) => d,
                None => base,
            };
            queue.delay = Some(
                if delay.nanos > known.nanos {
                    delay
                } else {
                    known
                },
            );
            proof {
                hosts_map_insert(hosts, k, self.hosts.map()[k]);
                assert(self@.hosts =~= before.slowed(k, delay.nanos as nat).hosts);
                slowed_is_sound(before, k, delay.nanos as nat);
            }
        }
    }

    /// Mark a leased task as finished. Must be paired with each
    /// [`Lease::Ready`].
    pub fn complete(&mut self)
        requires
            old(self).wf(),
            old(self)@.active > 0,
        ensures
            final(self).wf(),
            final(self)@ == old(self)@.completed(),
    {
        proof {
            completed_is_sound(self@);
        }
        self.active -= 1;
    }

    fn budget_exhausted(&self) -> (r: bool)
        ensures
            r == self@.spent(),
    {
        match self.max_pages {
            Some(max) => self.dispatched >= max,
            None => false,
        }
    }

    /// When the host at position `i` may next be contacted.
    fn allowed(&self, i: usize, now: Instant) -> (r: Instant)
        requires
            self.hosts.wf(),
            i < self.hosts.keys().len(),
        ensures
            r.nanos == self@.allowed_at(self.hosts.keys()[i as int], now.nanos as nat),
    {
        match self.hosts.value(i).next_allowed {
            Some(t) => t,
            None => now,
        }
    }

    /// The delay of the host at position `i`.
    fn delay_for(&self, i: usize) -> (r: Duration)
        requires
            self.hosts.wf(),
            i < self.hosts.keys().len(),
        ensures
            r.nanos == self@.delay_of(self.hosts.keys()[i as int]),
    {
        match self.hosts.value(i).delay {
            Some(d) => d,
            None => self.base_delay,
        }
    }

    /// Find the host with a non-empty queue that may be contacted earliest.
    fn earliest_ready_host(&self, now: Instant) -> (r: Option<(usize, Instant)>)
        requires
            self.hosts.wf(),
        ensures
            match r {
                Some((i, at)) => {
                    &&& i < self.hosts.keys().len()
                    &&& self@.earliest(self.hosts.keys()[i as int], now.nanos as nat)
                    &&& at.nanos == self@.allowed_at(
                        self.hosts.keys()[i as int],
                        now.nanos as nat,
                    )
                },
                None => self@.nothing_waits(),
            },
    {
        let ghost keys = self.hosts.keys();
        proof {
            self.hosts.wf_facts();
        }
        let mut best: Option<(usize, Instant)> = None;
        let mut i: usize = 0;
        while i < self.hosts.len()
            invariant
                self.hosts.wf(),
                keys == self.hosts.keys(),
                keys.no_duplicates(),
                i <= keys.len(),
                match best {
                    Some((b, at)) => {
                        &&& b < keys.len()
                        &&& self@.waiting(keys[b as int])
                        &&& at.nanos == self@.allowed_at(keys[b as int], now.nanos as nat)
                        &&& forall|j: int|
                            0 <= j < i && #[trigger] self@.waiting(keys[j]) ==> at.nanos
                                <= self@.allowed_at(keys[j], now.nanos as nat)
                    },
                    None => forall|j: int| 0 <= j < i ==> !#[trigger] self@.waiting(keys[j]),
                },
            decreases keys.len() - i,
        {
            if self.hosts.value(i).tasks.len() > 0 {
                let at = self.allowed(i, now);
                let better = match best {
                    Some((_, best_at)) => at.nanos < best_at.nanos,
                    None => true,
                };
                if better {
                    best = Some((i, at));
                }
            }
            i += 1;
        }
        proof {
            assert forall|g: Seq<char>| #[trigger] self@.waiting(g) implies keys.contains(g) by {}
            assert forall|g: Seq<char>| #[trigger] self@.waiting(g) implies {
                let j = keys.index_of(g);
                0 <= j < keys.len() && keys[j] == g
            } by {}
        }
        best
    }

    /// Lease the next ready task, or report why none is available.
    pub fn lease(&mut self, now: Instant) -> (r: Lease)
        requires
            old(self).wf(),
        ensures
            final(self).wf(),
            old(self)@.answers(now.nanos as nat, r, final(self)@),
    {
        if self.budget_exhausted() {
            return Lease::Done;
        }
        let (i, allowed_at) = match self.earliest_ready_host(now) {
            Some(found) => found,
            None => {
                return if self.active == 0 {
                    Lease::Done
                } else {
                    Lease::Idle
                };
            },
        };
        let ghost k = self.hosts.keys()[i as int];
        if allowed_at.nanos > now.nanos {
            return Lease::Wait(allowed_at.since(now));
        }
        let ghost before = self@;
        proof {
            self.hosts.wf_facts();
            leased_is_sound(before, k, now.nanos as nat);
            self.seen.wf_facts();
            self.seen.keys().unique_seq_to_set();
        }
        let next = now.after(self.delay_for(i));
        let queue = self.hosts.value_mut(i);
        let ghost was = queue.spec_view();
        let taken = queue.tasks.pop_front();
        queue.next_allowed = Some(next);
        proof {
            assert(queue.spec_view().tasks =~= was.tasks.drop_first());
        }
        self.queued -= 1;
        self.active += 1;
        self.dispatched += 1;
        proof {
            assert(self@.hosts =~= before.leased(k, now.nanos as nat).hosts);
            assert(before.earliest(k, now.nanos as nat));
        }
        match taken {
            Some(task) => Lease::Ready(task),
            None => Lease::Idle,
        }
    }
}

/// Something that happens to a frontier.
pub enum Happening {
    /// A task was offered.
    Offer(TaskView),
    /// A host was given a delay.
    Slow(Seq<char>, nat),
    /// The oldest task of a host was handed out at a time.
    HandOut(Seq<char>, nat),
    /// A task that was handed out was completed.
    Complete,
}

impl FrontierView {
    /// The state after `e`.
    pub open spec fn after(self, e: Happening) -> FrontierView {
        match e {
            Happening::Offer(t) => self.added(t),
            Happening::Slow(h, d) => self.slowed(h, d),
            Happening::HandOut(h, now) => self.leased(h, now),
            Happening::Complete => self.completed(),
        }
    }

    /// Whether `e` can happen: a task is handed out where one waits, its host may
    /// be contacted and the budget is not spent, and completed where one is out.
    /// No clock reads past the end of its range.
    pub open spec fn can(self, e: Happening) -> bool {
        match e {
            Happening::HandOut(h, now) => {
                &&& self.waiting(h)
                &&& !self.spent()
                &&& self.allowed_at(h, now) <= now <= u128::MAX
            },
            Happening::Complete => self.active > 0,
            _ => true,
        }
    }

    /// Whether all of `events` can happen, in order.
    pub open spec fn can_run(self, events: Seq<Happening>) -> bool
        decreases events.len(),
    {
        events.len() > 0 ==> self.can_run(events.drop_last()) && self.run(events.drop_last()).can(
            events.last(),
        )
    }

    /// The state after all of `events`, in order.
    pub open spec fn run(self, events: Seq<Happening>) -> FrontierView
        decreases events.len(),
    {
        if events.len() == 0 {
            self
        } else {
            self.run(events.drop_last()).after(events.last())
        }
    }
}

/// Whether none of `events` hands out a task of `h`.
pub open spec fn leaves_alone(events: Seq<Happening>, h: Seq<char>) -> bool {
    forall|i: int|
        0 <= i < events.len() ==> !(#[trigger] events[i] matches Happening::HandOut(g, _) && g == h)
}

/// One thing after the others: running two lists of events is running them one
/// after the other.
pub proof fn run_in_parts(v: FrontierView, a: Seq<Happening>, b: Seq<Happening>)
    ensures
        v.run(a + b) == v.run(a).run(b),
        v.can_run(a + b) <==> v.can_run(a) && v.run(a).can_run(b),
    decreases b.len(),
{
    if b.len() == 0 {
        assert(a + b =~= a);
    } else {
        assert((a + b).drop_last() =~= a + b.drop_last());
        assert((a + b).last() == b.last());
        run_in_parts(v, a, b.drop_last());
    }
}

/// One thing by itself.
pub proof fn run_of_one(v: FrontierView, e: Happening)
    ensures
        v.run(seq![e]) == v.after(e),
        v.can_run(seq![e]) <==> v.can(e),
{
    assert(seq![e].drop_last() =~= Seq::<Happening>::empty());
    assert(v.run(Seq::<Happening>::empty()) == v);
    assert(v.can_run(Seq::<Happening>::empty()));
}

/// Whatever happens, a host that may not be contacted before `x` may not be
/// contacted before `x`.
proof fn run_keeps_hosts_waiting(v: FrontierView, events: Seq<Happening>, h: Seq<char>, x: nat)
    requires
        v.host(h).next_allowed matches Some(t) && t >= x,
        v.can_run(events),
    ensures
        v.run(events).host(h).next_allowed matches Some(t) && t >= x,
    decreases events.len(),
{
    if events.len() > 0 {
        run_keeps_hosts_waiting(v, events.drop_last(), h, x);
    }
}

/// Requests to one host are kept apart: whatever else happens after a task of
/// `h` was handed out at `first`, a further task of `h` can be handed out at
/// `second` only once the host's delay, and so the configured delay, has
/// passed.
pub proof fn requests_to_a_host_are_spaced(
    v: FrontierView,
    h: Seq<char>,
    first: nat,
    events: Seq<Happening>,
    second: nat,
)
    requires
        v.sound(),
        v.leased(h, first).can_run(events),
        v.leased(h, first).run(events).can(Happening::HandOut(h, second)),
        first + v.delay_of(h) <= u128::MAX,
    ensures
        second >= first + v.delay_of(h),
        second >= first + v.base_delay,
{
    run_keeps_hosts_waiting(v.leased(h, first), events, h, first + v.delay_of(h));
    assert(v.delay_of(h) >= v.base_delay);
}

/// A URL is enqueued once: after a task was offered, no later task whose URL
/// has the same canonical text is accepted, whatever happens in between.
pub proof fn a_url_is_enqueued_once(
    v: FrontierView,
    t: TaskView,
    events: Seq<Happening>,
    u: TaskView,
)
    requires
        v.accepts(t),
        normalize::normalized(u.url).text() == normalize::normalized(t.url).text(),
    ensures
        !v.added(t).run(events).accepts(u),
    decreases events.len(),
{
    run_keeps_seen(v.added(t), events, normalize::normalized(t.url).text());
}

proof fn run_keeps_seen(v: FrontierView, events: Seq<Happening>, x: Seq<char>)
    requires
        v.seen.contains(x),
    ensures
        v.run(events).seen.contains(x),
    decreases events.len(),
{
    if events.len() > 0 {
        run_keeps_seen(v, events.drop_last(), x);
    }
}

/// A host that is rate-limited does not hold up another: while the budget
/// lasts, a task of any host that may be contacted now means that some task is
/// handed out, and handing it out changes nothing for the other hosts.
pub proof fn hosts_proceed_in_parallel(
    v: FrontierView,
    g: Seq<char>,
    now: nat,
    r: Lease,
    after: FrontierView,
)
    requires
        !v.spent(),
        v.waiting(g),
        v.allowed_at(g, now) <= now,
        v.answers(now, r, after),
    ensures
        r matches Lease::Ready(t) && forall|h: Seq<char>|
            key_of(t@.url) != Some(h) && v.sound() ==> #[trigger] after.host(h) == v.host(h),
{
    if let Lease::Ready(t) = r {
        let k = choose|h: Seq<char>| #[trigger]
            v.earliest(h, now) && v.allowed_at(h, now) <= now && t@ == v.task(h, 0) && after
                == v.leased(h, now);
        assert(v.waiting(k));
        assert(v.holds(k, 0));
    }
}

/// Waiting as long as the frontier says is enough: if nothing else happens, a
/// task is handed out then.
pub proof fn waiting_is_enough(
    v: FrontierView,
    now: nat,
    d: Duration,
    r: Lease,
    after: FrontierView,
)
    requires
        v.answers(now, Lease::Wait(d), v),
        v.answers(now + d.nanos as nat, r, after),
    ensures
        r is Ready,
{
    let h = choose|h: Seq<char>| #[trigger]
        v.earliest(h, now) && v.allowed_at(h, now) > now && d.nanos == v.allowed_at(h, now) - now;
    assert(v.waiting(h));
}

/// Once the page budget is spent, no further task is handed out.
pub proof fn a_spent_budget_ends_the_crawl(
    v: FrontierView,
    now: nat,
    r: Lease,
    after: FrontierView,
)
    requires
        v.spent(),
        v.answers(now, r, after),
    ensures
        r is Done,
        after == v,
{
}

/// Without a page budget, the crawl is over only when every accepted URL was
/// handed out and completed.
pub proof fn done_means_drained(v: FrontierView, now: nat, after: FrontierView)
    requires
        v.sound(),
        v.max_pages is None,
        v.answers(now, Lease::Done, after),
    ensures
        v.queued == 0,
        v.active == 0,
        v.seen.len() == v.dispatched,
{
    assert forall|x: Seq<char>| !v.waits_for(x) by {
        if v.waits_for(x) {
            let (h, i) = choose|h: Seq<char>, i: int| #[trigger]
                v.holds(h, i) && v.task(h, i).url.text() == x;
            assert(v.waiting(h));
        }
    }
    assert(v.pending() =~= Set::empty());
}

/// A host's delay is only ever raised, and no other host's changes.
pub proof fn delays_only_grow(v: FrontierView, h: Seq<char>, delay: nat, g: Seq<char>)
    ensures
        v.slowed(h, delay).delay_of(h) >= delay,
        v.slowed(h, delay).delay_of(g) >= v.delay_of(g),
        g != h ==> v.slowed(h, delay).host(g) == v.host(g),
        v.slowed(h, delay).seen == v.seen,
{
}

/// Whatever happens to a sound frontier leaves it sound.
pub proof fn soundness_is_kept(v: FrontierView, e: Happening)
    requires
        v.sound(),
        v.can(e),
    ensures
        v.after(e).sound(),
{
    match e {
        Happening::Offer(t) => {
            if v.accepts(t) {
                enqueued_is_sound(v, t);
            }
        },
        Happening::Slow(h, d) => slowed_is_sound(v, h, d),
        Happening::HandOut(h, now) => leased_is_sound(v, h, now),
        Happening::Complete => completed_is_sound(v),
    }
}

/// Whatever happens to a sound frontier leaves it sound, its limits as they
/// were, and no host's delay lower.
pub proof fn run_facts(v: FrontierView, events: Seq<Happening>)
    requires
        v.sound(),
        v.can_run(events),
    ensures
        v.run(events).sound(),
        v.run(events).base_delay == v.base_delay,
        v.run(events).max_depth == v.max_depth,
        v.run(events).max_pages == v.max_pages,
        forall|h: Seq<char>| #[trigger] v.run(events).delay_of(h) >= v.delay_of(h),
    decreases events.len(),
{
    if events.len() > 0 {
        let w = v.run(events.drop_last());
        run_facts(v, events.drop_last());
        soundness_is_kept(w, events.last());
        assert forall|h: Seq<char>| #[trigger] v.run(events).delay_of(h) >= v.delay_of(h) by {
            assert(w.delay_of(h) >= v.delay_of(h));
        }
    }
}

/// Every state that a frontier can come to is sound: no URL waits twice,
/// nothing beyond the depth limit waits, no host's delay is below the
/// configured one, the page budget is kept, and every accepted URL waits or was
/// handed out.
pub proof fn every_state_is_sound(
    base_delay: nat,
    max_depth: Option<u32>,
    max_pages: Option<usize>,
    events: Seq<Happening>,
)
    requires
        FrontierView::empty(base_delay, max_depth, max_pages).can_run(events),
    ensures
        FrontierView::empty(base_delay, max_depth, max_pages).run(events).sound(),
{
    empty_is_sound(base_delay, max_depth, max_pages);
    run_facts(FrontierView::empty(base_delay, max_depth, max_pages), events);
}

/// How many of `events` hand out a task.
pub open spec fn hand_outs(events: Seq<Happening>) -> nat
    decreases events.len(),
{
    if events.len() == 0 {
        0
    } else {
        hand_outs(events.drop_last()) + if events.last() is HandOut {
            1nat
        } else {
            0
        }
    }
}

/// Every task that is handed out is counted, and nothing else.
pub proof fn hand_outs_are_counted(v: FrontierView, events: Seq<Happening>)
    ensures
        v.run(events).dispatched == v.dispatched + hand_outs(events),
    decreases events.len(),
{
    if events.len() > 0 {
        hand_outs_are_counted(v, events.drop_last());
    }
}

/// Whether `p` holds of every task that waits.
pub open spec fn all_waiting(v: FrontierView, p: spec_fn(TaskView) -> bool) -> bool {
    forall|h: Seq<char>, i: int| #[trigger] v.holds(h, i) ==> p(v.task(h, i))
}

/// Whether `p` holds of every task that `events` offer, as it is queued: with
/// its URL in canonical form.
pub open spec fn all_offered(events: Seq<Happening>, p: spec_fn(TaskView) -> bool) -> bool {
    forall|i: int|
        0 <= i < events.len() ==> (#[trigger] events[i] matches Happening::Offer(t) ==> p(
            TaskView { url: normalize::normalized(t.url), ..t },
        ))
}

/// Only what was offered waits: what holds of every task that waits and of
/// every task that is offered still holds of every task that waits.
pub proof fn only_what_was_offered_waits(
    v: FrontierView,
    events: Seq<Happening>,
    p: spec_fn(TaskView) -> bool,
)
    requires
        all_waiting(v, p),
        all_offered(events, p),
        v.can_run(events),
    ensures
        all_waiting(v.run(events), p),
    decreases events.len(),
{
    if events.len() > 0 {
        let rest = events.drop_last();
        let e = events.last();
        let w = v.run(rest);
        assert forall|i: int| 0 <= i < rest.len() implies (#[trigger] rest[i] matches
        Happening::Offer(t) ==> p(TaskView { url: normalize::normalized(t.url), ..t })) by {
            assert(rest[i] == events[i]);
        }
        only_what_was_offered_waits(v, rest, p);
        assert(events[events.len() - 1] == e);
        let z = w.after(e);
        assert forall|h: Seq<char>, i: int| #[trigger] z.holds(h, i) implies p(z.task(h, i)) by {
            match e {
                Happening::Offer(t) => {
                    if w.accepts(t) && key_of(normalize::normalized(t.url)) == Some(h) && i
                        == w.host(h).tasks.len() {
                        assert(z.task(h, i) == TaskView { url: normalize::normalized(t.url), ..t });
                    } else {
                        assert(w.holds(h, i) && w.task(h, i) == z.task(h, i));
                    }
                },
                Happening::HandOut(g, _) => {
                    let from = if g == h {
                        i + 1
                    } else {
                        i
                    };
                    assert(w.holds(h, from) && w.task(h, from) == z.task(h, i));
                },
                _ => {
                    assert(w.holds(h, i) && w.task(h, i) == z.task(h, i));
                },
            }
        }
    }
}

/// A URL that was accepted and does not wait any more never waits again.
proof fn gone_stays_gone(v: FrontierView, events: Seq<Happening>, x: Seq<char>)
    requires
        v.seen.contains(x),
        !v.waits_for(x),
        v.can_run(events),
    ensures
        v.run(events).seen.contains(x),
        !v.run(events).waits_for(x),
    decreases events.len(),
{
    if events.len() > 0 {
        let w = v.run(events.drop_last());
        let e = events.last();
        gone_stays_gone(v, events.drop_last(), x);
        let z = w.after(e);
        if z.waits_for(x) {
            let (h, i) = choose|h: Seq<char>, i: int| #[trigger]
                z.holds(h, i) && z.task(h, i).url.text() == x;
            match e {
                Happening::Offer(t) => {
                    if w.accepts(t) && key_of(normalize::normalized(t.url)) == Some(h) && i
                        == w.host(h).tasks.len() {
                        assert(z.task(h, i).url == normalize::normalized(t.url));
                    } else {
                        assert(w.holds(h, i) && w.task(h, i) == z.task(h, i));
                    }
                },
                Happening::HandOut(g, _) => {
                    let from = if g == h {
                        i + 1
                    } else {
                        i
                    };
                    assert(w.holds(h, from) && w.task(h, from) == z.task(h, i));
                },
                _ => {
                    assert(w.holds(h, i) && w.task(h, i) == z.task(h, i));
                },
            }
        }
    }
}

/// No URL is handed out twice: whatever happens after a task was handed out, no
/// task for the same URL waits again.
pub proof fn no_url_is_handed_out_twice(
    v: FrontierView,
    h: Seq<char>,
    now: nat,
    events: Seq<Happening>,
    g: Seq<char>,
    i: int,
)
    requires
        v.sound(),
        v.waiting(h),
        !v.spent(),
        v.leased(h, now).can_run(events),
        v.leased(h, now).run(events).holds(g, i),
    ensures
        v.leased(h, now).run(events).task(g, i).url.text() != v.task(h, 0).url.text(),
{
    let w = v.leased(h, now);
    let x = v.task(h, 0).url.text();
    assert(v.holds(h, 0));
    if w.waits_for(x) {
        let (k, j) = choose|k: Seq<char>, j: int| #[trigger]
            w.holds(k, j) && w.task(k, j).url.text() == x;
        let from = if k == h {
            j + 1
        } else {
            j
        };
        assert(v.holds(k, from) && w.task(k, j) == v.task(k, from));
    }
    gone_stays_gone(w, events, x);
}

/// Tasks of a host are handed out in the order in which they were accepted: as
/// long as no task of the host is handed out, every waiting task keeps its
/// place, and handing out the first one moves the others up by one.
pub proof fn queues_keep_their_order(
    v: FrontierView,
    events: Seq<Happening>,
    h: Seq<char>,
    i: int,
    now: nat,
)
    requires
        leaves_alone(events, h),
        v.holds(h, i),
    ensures
        v.run(events).holds(h, i),
        v.run(events).task(h, i) == v.task(h, i),
        i > 0 ==> v.leased(h, now).holds(h, i - 1) && v.leased(h, now).task(h, i - 1) == v.task(
            h,
            i,
        ),
    decreases events.len(),
{
    if events.len() > 0 {
        let rest = events.drop_last();
        assert forall|k: int| 0 <= k < rest.len() implies !(#[trigger] rest[k] matches
        Happening::HandOut(g, _) && g == h) by {
            assert(rest[k] == events[k]);
        }
        queues_keep_their_order(v, rest, h, i, now);
        assert(!(events[events.len() - 1] matches Happening::HandOut(g, _) && g == h));
    }
}

/// Whether the queue of `h` is in breadth-first order behind a task at `depth`:
/// first the other tasks at that depth, then those one level deeper.
pub open spec fn breadth_first(v: FrontierView, h: Seq<char>, depth: nat) -> bool {
    &&& forall|i: int| #[trigger]
        v.holds(h, i) ==> depth <= v.task(h, i).depth <= depth + 1
    &&& forall|i: int, j: int|
        #![trigger v.holds(h, i), v.holds(h, j)]
        v.holds(h, i) && v.holds(h, j) && i <= j ==> v.task(h, i).depth <= v.task(h, j).depth
}

/// Handing out the next task of `h` keeps its queue in breadth-first order, now
/// behind that task.
proof fn leased_is_breadth_first(v: FrontierView, h: Seq<char>, depth: nat, now: nat)
    requires
        breadth_first(v, h, depth),
        v.waiting(h),
    ensures
        breadth_first(v.leased(h, now), h, v.task(h, 0).depth as nat),
{
    let next = v.leased(h, now);
    assert(v.holds(h, 0));
    assert forall|i: int| #[trigger] next.holds(h, i) implies v.holds(h, i + 1) && next.task(h, i)
        == v.task(h, i + 1) by {}
    assert forall|i: int, j: int|
        #![trigger next.holds(h, i), next.holds(h, j)]
        next.holds(h, i) && next.holds(h, j) && i <= j implies next.task(h, i).depth <= next.task(
        h,
        j,
    ).depth by {
        assert(v.holds(h, i + 1) && v.holds(h, j + 1));
    }
}

/// Offering a task one level deeper keeps a queue in breadth-first order.
proof fn added_is_breadth_first(v: FrontierView, h: Seq<char>, depth: nat, link: TaskView)
    requires
        breadth_first(v, h, depth),
        link.depth == depth + 1,
    ensures
        breadth_first(v.added(link), h, depth),
{
    let after = v.added(link);
    if v.accepts(link) && key_of(normalize::normalized(link.url)) == Some(h) {
        let end = v.host(h).tasks.len() as int;
        assert forall|i: int| #[trigger] after.holds(h, i) implies (v.holds(h, i) && after.task(
            h,
            i,
        ) == v.task(h, i)) || (i == end && after.task(h, i).depth == depth + 1) by {}
        assert forall|i: int, j: int|
            #![trigger after.holds(h, i), after.holds(h, j)]
            after.holds(h, i) && after.holds(h, j) && i <= j implies after.task(h, i).depth
            <= after.task(h, j).depth by {
            if j < end {
                assert(v.holds(h, i) && v.holds(h, j));
            } else if i < end {
                assert(v.holds(h, i));
            }
        }
    } else {
        assert(after.host(h) == v.host(h));
        assert forall|i: int| #[trigger] after.holds(h, i) implies v.holds(h, i) && after.task(h, i)
            == v.task(h, i) by {}
        assert forall|i: int, j: int|
            #![trigger after.holds(h, i), after.holds(h, j)]
            after.holds(h, i) && after.holds(h, j) && i <= j implies after.task(h, i).depth
            <= after.task(h, j).depth by {
            assert(v.holds(h, i) && v.holds(h, j));
        }
    }
}

/// Whether all of `events` offer tasks at `depth`.
pub open spec fn offers_at(events: Seq<Happening>, depth: nat) -> bool {
    forall|i: int|
        0 <= i < events.len() ==> (#[trigger] events[i] matches Happening::Offer(t) && t.depth
            == depth)
}

/// A host is crawled breadth first where its tasks are processed one at a time:
/// handing out the next task, and then offering the links found on its page,
/// one level deeper, keeps the queue in breadth-first order behind that task.
pub proof fn one_at_a_time_is_breadth_first(
    v: FrontierView,
    h: Seq<char>,
    depth: nat,
    now: nat,
    links: Seq<Happening>,
)
    requires
        breadth_first(v, h, depth),
        v.waiting(h),
        offers_at(links, (v.task(h, 0).depth + 1) as nat),
    ensures
        breadth_first(v.leased(h, now).run(links), h, v.task(h, 0).depth as nat),
    decreases links.len(),
{
    if links.len() == 0 {
        leased_is_breadth_first(v, h, depth, now);
    } else {
        let rest = links.drop_last();
        assert forall|i: int| 0 <= i < rest.len() implies (#[trigger] rest[i] matches
        Happening::Offer(t) && t.depth == v.task(h, 0).depth + 1) by {
            assert(rest[i] == links[i]);
        }
        one_at_a_time_is_breadth_first(v, h, depth, now, rest);
        assert(links[links.len() - 1] matches Happening::Offer(t) && t.depth == v.task(h, 0).depth
            + 1);
        added_is_breadth_first(
            v.leased(h, now).run(rest),
            h,
            v.task(h, 0).depth as nat,
            links.last()->Offer_0,
        );
    }
}

/// A host is its name and nothing else: URLs of one host are filed together,
/// whatever scheme, port, path, query or fragment they have, capital letters in
/// the name do not count, and URLs of different hosts are filed apart.
pub proof fn hosts_go_by_name(a: UrlView, b: UrlView)
    ensures
        a.host == b.host ==> key_of(a) == key_of(b),
        key_of(a) is Some <==> a.host is Some,
        a.host is Some && b.host is Some ==> (key_of(a) == key_of(b) <==> text::lowered(a.host->0)
            == text::lowered(b.host->0)),
        a.host is Some ==> key_of(a) == Some(text::lowered(a.host->0)),
{
}

/// Every task with a host, within the depth limit and with a URL that was not
/// accepted before is accepted, and no other.
pub proof fn what_is_accepted(v: FrontierView, t: TaskView)
    ensures
        v.accepts(t) <==> {
            let u = normalize::normalized(t.url);
            &&& v.max_depth matches Some(max) ==> t.depth <= max
            &&& u.host is Some
            &&& !v.seen.contains(u.text())
        },
{
}

/// An accepted task goes to the end of its host's queue, with its depth and its
/// referrer and its URL in canonical form; its URL is remembered; and nothing
/// else changes.
pub proof fn accepted_tasks_queue_up(v: FrontierView, t: TaskView, g: Seq<char>)
    requires
        v.accepts(t),
    ensures
        ({
            let u = normalize::normalized(t.url);
            let h = text::lowered(u.host->0);
            let w = v.added(t);
            let end = v.host(h).tasks.len() as int;
            &&& w.host(h).tasks.len() == end + 1
            &&& w.task(h, end) == (TaskView { url: u, depth: t.depth, referrer: t.referrer })
            &&& forall|i: int| 0 <= i < end ==> #[trigger] w.task(h, i) == v.task(h, i)
            &&& w.host(h).next_allowed == v.host(h).next_allowed
            &&& w.host(h).delay == v.host(h).delay
            &&& g != h ==> w.host(g) == v.host(g)
            &&& w.seen == v.seen.insert(u.text())
            &&& w.queued == v.queued + 1
            &&& w.active == v.active
            &&& w.dispatched == v.dispatched
            &&& w.base_delay == v.base_delay
            &&& w.max_depth == v.max_depth
            &&& w.max_pages == v.max_pages
        }),
{
}

/// A refused task changes nothing.
pub proof fn refused_tasks_change_nothing(v: FrontierView, t: TaskView)
    requires
        !v.accepts(t),
    ensures
        v.added(t) == v,
{
}

/// The delay of a host is the largest that was asked for, and the configured one
/// where none was: asking for more raises it to just that, and asking for less
/// leaves it.
pub proof fn the_largest_delay_counts(v: FrontierView, h: Seq<char>, delay: nat)
    ensures
        v.host(h).delay is None ==> v.delay_of(h) == v.base_delay,
        delay >= v.delay_of(h) ==> v.slowed(h, delay).delay_of(h) == delay,
        delay <= v.delay_of(h) ==> v.slowed(h, delay).delay_of(h) == v.delay_of(h),
        v.slowed(h, delay).host(h).tasks == v.host(h).tasks,
        v.slowed(h, delay).host(h).next_allowed == v.host(h).next_allowed,
        v.slowed(h, delay).queued == v.queued,
        v.slowed(h, delay).dispatched == v.dispatched,
{
}

/// Handing out takes the oldest task of the host, keeps the others in order,
/// holds the host back for just its delay, counts the task as out, and changes
/// nothing for any other host.
pub proof fn handing_out_takes_the_oldest(v: FrontierView, h: Seq<char>, now: nat, g: Seq<char>)
    requires
        v.waiting(h),
        v.queued > 0,
    ensures
        ({
            let w = v.leased(h, now);
            &&& w.host(h).tasks.len() == v.host(h).tasks.len() - 1
            &&& forall|i: int|
                0 <= i < w.host(h).tasks.len() ==> #[trigger] w.task(h, i) == v.task(h, i + 1)
            &&& now + v.delay_of(h) <= u128::MAX ==> w.host(h).next_allowed == Some(
                now + v.delay_of(h),
            )
            &&& w.host(h).delay == v.host(h).delay
            &&& g != h ==> w.host(g) == v.host(g)
            &&& w.seen == v.seen
            &&& w.queued == v.queued - 1
            &&& w.active == v.active + 1
            &&& w.dispatched == v.dispatched + 1
        }),
{
}

/// Completing a task changes nothing but how many are out.
pub proof fn completing_changes_one_count(v: FrontierView)
    requires
        v.active > 0,
    ensures
        v.completed() == (FrontierView { active: (v.active - 1) as nat, ..v }),
{
}

/// What the frontier answers, by what waits and what is out. As long as fewer
/// tasks were handed out than the budget allows: a task where some host with a
/// waiting task was never contacted or may be contacted again, the oldest of a
/// host that may be contacted no later than any other; the time until the first
/// host may be contacted where all have to wait; and where nothing waits, to
/// come back while tasks are out, or that the crawl is over.
pub proof fn answers_go_by_what_waits(v: FrontierView, now: nat, r: Lease, after: FrontierView)
    requires
        v.answers(now, r, after),
        v.max_pages matches Some(max) ==> v.dispatched < max,
    ensures
        r is Ready <==> exists|g: Seq<char>|
            v.host(g).tasks.len() > 0 && (#[trigger] v.host(g).next_allowed matches Some(t) ==> t
                <= now),
        r is Done || r is Idle <==> forall|g: Seq<char>| (#[trigger] v.host(g)).tasks.len() == 0,
        r is Done ==> v.active == 0,
        r is Idle ==> v.active > 0,
        r matches Lease::Wait(d) ==> {
            &&& exists|g: Seq<char>|
                v.host(g).tasks.len() > 0 && #[trigger] v.host(g).next_allowed == Some(
                    (now + d.nanos) as nat,
                )
            &&& forall|g: Seq<char>|
                (#[trigger] v.host(g)).tasks.len() > 0 ==> (v.host(g).next_allowed matches Some(t)
                    && t >= now + d.nanos)
            &&& d.nanos > 0
        },
        r matches Lease::Ready(t) ==> exists|h: Seq<char>|
            v.host(h).tasks.len() > 0 && t@ == #[trigger] v.host(h).tasks[0] && after == v.leased(
                h,
                now,
            ) && forall|g: Seq<char>|
                (#[trigger] v.host(g)).tasks.len() > 0 ==> (match (
                    v.host(h).next_allowed,
                    v.host(g).next_allowed,
                ) {
                    (Some(a), Some(b)) => a <= b,
                    (Some(a), None) => a <= now,
                    (None, Some(b)) => now <= b,
                    (None, None) => true,
                }),
        r !is Ready ==> after == v,
{
    assert forall|g: Seq<char>| #[trigger] v.waiting(g) <==> v.host(g).tasks.len() > 0 by {}
    assert forall|g: Seq<char>| (#[trigger] v.host(g)).tasks.len() > 0 implies v.waiting(g) by {}
    match r {
        Lease::Ready(t) => {
            let h = choose|h: Seq<char>| #[trigger]
                v.earliest(h, now) && v.allowed_at(h, now) <= now && t@ == v.task(h, 0) && after
                    == v.leased(h, now);
            assert(v.waiting(h));
            assert(v.host(h).tasks[0] == v.task(h, 0));
            assert(v.host(h).next_allowed matches Some(a) ==> a <= now);
            assert forall|g: Seq<char>| (#[trigger] v.host(g)).tasks.len() > 0 implies (match (
                v.host(h).next_allowed,
                v.host(g).next_allowed,
            ) {
                (Some(a), Some(b)) => a <= b,
                (Some(a), None) => a <= now,
                (None, Some(b)) => now <= b,
                (None, None) => true,
            }) by {
                assert(v.waiting(g));
            }
        },
        Lease::Wait(d) => {
            let h = choose|h: Seq<char>| #[trigger]
                v.earliest(h, now) && v.allowed_at(h, now) > now && d.nanos == v.allowed_at(h, now)
                    - now;
            assert(v.waiting(h));
            assert(v.host(h).next_allowed == Some((now + d.nanos) as nat));
            assert forall|g: Seq<char>| (#[trigger] v.host(g)).tasks.len() > 0 implies (v.host(
                g,
            ).next_allowed matches Some(t) && t >= now + d.nanos) by {
                assert(v.waiting(g));
            }
        },
        _ => {},
    }
}

/// The page budget is used up before it ends a crawl: what is spent is as many
/// tasks as the budget allows, and without a budget nothing ever is.
pub proof fn the_budget_is_used_up(v: FrontierView, now: nat, r: Lease, after: FrontierView)
    requires
        v.answers(now, r, after),
    ensures
        v.max_pages matches Some(max) && v.dispatched >= max ==> r is Done && after == v,
        r is Done ==> (v.max_pages matches Some(max) && v.dispatched >= max) || (v.active == 0
            && forall|g: Seq<char>| (#[trigger] v.host(g)).tasks.len() == 0),
{
    if !v.spent() && r is Done {
        assert forall|g: Seq<char>| (#[trigger] v.host(g)).tasks.len() == 0 by {
            assert(!v.waiting(g));
        }
    }
}

/// An empty frontier knows nothing and keeps its limits.
pub proof fn empty_frontiers_know_nothing(
    base_delay: nat,
    max_depth: Option<u32>,
    max_pages: Option<usize>,
    h: Seq<char>,
)
    ensures
        ({
            let v = FrontierView::empty(base_delay, max_depth, max_pages);
            &&& v.host(h).tasks.len() == 0
            &&& v.host(h).next_allowed is None
            &&& v.delay_of(h) == base_delay
            &&& v.max_depth == max_depth
            &&& v.max_pages == max_pages
            &&& !v.seen.contains(h)
            &&& v.queued == 0 && v.active == 0 && v.dispatched == 0
        }),
{
}

} // verus!
