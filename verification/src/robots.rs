//! Per-origin `robots.txt` rules: evaluation and caching.
//!
//! The cache is keyed by *origin* (scheme + host + port), which is exactly the
//! granularity at which `robots.txt` applies. An origin whose `robots.txt` is
//! missing, empty, or unreachable is treated as "allow everything" — the same
//! lenient behavior most crawlers adopt.

use vstd::prelude::*;
use vstd::string::StringExecFns;

use crate::text::{self, copy_texts, to_decimal};
use crate::text_map::TextMap;
use crate::time::Duration;
use crate::weburl::{self, Url, UrlView};

verus! {

/// The rules of a `robots.txt` file for one user agent, as the
/// `texting_robots` crate holds them.
#[verifier::external_type_specification]
#[verifier::external_body]
pub struct ExRobot(texting_robots::Robot);

/// The URLs that a set of rules allows.
pub uninterp spec fn allowed_by(robot: texting_robots::Robot) -> Set<Seq<char>>;

/// What a `robots.txt` file says to one user agent.
pub struct RulesView {
    /// The URLs that may be fetched.
    pub allowed: Set<Seq<char>>,
    /// The advertised `Crawl-delay`, in nanoseconds.
    pub delay: Option<nat>,
    /// The sitemaps that the file declares.
    pub sitemaps: Seq<Seq<char>>,
}

/// What the `texting_robots` crate reads out of a file for a user agent;
/// nothing if it cannot read the file.
pub uninterp spec fn robots_rules(agent: Seq<char>, file: Seq<u8>) -> Option<RulesView>;

/// A file that was read: its rules, its delay and its sitemaps.
pub struct Rules {
    pub robot: texting_robots::Robot,
    pub delay: Option<Duration>,
    pub sitemaps: Vec<String>,
}

impl View for Rules {
    type V = RulesView;

    open spec fn view(&self) -> RulesView {
        RulesView {
            allowed: allowed_by(self.robot),
            delay: match self.delay {
                Some(d) => Some(d.nanos as nat),
                None => None,
            },
            sitemaps: text::texts(self.sitemaps@),
        }
    }
}

/// The rules that were read, if any were.
pub open spec fn rules_view(r: Option<Rules>) -> Option<RulesView> {
    match r {
        Some(v) => Some(v@),
        None => None,
    }
}

/// `texting_robots::Robot::new` and the public fields of a `Robot`. Claimed:
/// whether a file can be read, what it then allows, and what delay and
/// sitemaps it gives are functions of the user agent and the file. A delay that
/// is no span of time (`std::time::Duration::try_from_secs_f32` refuses it) is
/// none.
#[verifier::external_body]
fn read_rules(agent: &str, file: &[u8]) -> (r: Option<Rules>)
    ensures
        rules_view(r) == robots_rules(agent@, file@),
{
    let robot = texting_robots::Robot::new(agent, file).ok()?;
    let delay = robot.delay.and_then(|s| std::time::Duration::try_from_secs_f32(s).ok());
    let delay = delay.map(|d| Duration { nanos: d.as_nanos() });
    Some(Rules { delay, sitemaps: robot.sitemaps.clone(), robot })
}

/// `Robot::allowed` tells whether the rules allow a URL.
pub assume_specification[ texting_robots::Robot::allowed ](
    robot: &texting_robots::Robot,
    url: &str,
) -> (r: bool)
    ensures
        r == allowed_by(*robot).contains(url@),
;

/// What is remembered about one origin's `robots.txt`.
struct RobotsEntry {
    /// `None` means "no rules apply" (allow all).
    robot: Option<texting_robots::Robot>,
    /// Advertised `Crawl-delay` for the user agent, if any.
    delay: Option<Duration>,
    /// Sitemaps declared in the file (absolute URLs).
    sitemaps: Vec<String>,
}

/// What is known about one origin.
pub struct EntryView {
    /// The URLs that may be fetched; none given means all of them.
    pub allowed: Option<Set<Seq<char>>>,
    pub delay: Option<nat>,
    pub sitemaps: Seq<Seq<char>>,
}

impl EntryView {
    /// Everything may be fetched, at any pace.
    pub open spec fn allow_all() -> EntryView {
        EntryView { allowed: None, delay: None, sitemaps: Seq::empty() }
    }

    /// What the rules that were read say; everything is allowed where none
    /// could be read.
    pub open spec fn of(rules: Option<RulesView>) -> EntryView {
        match rules {
            Some(r) => EntryView {
                allowed: Some(r.allowed),
                delay: r.delay,
                sitemaps: r.sitemaps,
            },
            None => EntryView::allow_all(),
        }
    }

    /// What a `robots.txt` response says to `agent`: everything is allowed
    /// unless a file arrived, is not empty and can be read.
    pub open spec fn learnt(agent: Seq<char>, file: Option<Seq<u8>>) -> EntryView {
        match file {
            Some(f) => if f.len() == 0 {
                EntryView::allow_all()
            } else {
                EntryView::of(robots_rules(agent, f))
            },
            None => EntryView::allow_all(),
        }
    }

    /// Whether the URL with text `url` may be fetched.
    pub open spec fn allows(self, url: Seq<char>) -> bool {
        match self.allowed {
            Some(set) => set.contains(url),
            None => true,
        }
    }
}

impl RobotsEntry {
    spec fn content(self) -> EntryView {
        EntryView {
            allowed: match self.robot {
                Some(robot) => Some(allowed_by(robot)),
                None => None,
            },
            delay: match self.delay {
                Some(d) => Some(d.nanos as nat),
                None => None,
            },
            sitemaps: text::texts(self.sitemaps@),
        }
    }

    fn allow_all() -> (r: Self)
        ensures
            r.content() == EntryView::allow_all(),
    {
        let r = RobotsEntry { robot: None, delay: None, sitemaps: Vec::new() };
        proof {
            assert(r.content().sitemaps =~= Seq::empty());
        }
        r
    }

    /// Keep what was read; allow everything where nothing could be read.
    fn from_rules(rules: Option<Rules>) -> (r: Self)
        ensures
            r.content() == EntryView::of(rules_view(rules)),
    {
        match rules {
            Some(Rules { robot, delay, sitemaps }) => RobotsEntry {
                robot: Some(robot),
                delay,
                sitemaps,
            },
            None => RobotsEntry::allow_all(),
        }
    }
}

/// The origin of a URL: `scheme://host:port`, or `scheme://host` if the port is
/// not known.
pub open spec fn origin_of(u: UrlView) -> Seq<char> {
    let host = match u.host {
        Some(h) => h,
        None => Seq::empty(),
    };
    let start = u.scheme + "://"@ + host;
    match u.known_port() {
        Some(port) => start + ":"@ + text::decimal(port as nat),
        None => start,
    }
}

/// Origin key (`scheme://host:port`) used to index the cache.
pub fn origin_key(url: &Url) -> (r: String)
    ensures
        r@ == origin_of(url@),
{
    let mut key: String = url.scheme.clone();
    key.append("://");
    match &url.host {
        Some(h) => {
            key.append(h.as_str());
        },
        None => {
            proof {
                assert(key@ + Seq::empty() =~= key@);
            }
        },
    }
    if let Some(port) = url.known_port() {
        key.append(":");
        let digits = to_decimal(port as u64);
        key.append(digits.as_str());
    }
    key
}

/// Where the `robots.txt` of a URL's origin is found, if that is a URL.
pub fn robots_url(url: &Url) -> (r: Option<Url>)
    ensures
        match r {
            Some(u) => weburl::url_resolved(Some(url@.text()), "/robots.txt"@) == Ok::<
                UrlView,
                Seq<char>,
            >(u@),
            None => weburl::url_resolved(Some(url@.text()), "/robots.txt"@) is Err,
        },
{
    match url.join("/robots.txt") {
        Ok(u) => Some(u),
        Err(_) => None,
    }
}

/// The file in a response: none unless the status reports success and the body
/// arrived.
pub open spec fn response_file(status: u16, body: Option<Seq<u8>>) -> Option<Seq<u8>> {
    if 200 <= status < 300 {
        body
    } else {
        None
    }
}

/// The view of optional bytes.
pub open spec fn opt_bytes(bytes: Option<Vec<u8>>) -> Option<Seq<u8>> {
    match bytes {
        Some(b) => Some(b@),
        None => None,
    }
}

/// The file in a response: none unless the status reports success and the body
/// arrived. A 4xx status (including 404) so allows everything.
pub fn file_in_response(status: u16, body: Option<Vec<u8>>) -> (r: Option<Vec<u8>>)
    ensures
        opt_bytes(r) == response_file(status, opt_bytes(body)),
{
    if status >= 200 && status < 300 {
        body
    } else {
        None
    }
}

/// A cache of parsed `robots.txt` files.
pub struct RobotsCache {
    user_agent: String,
    entries: TextMap<RobotsEntry>,
}

/// The state of a [`RobotsCache`].
pub struct RobotsView {
    pub user_agent: Seq<char>,
    /// What is known, by origin.
    pub entries: Map<Seq<char>, EntryView>,
}

impl RobotsView {
    /// Nothing is known yet.
    pub open spec fn empty(user_agent: Seq<char>) -> RobotsView {
        RobotsView { user_agent, entries: Map::empty() }
    }

    /// Whether the origin of `u` is known.
    pub open spec fn knows(self, u: UrlView) -> bool {
        self.entries.dom().contains(origin_of(u))
    }

    /// What is known about the origin of `u`.
    pub open spec fn entry(self, u: UrlView) -> EntryView {
        self.entries[origin_of(u)]
    }

    /// The state after the `robots.txt` of the origin of `u` was asked for, and
    /// `file` arrived.
    pub open spec fn stored(self, u: UrlView, file: Option<Seq<u8>>) -> RobotsView {
        RobotsView {
            entries: self.entries.insert(
                origin_of(u),
                EntryView::learnt(self.user_agent, file),
            ),
            ..self
        }
    }
}

/// What is known about each origin.
spec fn entries_map(entries: Map<Seq<char>, RobotsEntry>) -> Map<Seq<char>, EntryView> {
    entries.map_values(|e: RobotsEntry| e.content())
}

impl View for RobotsCache {
    type V = RobotsView;

    closed spec fn view(&self) -> RobotsView {
        RobotsView {
            user_agent: self.user_agent@,
            entries: entries_map(self.entries.map()),
        }
    }
}

impl RobotsCache {
    /// The table of the cache is in order.
    pub closed spec fn wf(&self) -> bool {
        self.entries.wf()
    }

    /// Create a cache that evaluates rules for `user_agent`.
    pub fn new(user_agent: String) -> (r: Self)
        ensures
            r.wf(),
            r@ == RobotsView::empty(user_agent@),
    {
        let r = RobotsCache { user_agent, entries: TextMap::new() };
        proof {
            assert(r@.entries =~= Map::empty());
        }
        r
    }

    /// The position of what is known about the origin of `url`.
    fn position(&self, url: &Url) -> (r: Option<usize>)
        requires
            self.wf(),
        ensures
            match r {
                Some(i) => {
                    &&& i < self.entries.keys().len()
                    &&& self@.knows(url@)
                    &&& self.entries.keys()[i as int] == origin_of(url@)
                },
                None => !self@.knows(url@),
            },
    {
        let key = origin_key(url);
        self.entries.find(key.as_str())
    }

    /// Whether `url` may be fetched according to its origin's `robots.txt`;
    /// `None` while nothing is known about the origin.
    pub fn allowed(&self, url: &Url) -> (r: Option<bool>)
        requires
            self.wf(),
        ensures
            r == if self@.knows(url@) {
                Some(self@.entry(url@).allows(url@.text()))
            } else {
                None
            },
    {
        match self.position(url) {
            Some(i) => match &self.entries.value(i).robot {
                Some(robot) => {
                    let whole = url.text();
                    Some(robot.allowed(whole.as_str()))
                },
                None => Some(true),
            },
            None => None,
        }
    }

    /// The advertised crawl-delay for `url`'s origin, if any; `None` while
    /// nothing is known about the origin.
    pub fn crawl_delay(&self, url: &Url) -> (r: Option<Option<Duration>>)
        requires
            self.wf(),
        ensures
            r is Some <==> self@.knows(url@),
            r matches Some(d) ==> self@.entry(url@).delay == match d {
                Some(v) => Some(v.nanos as nat),
                None => None,
            },
    {
        match self.position(url) {
            Some(i) => Some(self.entries.value(i).delay),
            None => None,
        }
    }

    /// Sitemaps declared in `url`'s origin `robots.txt`; `None` while nothing is
    /// known about the origin.
    pub fn sitemaps(&self, url: &Url) -> (r: Option<Vec<String>>)
        requires
            self.wf(),
        ensures
            r is Some <==> self@.knows(url@),
            r matches Some(list) ==> text::texts(list@) == self@.entry(url@).sitemaps,
    {
        match self.position(url) {
            Some(i) => Some(copy_texts(&self.entries.value(i).sitemaps)),
            None => None,
        }
    }

    /// Remember what the `robots.txt` of `url`'s origin says. `file` is what
    /// arrived: nothing, if the file is missing or the origin unreachable. An
    /// empty file is as good as none.
    pub fn store(&mut self, url: &Url, file: Option<Vec<u8>>)
        requires
            old(self).wf(),
        ensures
            final(self).wf(),
            final(self)@ == old(self)@.stored(
                url@,
                match file {
                    Some(f) => Some(f@),
                    None => None,
                },
            ),
    {
        let rules = match file {
            Some(f) => if f.len() == 0 {
                None
            } else {
                read_rules(self.user_agent.as_str(), f.as_slice())
            },
            None => None,
        };
        self.store_rules(url, rules);
    }

    /// Remember the rules that were read for `url`'s origin, if any were.
    pub fn store_rules(&mut self, url: &Url, rules: Option<Rules>)
        requires
            old(self).wf(),
        ensures
            final(self).wf(),
            final(self)@ == (RobotsView {
                entries: old(self)@.entries.insert(
                    origin_of(url@),
                    EntryView::of(rules_view(rules)),
                ),
                ..old(self)@
            }),
    {
        let key = origin_key(url);
        let entry = RobotsEntry::from_rules(rules);
        let ghost k = key@;
        let ghost known = entry.content();
        let ghost before = self@.entries;
        match self.entries.find(key.as_str()) {
            Some(i) => {
                let slot = self.entries.value_mut(i);
                *slot = entry;
            },
            None => {
                self.entries.insert(key, entry);
            },
        }
        proof {
            assert(self@.entries =~= before.insert(k, known));
        }
    }
}

/// Whether a `robots.txt` holds no rules for `agent`: it is missing, empty, or
/// cannot be read.
pub open spec fn without_rules(agent: Seq<char>, file: Option<Seq<u8>>) -> bool {
    match file {
        Some(f) => f.len() == 0 || robots_rules(agent, f) is None,
        None => true,
    }
}

/// A missing `robots.txt`, an empty one, one that cannot be read, and one that
/// could not be fetched all allow every URL of the origin, ask for no delay and
/// declare no sitemap.
pub proof fn absent_rules_allow_all(
    c: RobotsView,
    u: UrlView,
    file: Option<Seq<u8>>,
    v: UrlView,
)
    requires
        without_rules(c.user_agent, file),
        origin_of(v) == origin_of(u),
    ensures
        c.stored(u, file).knows(v),
        c.stored(u, file).entry(v).allows(v.text()),
        c.stored(u, file).entry(v).delay is None,
        c.stored(u, file).entry(v).sitemaps.len() == 0,
{
}

/// A `robots.txt` response that reports no success, or whose body is empty or
/// did not arrive, holds no rules.
pub proof fn failed_responses_hold_no_rules(agent: Seq<char>, status: u16, body: Option<Seq<u8>>)
    ensures
        status < 200 || status >= 300 ==> without_rules(agent, response_file(status, body)),
        body is None ==> without_rules(agent, response_file(status, body)),
        body matches Some(b) && b.len() == 0 ==> without_rules(
            agent,
            response_file(status, body),
        ),
{
}

/// Rules apply to an origin: URLs of one origin share an entry, and storing one
/// origin's file changes nothing for a URL of another.
pub proof fn rules_go_by_origin(c: RobotsView, u: UrlView, v: UrlView, file: Option<Seq<u8>>)
    ensures
        origin_of(u) == origin_of(v) ==> c.stored(u, file).knows(v) && c.stored(u, file).entry(v)
            == EntryView::learnt(c.user_agent, file),
        origin_of(u) != origin_of(v) ==> c.stored(u, file).knows(v) == c.knows(v) && (c.knows(v)
            ==> c.stored(u, file).entry(v) == c.entry(v)),
{
}

/// Two workers that learn the same file at the same time do no harm: storing it
/// again changes nothing.
pub proof fn storing_again_changes_nothing(c: RobotsView, u: UrlView, file: Option<Seq<u8>>)
    ensures
        c.stored(u, file).stored(u, file) == c.stored(u, file),
{
    assert(c.stored(u, file).stored(u, file).entries =~= c.stored(u, file).entries);
}

/// What a `robots.txt` says is kept as it was read, whatever the values are: once
/// a file with rules was stored, every URL of the origin is held to the delay,
/// the sitemaps and the permissions that were read out of it.
pub proof fn rules_are_kept_as_read(
    c: RobotsView,
    u: UrlView,
    v: UrlView,
    f: Seq<u8>,
    r: RulesView,
    x: Seq<char>,
)
    requires
        u.scheme == v.scheme,
        u.host == v.host,
        u.known_port() == v.known_port(),
        f.len() > 0,
        robots_rules(c.user_agent, f) == Some(r),
    ensures
        c.stored(u, Some(f)).knows(v),
        c.stored(u, Some(f)).entry(v).delay == r.delay,
        c.stored(u, Some(f)).entry(v).sitemaps == r.sitemaps,
        c.stored(u, Some(f)).entry(v).allows(x) <==> r.allowed.contains(x),
        c.stored(u, Some(f)).user_agent == c.user_agent,
{
}

/// Where there is no file, an empty one, or one that cannot be read, every URL
/// of the origin may be fetched, at any pace, and no sitemap is known.
pub proof fn no_rules_are_no_limits(
    c: RobotsView,
    u: UrlView,
    v: UrlView,
    file: Option<Seq<u8>>,
    x: Seq<char>,
)
    requires
        u.scheme == v.scheme,
        u.host == v.host,
        u.known_port() == v.known_port(),
        file matches Some(f) ==> f.len() == 0 || robots_rules(c.user_agent, f) is None,
    ensures
        c.stored(u, file).knows(v),
        c.stored(u, file).entry(v).allows(x),
        c.stored(u, file).entry(v).delay is None,
        c.stored(u, file).entry(v).sitemaps.len() == 0,
        c.stored(u, file).user_agent == c.user_agent,
{
}

/// Nothing is known at the start, and the rules are read for the crawl's own
/// user agent.
pub proof fn nothing_is_known_at_first(agent: Seq<char>, u: UrlView)
    ensures
        !RobotsView::empty(agent).knows(u),
        RobotsView::empty(agent).user_agent == agent,
{
}

/// What ends alike and is equally long behind it is the same in front.
proof fn front_of_equal_sums(a: Seq<char>, b: Seq<char>, x: Seq<char>)
    requires
        a + x == b + x,
    ensures
        a == b,
{
    assert((a + x).len() == (b + x).len());
    assert(a =~= (a + x).take(a.len() as int));
    assert(b =~= (b + x).take(b.len() as int));
}

/// What starts alike is the same behind it.
proof fn back_of_equal_sums(a: Seq<char>, x: Seq<char>, y: Seq<char>)
    requires
        a + x == a + y,
    ensures
        x == y,
{
    assert(x =~= (a + x).skip(a.len() as int));
    assert(y =~= (a + y).skip(a.len() as int));
}

/// An origin is a scheme, a host and a port, and no other part of a URL: URLs
/// that share all three share an origin, and those that differ in one of them
/// alone do not.
pub proof fn origins_go_by_scheme_host_and_port(u: UrlView, v: UrlView)
    requires
        u.host is Some,
        v.host is Some,
    ensures
        u.scheme == v.scheme && u.host == v.host && u.known_port() == v.known_port() ==> origin_of(
            u,
        ) == origin_of(v),
        u.scheme == v.scheme && u.host == v.host && u.known_port() != v.known_port() ==> origin_of(
            u,
        ) != origin_of(v),
        u.scheme == v.scheme && u.host != v.host && u.known_port() == v.known_port() ==> origin_of(
            u,
        ) != origin_of(v),
        u.scheme != v.scheme && u.host == v.host && u.known_port() == v.known_port() ==> origin_of(
            u,
        ) != origin_of(v),
        u.known_port() is Some ==> origin_of(u) == u.scheme + "://"@ + u.host->0 + ":"@
            + text::decimal(u.known_port()->0 as nat),
        u.known_port() is None ==> origin_of(u) == u.scheme + "://"@ + u.host->0,
{
    let a = u.scheme + "://"@ + u.host->0;
    let b = v.scheme + "://"@ + v.host->0;
    reveal_strlit(":");
    if origin_of(u) == origin_of(v) && u.known_port() == v.known_port() {
        if u.known_port() is Some {
            let digits = text::decimal(u.known_port()->0 as nat);
            front_of_equal_sums(a + ":"@, b + ":"@, digits);
            front_of_equal_sums(a, b, ":"@);
        }
        if u.scheme == v.scheme {
            back_of_equal_sums(u.scheme + "://"@, u.host->0, v.host->0);
        }
        if u.host == v.host {
            front_of_equal_sums(u.scheme + "://"@, v.scheme + "://"@, u.host->0);
            front_of_equal_sums(u.scheme, v.scheme, "://"@);
        }
    }
    if origin_of(u) == origin_of(v) && u.scheme == v.scheme && u.host == v.host {
        if u.known_port() is Some && v.known_port() is Some {
            back_of_equal_sums(
                a + ":"@,
                text::decimal(u.known_port()->0 as nat),
                text::decimal(v.known_port()->0 as nat),
            );
            text::decimal_tells_numbers_apart(
                u.known_port()->0 as nat,
                v.known_port()->0 as nat,
            );
        } else if u.known_port() is Some {
            assert(origin_of(u).len() > a.len());
        } else if v.known_port() is Some {
            assert(origin_of(v).len() > b.len());
        }
    }
}

/// A response that reports success holds the body that arrived for the file, and
/// any other holds none.
pub proof fn successful_responses_hold_the_file(status: u16, body: Option<Seq<u8>>)
    ensures
        200 <= status <= 299 ==> response_file(status, body) == body,
        status <= 199 || status >= 300 ==> response_file(status, body) is None,
{
}

} // verus!
