//! Crawl configuration and its builder.

use vstd::prelude::*;

use crate::error::{CrawlError, ErrorView};
use crate::pattern::{self, compile_patterns};
use crate::text::{join2, join3, to_decimal};
use crate::time::Duration;
use crate::weburl::{self, Url, UrlView};

verus! {

/// Default number of concurrent in-flight requests across the crawl.
pub const DEFAULT_CONCURRENCY: usize = 16;

/// Upper bound for the configured worker pool.
///
/// It protects against an unbounded number of workers by way of a typo in a
/// command-line flag.
pub const MAX_CONCURRENCY: usize = 1024;

/// How aggressively the crawler is allowed to wander away from its seeds.
#[derive(Debug, Clone, Copy, PartialEq, Eq, Structural)]
pub enum Scope {
    /// Only follow links on the exact same host as the seed
    /// (`docs.example.com` will not crawl `example.com`).
    Host,
    /// Follow links on the same registrable domain, including subdomains
    /// (`example.com` and `docs.example.com` are both in scope).
    Domain,
    /// Follow links anywhere.
    Any,
}

impl Default for Scope {
    /// The registrable domain: the most common choice for a single site.
    fn default() -> (r: Self)
        ensures
            r == Scope::Domain,
    {
        Scope::Domain
    }
}

/// Immutable configuration for a single crawl.
///
/// Construct one with [`CrawlConfig::builder`]; the builder validates inputs
/// and applies sensible, polite defaults.
#[derive(Debug)]
pub struct CrawlConfig {
    /// Starting URLs. Always crawled first, at depth `0`.
    pub seeds: Vec<Url>,
    /// Maximum link depth to follow. `None` means unlimited.
    pub max_depth: Option<u32>,
    /// Maximum number of pages to fetch. `None` means unlimited.
    pub max_pages: Option<usize>,
    /// Number of concurrent in-flight requests across all hosts, in the range
    /// `1..=MAX_CONCURRENCY`.
    pub concurrency: usize,
    /// Minimum delay between two requests to the *same* host.
    pub per_host_delay: Duration,
    /// Per-request timeout.
    pub request_timeout: Duration,
    /// `User-Agent` header sent with every request.
    pub user_agent: String,
    /// Whether to fetch and obey `robots.txt`.
    pub respect_robots: bool,
    /// Whether an advertised `Crawl-delay` in `robots.txt` may raise the delay
    /// of a host.
    pub respect_crawl_delay: bool,
    /// How far link-following may stray from the seeds.
    pub scope: Scope,
    /// If set, only URLs matching at least one pattern are crawled.
    pub includes: Vec<regex::Regex>,
    /// URLs matching any of these patterns are never crawled.
    pub exclude: Vec<regex::Regex>,
    /// Number of retry attempts for transient transport failures.
    pub max_retries: u32,
    /// Hard cap on response body size; larger bodies are skipped.
    pub max_body_bytes: usize,
}

/// Builder for [`CrawlConfig`].
#[derive(Debug)]
pub struct CrawlConfigBuilder {
    seeds: Vec<Url>,
    max_depth: Option<u32>,
    max_pages: Option<usize>,
    concurrency: usize,
    per_host_delay: Duration,
    request_timeout: Duration,
    user_agent: String,
    respect_robots: bool,
    respect_crawl_delay: bool,
    scope: Scope,
    includes: Vec<String>,
    exclude: Vec<String>,
    max_retries: u32,
    max_body_bytes: usize,
}

/// Everything that a configuration says except its patterns.
pub struct Settings {
    pub seeds: Seq<UrlView>,
    pub max_depth: Option<u32>,
    pub max_pages: Option<usize>,
    pub concurrency: usize,
    pub per_host_delay: Duration,
    pub request_timeout: Duration,
    pub user_agent: Seq<char>,
    pub respect_robots: bool,
    pub respect_crawl_delay: bool,
    pub scope: Scope,
    pub max_retries: u32,
    pub max_body_bytes: usize,
}

/// What a builder holds: the patterns are still text.
pub struct BuilderView {
    pub settings: Settings,
    pub includes: Seq<Seq<char>>,
    pub exclude: Seq<Seq<char>>,
}

/// What a configuration holds: a pattern is what it matches.
pub struct ConfigView {
    pub settings: Settings,
    pub includes: Seq<Set<Seq<char>>>,
    pub exclude: Seq<Set<Seq<char>>>,
}

/// The views of a list of URLs.
pub open spec fn url_views(urls: Seq<Url>) -> Seq<UrlView> {
    urls.map_values(|u: Url| u@)
}

impl View for CrawlConfig {
    type V = ConfigView;

    open spec fn view(&self) -> ConfigView {
        ConfigView {
            settings: Settings {
                seeds: url_views(self.seeds@),
                max_depth: self.max_depth,
                max_pages: self.max_pages,
                concurrency: self.concurrency,
                per_host_delay: self.per_host_delay,
                request_timeout: self.request_timeout,
                user_agent: self.user_agent@,
                respect_robots: self.respect_robots,
                respect_crawl_delay: self.respect_crawl_delay,
                scope: self.scope,
                max_retries: self.max_retries,
                max_body_bytes: self.max_body_bytes,
            },
            includes: pattern::languages(self.includes@),
            exclude: pattern::languages(self.exclude@),
        }
    }
}

impl View for CrawlConfigBuilder {
    type V = BuilderView;

    closed spec fn view(&self) -> BuilderView {
        BuilderView {
            settings: Settings {
                seeds: url_views(self.seeds@),
                max_depth: self.max_depth,
                max_pages: self.max_pages,
                concurrency: self.concurrency,
                per_host_delay: self.per_host_delay,
                request_timeout: self.request_timeout,
                user_agent: self.user_agent@,
                respect_robots: self.respect_robots,
                respect_crawl_delay: self.respect_crawl_delay,
                scope: self.scope,
                max_retries: self.max_retries,
                max_body_bytes: self.max_body_bytes,
            },
            includes: crate::text::texts(self.includes@),
            exclude: crate::text::texts(self.exclude@),
        }
    }
}

/// The `User-Agent` of a crawler that is not told another one.
pub open spec fn default_agent() -> Seq<char> {
    "rustcrawl/0.1.0 (+https://github.com/rustcrawl/rustcrawl)"@
}

/// The default `User-Agent`, advertising the project and version so site
/// operators can identify (and contact about) the crawler.
pub fn default_user_agent() -> (r: String)
    ensures
        r@ == default_agent(),
{
    "rustcrawl/0.1.0 (+https://github.com/rustcrawl/rustcrawl)".to_owned()
}

impl BuilderView {
    /// What a fresh builder holds.
    pub open spec fn fresh() -> BuilderView {
        BuilderView {
            settings: Settings {
                seeds: Seq::empty(),
                max_depth: None,
                max_pages: None,
                concurrency: DEFAULT_CONCURRENCY,
                per_host_delay: Duration { nanos: 250_000_000 },
                request_timeout: Duration { nanos: 30_000_000_000 },
                user_agent: default_agent(),
                respect_robots: true,
                respect_crawl_delay: true,
                scope: Scope::Domain,
                max_retries: 2,
                max_body_bytes: 8388608,
            },
            includes: Seq::empty(),
            exclude: Seq::empty(),
        }
    }

    /// Why the builder's content is not a configuration; `None` where it is.
    /// The first reason in this order counts: seeds, concurrency, schemes,
    /// include patterns, exclude patterns.
    pub open spec fn rejection(self) -> Option<ErrorView> {
        let s = self.settings;
        if s.seeds.len() == 0 {
            Some(ErrorView::Config("at least one seed URL is required"@))
        } else if s.concurrency == 0 {
            Some(ErrorView::Config("concurrency must be at least 1"@))
        } else if s.concurrency > MAX_CONCURRENCY {
            Some(
                ErrorView::Config(
                    "concurrency must be at most "@ + crate::text::decimal(MAX_CONCURRENCY as nat),
                ),
            )
        } else if first_foreign(s.seeds) is Some {
            Some(
                ErrorView::Config(
                    "seed "@ + first_foreign(s.seeds)->0 + " must use http or https"@,
                ),
            )
        } else if pattern::first_invalid(self.includes) is Some {
            pattern::first_invalid(self.includes)
        } else {
            pattern::first_invalid(self.exclude)
        }
    }

    /// The configuration that the builder's content describes.
    pub open spec fn configured(self) -> ConfigView {
        ConfigView {
            settings: self.settings,
            includes: pattern::pattern_languages(self.includes),
            exclude: pattern::pattern_languages(self.exclude),
        }
    }
}

/// The text of the first URL that is neither `http` nor `https`.
pub open spec fn first_foreign(urls: Seq<UrlView>) -> Option<Seq<char>>
    decreases urls.len(),
{
    if urls.len() == 0 {
        None
    } else if !urls[0].is_web() {
        Some(urls[0].text())
    } else {
        first_foreign(urls.drop_first())
    }
}

/// Every URL before a first foreign one, or in a list without one, is a web
/// URL.
proof fn no_foreign_means_web(urls: Seq<UrlView>)
    requires
        first_foreign(urls) is None,
    ensures
        forall|i: int| 0 <= i < urls.len() ==> (#[trigger] urls[i]).is_web(),
    decreases urls.len(),
{
    if urls.len() > 0 {
        no_foreign_means_web(urls.drop_first());
        assert forall|i: int| 0 <= i < urls.len() implies (#[trigger] urls[i]).is_web() by {
            if i > 0 {
                assert(urls.drop_first()[i - 1] == urls[i]);
            }
        }
    }
}

/// What [`CrawlConfigBuilder::build`] lets pass has a seed, only web seeds, and
/// a concurrency within bounds.
pub proof fn accepted_configuration_is_sound(b: BuilderView)
    requires
        b.rejection() is None,
    ensures
        b.settings.seeds.len() > 0,
        1 <= b.settings.concurrency <= MAX_CONCURRENCY,
        forall|i: int|
            0 <= i < b.settings.seeds.len() ==> (#[trigger] b.settings.seeds[i]).is_web(),
{
    no_foreign_means_web(b.settings.seeds);
}

/// What a fresh builder holds is polite: it obeys `robots.txt` with its crawl
/// delay, keeps a delay between requests to a host, and stays on the domain.
pub proof fn defaults_are_polite()
    ensures
        ({
            let s = BuilderView::fresh().settings;
            &&& s.respect_robots
            &&& s.respect_crawl_delay
            &&& s.per_host_delay.nanos > 0
            &&& s.scope == Scope::Domain
        }),
{
}

impl CrawlConfig {
    /// Start building a configuration.
    pub fn builder() -> (r: CrawlConfigBuilder)
        ensures
            r@ == BuilderView::fresh(),
    {
        CrawlConfigBuilder::default()
    }
}

impl Default for CrawlConfigBuilder {
    fn default() -> (r: Self)
        ensures
            r@ == BuilderView::fresh(),
    {
        let r = CrawlConfigBuilder {
            seeds: Vec::new(),
            max_depth: None,
            max_pages: None,
            concurrency: DEFAULT_CONCURRENCY,
            per_host_delay: Duration::from_millis(250),
            request_timeout: Duration::from_secs(30),
            user_agent: default_user_agent(),
            respect_robots: true,
            respect_crawl_delay: true,
            scope: Scope::default(),
            includes: Vec::new(),
            exclude: Vec::new(),
            max_retries: 2,
            max_body_bytes: 8 * 1024 * 1024,
        };
        proof {
            assert(r@.settings.seeds =~= BuilderView::fresh().settings.seeds);
            assert(r@.includes =~= BuilderView::fresh().includes);
            assert(r@.exclude =~= BuilderView::fresh().exclude);
        }
        r
    }
}

impl CrawlConfigBuilder {
    /// Add a seed URL from a string.
    pub fn add_seed(self, seed: &str) -> (r: Result<Self, CrawlError>)
        ensures
            match (weburl::url_resolved(None, seed@), r) {
                (Ok(u), Ok(b)) => b@ == (BuilderView {
                    settings: Settings { seeds: self@.settings.seeds.push(u), ..self@.settings },
                    ..self@
                }) && u.wf(),
                (Err(m), Err(e)) => e@ == (ErrorView::Url { url: seed@, source: m }),
                _ => false,
            },
    {
        match Url::parse(seed) {
            Ok(url) => Ok(self.seed_url(url)),
            Err(source) => Err(CrawlError::Url { url: seed.to_owned(), source }),
        }
    }

    /// Add an already-parsed seed URL.
    pub fn seed_url(self, url: Url) -> (r: Self)
        ensures
            r@ == (BuilderView {
                settings: Settings { seeds: self@.settings.seeds.push(url@), ..self@.settings },
                ..self@
            }),
    {
        let mut b = self;
        b.seeds.push(url);
        proof {
            assert(url_views(b.seeds@) =~= url_views(self.seeds@).push(url@));
        }
        b
    }

    /// Set the maximum link depth (`None` = unlimited).
    pub fn max_depth(self, depth: Option<u32>) -> (r: Self)
        ensures
            r@ == (BuilderView {
                settings: Settings { max_depth: depth, ..self@.settings },
                ..self@
            }),
    {
        let mut b = self;
        b.max_depth = depth;
        b
    }

    /// Set the maximum number of pages to fetch (`None` = unlimited).
    pub fn max_pages(self, pages: Option<usize>) -> (r: Self)
        ensures
            r@ == (BuilderView {
                settings: Settings { max_pages: pages, ..self@.settings },
                ..self@
            }),
    {
        let mut b = self;
        b.max_pages = pages;
        b
    }

    /// Set the number of concurrent in-flight requests.
    ///
    /// The value is validated by [`Self::build`].
    pub fn concurrency(self, concurrency: usize) -> (r: Self)
        ensures
            r@ == (BuilderView {
                settings: Settings { concurrency, ..self@.settings },
                ..self@
            }),
    {
        let mut b = self;
        b.concurrency = concurrency;
        b
    }

    /// Set the minimum delay between requests to the same host.
    pub fn per_host_delay(self, delay: Duration) -> (r: Self)
        ensures
            r@ == (BuilderView {
                settings: Settings { per_host_delay: delay, ..self@.settings },
                ..self@
            }),
    {
        let mut b = self;
        b.per_host_delay = delay;
        b
    }

    /// Set the per-request timeout.
    pub fn request_timeout(self, timeout: Duration) -> (r: Self)
        ensures
            r@ == (BuilderView {
                settings: Settings { request_timeout: timeout, ..self@.settings },
                ..self@
            }),
    {
        let mut b = self;
        b.request_timeout = timeout;
        b
    }

    /// Override the `User-Agent` header.
    pub fn user_agent(self, ua: &str) -> (r: Self)
        ensures
            r@ == (BuilderView {
                settings: Settings { user_agent: ua@, ..self@.settings },
                ..self@
            }),
    {
        let mut b = self;
        b.user_agent = ua.to_owned();
        b
    }

    /// Toggle obeying `robots.txt`.
    pub fn respect_robots(self, respect: bool) -> (r: Self)
        ensures
            r@ == (BuilderView {
                settings: Settings { respect_robots: respect, ..self@.settings },
                ..self@
            }),
    {
        let mut b = self;
        b.respect_robots = respect;
        b
    }

    /// Toggle honoring an advertised `Crawl-delay`.
    pub fn respect_crawl_delay(self, respect: bool) -> (r: Self)
        ensures
            r@ == (BuilderView {
                settings: Settings { respect_crawl_delay: respect, ..self@.settings },
                ..self@
            }),
    {
        let mut b = self;
        b.respect_crawl_delay = respect;
        b
    }

    /// Set the crawl scope.
    pub fn scope(self, scope: Scope) -> (r: Self)
        ensures
            r@ == (BuilderView { settings: Settings { scope, ..self@.settings }, ..self@ }),
    {
        let mut b = self;
        b.scope = scope;
        b
    }

    /// Add an include pattern (compiled in [`Self::build`]).
    pub fn include_pattern(self, pattern: &str) -> (r: Self)
        ensures
            r@ == (BuilderView { includes: self@.includes.push(pattern@), ..self@ }),
    {
        let mut b = self;
        b.includes.push(pattern.to_owned());
        proof {
            assert(b@.includes =~= self@.includes.push(pattern@));
        }
        b
    }

    /// Add an exclude pattern (compiled in [`Self::build`]).
    pub fn exclude(self, pattern: &str) -> (r: Self)
        ensures
            r@ == (BuilderView { exclude: self@.exclude.push(pattern@), ..self@ }),
    {
        let mut b = self;
        b.exclude.push(pattern.to_owned());
        proof {
            assert(b@.exclude =~= self@.exclude.push(pattern@));
        }
        b
    }

    /// Set the retry count for transient failures.
    pub fn max_retries(self, retries: u32) -> (r: Self)
        ensures
            r@ == (BuilderView {
                settings: Settings { max_retries: retries, ..self@.settings },
                ..self@
            }),
    {
        let mut b = self;
        b.max_retries = retries;
        b
    }

    /// Set the maximum response body size in bytes.
    pub fn max_body_bytes(self, bytes: usize) -> (r: Self)
        ensures
            r@ == (BuilderView {
                settings: Settings { max_body_bytes: bytes, ..self@.settings },
                ..self@
            }),
    {
        let mut b = self;
        b.max_body_bytes = bytes;
        b
    }

    /// Validate inputs and produce an immutable [`CrawlConfig`].
    pub fn build(self) -> (r: Result<CrawlConfig, CrawlError>)
        ensures
            match r {
                Ok(c) => self@.rejection() is None && c@ == self@.configured(),
                Err(e) => self@.rejection() == Some(e@),
            },
    {
        if self.seeds.len() == 0 {
            return Err(CrawlError::Config("at least one seed URL is required".to_owned()));
        }
        if self.concurrency == 0 {
            return Err(CrawlError::Config("concurrency must be at least 1".to_owned()));
        }
        if self.concurrency > MAX_CONCURRENCY {
            let limit = to_decimal(MAX_CONCURRENCY as u64);
            return Err(CrawlError::Config(join2("concurrency must be at most ", limit.as_str())));
        }
        let ghost seeds = self@.settings.seeds;
        let mut i: usize = 0;
        proof {
            assert(seeds.skip(0) =~= seeds);
        }
        while i < self.seeds.len()
            invariant
                i <= self.seeds@.len(),
                seeds == url_views(self.seeds@),
                seeds == self@.settings.seeds,
                first_foreign(seeds) == first_foreign(seeds.skip(i as int)),
                self.seeds@.len() > 0,
                1 <= self.concurrency <= MAX_CONCURRENCY,
            decreases self.seeds.len() - i,
        {
            proof {
                assert(seeds[i as int] == self.seeds@[i as int]@);
                assert(seeds.skip(i as int).drop_first() =~= seeds.skip(i + 1));
            }
            if !self.seeds[i].is_web() {
                let seed = self.seeds[i].text();
                return Err(
                    CrawlError::Config(join3("seed ", seed.as_str(), " must use http or https")),
                );
            }
            i += 1;
        }
        let includes = match compile_patterns(self.includes) {
            Ok(list) => list,
            Err(e) => {
                return Err(e);
            },
        };
        let exclude = match compile_patterns(self.exclude) {
            Ok(list) => list,
            Err(e) => {
                return Err(e);
            },
        };
        Ok(
            CrawlConfig {
                seeds: self.seeds,
                max_depth: self.max_depth,
                max_pages: self.max_pages,
                concurrency: self.concurrency,
                per_host_delay: self.per_host_delay,
                request_timeout: self.request_timeout,
                user_agent: self.user_agent,
                respect_robots: self.respect_robots,
                respect_crawl_delay: self.respect_crawl_delay,
                scope: self.scope,
                includes,
                exclude,
                max_retries: self.max_retries,
                max_body_bytes: self.max_body_bytes,
            },
        )
    }
}

/// What a configuration shows is what stands in it, field by field.
pub proof fn configurations_show_their_fields(c: CrawlConfig, i: int)
    ensures
        c@.settings.seeds.len() == c.seeds@.len(),
        0 <= i < c.seeds@.len() ==> c@.settings.seeds[i] == c.seeds@[i]@,
        c@.settings.max_depth == c.max_depth,
        c@.settings.max_pages == c.max_pages,
        c@.settings.concurrency == c.concurrency,
        c@.settings.per_host_delay == c.per_host_delay,
        c@.settings.request_timeout == c.request_timeout,
        c@.settings.user_agent == c.user_agent@,
        c@.settings.respect_robots == c.respect_robots,
        c@.settings.respect_crawl_delay == c.respect_crawl_delay,
        c@.settings.scope == c.scope,
        c@.settings.max_retries == c.max_retries,
        c@.settings.max_body_bytes == c.max_body_bytes,
        c@.includes.len() == c.includes@.len(),
        c@.exclude.len() == c.exclude@.len(),
        0 <= i < c.includes@.len() ==> c@.includes[i] == pattern::regex_language(c.includes@[i]),
        0 <= i < c.exclude@.len() ==> c@.exclude[i] == pattern::regex_language(c.exclude@[i]),
{
}

/// A fresh builder holds the documented defaults: 16 requests at a time, 250 ms
/// between requests to a host, 30 s for a request, two retries, bodies of up to
/// 8 MiB, no limit on depth or pages, no seeds and no patterns.
pub proof fn the_defaults_are_as_documented()
    ensures
        ({
            let b = BuilderView::fresh();
            let s = b.settings;
            &&& s.seeds.len() == 0
            &&& s.max_depth is None
            &&& s.max_pages is None
            &&& s.concurrency == 16
            &&& s.per_host_delay.nanos == 250 * 1_000_000
            &&& s.request_timeout.nanos == 30 * 1_000_000_000
            &&& s.user_agent == "rustcrawl/0.1.0 (+https://github.com/rustcrawl/rustcrawl)"@
            &&& s.max_retries == 2
            &&& s.max_body_bytes == 8 * 1024 * 1024
            &&& b.includes.len() == 0
            &&& b.exclude.len() == 0
        }),
        MAX_CONCURRENCY == 1024,
{
}

proof fn foreign_means_some_not_web(urls: Seq<UrlView>) -> (k: int)
    requires
        first_foreign(urls) is Some,
    ensures
        0 <= k < urls.len(),
        urls[k].scheme != "http"@,
        urls[k].scheme != "https"@,
        first_foreign(urls) == Some(urls[k].text()),
        forall|i: int|
            0 <= i < k ==> (#[trigger] urls[i]).scheme == "http"@ || urls[i].scheme == "https"@,
    decreases urls.len(),
{
    if !urls[0].is_web() {
        0
    } else {
        let rest = urls.drop_first();
        let k = foreign_means_some_not_web(rest);
        assert forall|i: int| 0 <= i < k + 1 implies (#[trigger] urls[i]).scheme == "http"@
            || urls[i].scheme == "https"@ by {
            if i > 0 {
                assert(rest[i - 1] == urls[i]);
            }
        }
        k + 1
    }
}

/// A builder's content is a configuration exactly where it has a seed, from 1 to
/// 1024 requests at a time, only `http` and `https` seeds, and only patterns
/// that compile. The configuration then keeps every setting, and matches what
/// each pattern matches.
pub proof fn what_makes_a_configuration(b: BuilderView, i: int)
    ensures
        b.rejection() is None <==> {
            &&& b.settings.seeds.len() > 0
            &&& 1 <= b.settings.concurrency <= 1024
            &&& forall|k: int|
                0 <= k < b.settings.seeds.len() ==> (#[trigger] b.settings.seeds[k]).scheme
                    == "http"@ || b.settings.seeds[k].scheme == "https"@
            &&& forall|k: int|
                0 <= k < b.includes.len() ==> pattern::pattern_language(
                    #[trigger] b.includes[k],
                ) is Ok
            &&& forall|k: int|
                0 <= k < b.exclude.len() ==> pattern::pattern_language(#[trigger] b.exclude[k]) is Ok
        },
        b.configured().settings == b.settings,
        b.configured().includes.len() == b.includes.len(),
        b.configured().exclude.len() == b.exclude.len(),
        0 <= i < b.includes.len() ==> b.configured().includes[i] == pattern::pattern_language(
            b.includes[i],
        )->Ok_0,
        0 <= i < b.exclude.len() ==> b.configured().exclude[i] == pattern::pattern_language(
            b.exclude[i],
        )->Ok_0,
{
    pattern::every_pattern_is_compiled(b.includes);
    pattern::every_pattern_is_compiled(b.exclude);
    let seeds = b.settings.seeds;
    if first_foreign(seeds) is None {
        no_foreign_means_web(seeds);
    } else {
        let k = foreign_means_some_not_web(seeds);
        assert(seeds[k].scheme != "http"@);
    }
}

/// What is wrong with a configuration is said in the order in which it is looked
/// at: seeds, concurrency, schemes, patterns.
pub proof fn rejections_are_explained(b: BuilderView)
    ensures
        ({
            let s = b.settings;
            let seeded = s.seeds.len() > 0;
            let web = forall|k: int|
                0 <= k < s.seeds.len() ==> (#[trigger] s.seeds[k]).scheme == "http"@
                    || s.seeds[k].scheme == "https"@;
            &&& !seeded ==> b.rejection() == Some(
                ErrorView::Config("at least one seed URL is required"@),
            )
            &&& seeded && s.concurrency == 0 ==> b.rejection() == Some(
                ErrorView::Config("concurrency must be at least 1"@),
            )
            &&& seeded && s.concurrency > 1024 ==> b.rejection() == Some(
                ErrorView::Config("concurrency must be at most 1024"@),
            )
            &&& seeded && 1 <= s.concurrency <= 1024 && !web ==> exists|k: int|
                0 <= k < s.seeds.len() && (#[trigger] s.seeds[k]).scheme != "http"@
                    && s.seeds[k].scheme != "https"@ && b.rejection() == Some(
                    ErrorView::Config(
                        "seed "@ + s.seeds[k].text() + " must use http or https"@,
                    ),
                )
            &&& seeded && 1 <= s.concurrency <= 1024 && web && pattern::first_invalid(
                b.includes,
            ) is Some ==> b.rejection() == pattern::first_invalid(b.includes)
            &&& seeded && 1 <= s.concurrency <= 1024 && web && pattern::first_invalid(
                b.includes,
            ) is None ==> b.rejection() == pattern::first_invalid(b.exclude)
        }),
{
    let seeds = b.settings.seeds;
    reveal_strlit("concurrency must be at most ");
    reveal_strlit("concurrency must be at most 1024");
    reveal_with_fuel(crate::text::decimal, 5);
    assert("concurrency must be at most "@ + crate::text::decimal(1024)
        =~= "concurrency must be at most 1024"@);
    if first_foreign(seeds) is None {
        no_foreign_means_web(seeds);
    } else {
        let k = foreign_means_some_not_web(seeds);
        assert(seeds[k].scheme != "http"@);
    }
}

} // verus!
