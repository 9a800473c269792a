//! Command-line settings and their mapping to a [`CrawlConfig`].

use vstd::prelude::*;

use crate::config::{self, BuilderView, ConfigView, CrawlConfig, CrawlConfigBuilder, Scope, Settings};
use crate::config::{DEFAULT_CONCURRENCY, MAX_CONCURRENCY};
use crate::error::{self, quote, CrawlError, ErrorView};
use crate::text::{self, join2, join3, parse_number, to_decimal};
use crate::time::Duration;
use crate::weburl::{self, Url, UrlView};

verus! {

/// Command-line mirror of [`Scope`].
#[derive(Debug, Clone, Copy, PartialEq, Eq, Structural)]
pub enum ScopeArg {
    /// Only the exact seed host(s).
    Host,
    /// The seed's registrable domain, including subdomains (default).
    Domain,
    /// Anywhere on the web.
    Any,
}

impl ScopeArg {
    /// The scope that the argument stands for.
    pub open spec fn scope(self) -> Scope {
        match self {
            ScopeArg::Host => Scope::Host,
            ScopeArg::Domain => Scope::Domain,
            ScopeArg::Any => Scope::Any,
        }
    }

    /// The argument as it is written.
    pub open spec fn written(self) -> Seq<char> {
        match self {
            ScopeArg::Host => "host"@,
            ScopeArg::Domain => "domain"@,
            ScopeArg::Any => "any"@,
        }
    }

    /// The argument as it is written.
    pub fn name(self) -> (r: String)
        ensures
            r@ == self.written(),
    {
        match self {
            ScopeArg::Host => "host".to_owned(),
            ScopeArg::Domain => "domain".to_owned(),
            ScopeArg::Any => "any".to_owned(),
        }
    }
}

impl From<ScopeArg> for Scope {
    fn from(value: ScopeArg) -> (r: Scope) {
        match value {
            ScopeArg::Host => Scope::Host,
            ScopeArg::Domain => Scope::Domain,
            ScopeArg::Any => Scope::Any,
        }
    }
}

impl vstd::std_specs::convert::FromSpecImpl<ScopeArg> for Scope {
    open spec fn obeys_from_spec() -> bool {
        true
    }

    open spec fn from_spec(value: ScopeArg) -> Scope {
        value.scope()
    }
}

/// The settings of one invocation.
#[derive(Debug)]
pub struct Cli {
    /// Seed URLs to start crawling from.
    pub seeds: Vec<String>,
    /// Sitemaps to seed from additionally.
    pub sitemap: Vec<String>,
    /// Maximum link depth to follow (seeds are depth 0). Unlimited if unset.
    pub depth: Option<u32>,
    /// Stop after fetching this many pages. Unlimited if unset.
    pub max_pages: Option<usize>,
    /// Number of concurrent in-flight requests across all hosts.
    pub concurrency: usize,
    /// Minimum delay between requests to the same host.
    pub delay: Duration,
    /// Per-request timeout.
    pub timeout: Duration,
    /// How far link-following may stray from the seeds.
    pub scope: ScopeArg,
    /// Override the User-Agent header.
    pub user_agent: Option<String>,
    /// Do not fetch or obey robots.txt.
    pub ignore_robots: bool,
    /// Obey robots.txt allow/deny rules but ignore its Crawl-delay value.
    pub ignore_crawl_delay: bool,
    /// Only crawl URLs matching one of these expressions.
    pub includes: Vec<String>,
    /// Never crawl URLs matching one of these expressions.
    pub exclude: Vec<String>,
    /// Write JSON Lines output to this file instead of stdout.
    pub output: Option<String>,
    /// Retry attempts for transient failures.
    pub retries: u32,
    /// Maximum response body size in bytes; larger bodies are skipped.
    pub max_body: usize,
    /// Suppress the terminal dashboard and only print the final summary.
    pub quiet: bool,
    /// Do not record this run in the local job history.
    pub no_save: bool,
    /// Clear local job history and exit.
    pub clear_jobs: bool,
}

/// Why an invocation cannot be turned into a crawl.
#[derive(Debug)]
pub enum CliError {
    /// A seed is no URL.
    Seed { seed: String, error: CrawlError },
    /// A sitemap is no URL.
    Sitemap { sitemap: String, source: String },
    /// There is nothing to crawl.
    NoTarget,
    /// The configuration was rejected.
    Config(CrawlError),
}

/// The content of a [`CliError`].
pub enum CliErrorView {
    Seed { seed: Seq<char>, error: ErrorView },
    Sitemap { sitemap: Seq<char>, source: Seq<char> },
    NoTarget,
    Config(ErrorView),
}

impl View for CliError {
    type V = CliErrorView;

    open spec fn view(&self) -> CliErrorView {
        match *self {
            CliError::Seed { seed, error } => CliErrorView::Seed { seed: seed@, error: error@ },
            CliError::Sitemap { sitemap, source } => CliErrorView::Sitemap {
                sitemap: sitemap@,
                source: source@,
            },
            CliError::NoTarget => CliErrorView::NoTarget,
            CliError::Config(error) => CliErrorView::Config(error@),
        }
    }
}

impl CliErrorView {
    /// The error in words, with its causes.
    pub open spec fn report(self) -> Seq<char> {
        match self {
            CliErrorView::Seed { seed, error } => "invalid seed URL: "@ + seed + ": "@
                + error.report(),
            CliErrorView::Sitemap { sitemap, source } => "invalid sitemap URL: "@ + sitemap + ": "@
                + source,
            CliErrorView::NoTarget => "provide at least one seed URL or a --sitemap"@,
            CliErrorView::Config(error) => error.report(),
        }
    }
}

impl CliError {
    /// The error in words, with its causes.
    pub fn report(&self) -> (r: String)
        ensures
            r@ == self@.report(),
    {
        match self {
            CliError::Seed { seed, error } => {
                let head = join2("invalid seed URL: ", seed.as_str());
                join3(head.as_str(), ": ", error.report().as_str())
            },
            CliError::Sitemap { sitemap, source } => {
                let head = join2("invalid sitemap URL: ", sitemap.as_str());
                join3(head.as_str(), ": ", source.as_str())
            },
            CliError::NoTarget => "provide at least one seed URL or a --sitemap".to_owned(),
            CliError::Config(error) => error.report(),
        }
    }
}

/// The concurrency that a text asks for, or what is wrong with it.
pub open spec fn concurrency_read(s: Seq<char>) -> Result<nat, Seq<char>> {
    match text::number_up_to(s, usize::MAX as nat) {
        None => Err(
            "invalid concurrency "@ + error::quoted(s) + ": expected a positive integer"@,
        ),
        Some(n) => if n == 0 {
            Err("concurrency must be at least 1"@)
        } else if n > MAX_CONCURRENCY {
            Err("concurrency must be at most "@ + text::decimal(MAX_CONCURRENCY as nat))
        } else {
            Ok(n)
        },
    }
}

/// Read a concurrency: a whole number from 1 to [`MAX_CONCURRENCY`].
pub fn parse_concurrency(s: &str) -> (r: Result<usize, String>)
    ensures
        match (concurrency_read(s@), r) {
            (Ok(n), Ok(c)) => c == n,
            (Err(m), Err(e)) => e@ == m,
            _ => false,
        },
{
    match parse_number(s, usize::MAX as u64) {
        None => {
            let head = join2("invalid concurrency ", quote(s).as_str());
            Err(join2(head.as_str(), ": expected a positive integer"))
        },
        Some(n) => {
            if n == 0 {
                return Err("concurrency must be at least 1".to_owned());
            }
            if n > MAX_CONCURRENCY as u64 {
                let limit = to_decimal(MAX_CONCURRENCY as u64);
                return Err(join2("concurrency must be at most ", limit.as_str()));
            }
            Ok(n as usize)
        },
    }
}

/// The root of a URL's origin: the URL with the path `/` and nothing behind it.
pub open spec fn origin_root_of(u: UrlView) -> UrlView {
    u.at_root().without_query().without_fragment()
}

/// The root of a URL's origin.
pub fn origin_root(url: &Url) -> (r: Url)
    ensures
        r@ == origin_root_of(url@),
{
    let mut root = url.copy();
    root.go_to_root();
    root.drop_query();
    root.drop_fragment();
    root
}

/// The URLs that a list of texts spells, or the first text that is none, with
/// the parser's message.
pub open spec fn urls_read(list: Seq<Seq<char>>) -> Result<Seq<UrlView>, (Seq<char>, Seq<char>)>
    decreases list.len(),
{
    if list.len() == 0 {
        Ok(Seq::empty())
    } else {
        match urls_read(list.drop_last()) {
            Ok(before) => match weburl::url_resolved(None, list.last()) {
                Ok(u) => Ok(before.push(u)),
                Err(message) => Err((list.last(), message)),
            },
            Err(e) => Err(e),
        }
    }
}

/// A text that is no URL spoils every longer list.
proof fn urls_read_stops(list: Seq<Seq<char>>, k: int)
    requires
        0 <= k <= list.len(),
        urls_read(list.take(k)) is Err,
    ensures
        urls_read(list) == urls_read(list.take(k)),
    decreases list.len() - k,
{
    if k < list.len() {
        assert(list.take(k + 1).drop_last() =~= list.take(k));
        urls_read_stops(list, k + 1);
    } else {
        assert(list.take(k) =~= list);
    }
}

/// The roots of the origins of a list of URLs.
pub open spec fn roots_of(urls: Seq<UrlView>) -> Seq<UrlView> {
    urls.map_values(|u: UrlView| origin_root_of(u))
}

/// The content of a [`Cli`], as far as the crawl is concerned.
pub struct CliView {
    pub seeds: Seq<Seq<char>>,
    pub sitemap: Seq<Seq<char>>,
    pub depth: Option<u32>,
    pub max_pages: Option<usize>,
    pub concurrency: usize,
    pub delay: Duration,
    pub timeout: Duration,
    pub scope: ScopeArg,
    pub user_agent: Option<Seq<char>>,
    pub ignore_robots: bool,
    pub ignore_crawl_delay: bool,
    pub includes: Seq<Seq<char>>,
    pub exclude: Seq<Seq<char>>,
    pub output: Option<Seq<char>>,
    pub retries: u32,
    pub max_body: usize,
    pub quiet: bool,
    pub no_save: bool,
    pub clear_jobs: bool,
}

impl View for Cli {
    type V = CliView;

    open spec fn view(&self) -> CliView {
        CliView {
            seeds: text::texts(self.seeds@),
            sitemap: text::texts(self.sitemap@),
            depth: self.depth,
            max_pages: self.max_pages,
            concurrency: self.concurrency,
            delay: self.delay,
            timeout: self.timeout,
            scope: self.scope,
            user_agent: text::opt_view(self.user_agent),
            ignore_robots: self.ignore_robots,
            ignore_crawl_delay: self.ignore_crawl_delay,
            includes: text::texts(self.includes@),
            exclude: text::texts(self.exclude@),
            output: text::opt_view(self.output),
            retries: self.retries,
            max_body: self.max_body,
            quiet: self.quiet,
            no_save: self.no_save,
            clear_jobs: self.clear_jobs,
        }
    }
}

impl CliView {
    /// Whether there is anything to crawl.
    pub open spec fn has_target(self) -> bool {
        self.seeds.len() > 0 || self.sitemap.len() > 0
    }

    /// The seeds of the crawl: those given, or else the roots of the origins of
    /// the sitemaps.
    pub open spec fn seeds_read(self) -> Result<Seq<UrlView>, CliErrorView> {
        if self.seeds.len() > 0 {
            match urls_read(self.seeds) {
                Ok(urls) => Ok(urls),
                Err((seed, source)) => Err(
                    CliErrorView::Seed { seed, error: ErrorView::Url { url: seed, source } },
                ),
            }
        } else {
            match urls_read(self.sitemap) {
                Ok(urls) => if urls.len() == 0 {
                    Err(CliErrorView::NoTarget)
                } else {
                    Ok(roots_of(urls))
                },
                Err((sitemap, source)) => Err(CliErrorView::Sitemap { sitemap, source }),
            }
        }
    }

    /// The configuration that is built, with `seeds`.
    pub open spec fn described(self, seeds: Seq<UrlView>) -> BuilderView {
        BuilderView {
            settings: Settings {
                seeds,
                max_depth: self.depth,
                max_pages: self.max_pages,
                concurrency: self.concurrency,
                per_host_delay: self.delay,
                request_timeout: self.timeout,
                user_agent: match self.user_agent {
                    Some(ua) => ua,
                    None => config::default_agent(),
                },
                respect_robots: !self.ignore_robots,
                respect_crawl_delay: !self.ignore_robots && !self.ignore_crawl_delay,
                scope: self.scope.scope(),
                max_retries: self.retries,
                max_body_bytes: self.max_body,
            },
            includes: self.includes,
            exclude: self.exclude,
        }
    }

    /// The configuration of the crawl, or why there is none.
    pub open spec fn config(self) -> Result<ConfigView, CliErrorView> {
        match self.seeds_read() {
            Ok(seeds) => match self.described(seeds).rejection() {
                None => Ok(self.described(seeds).configured()),
                Some(e) => Err(CliErrorView::Config(e)),
            },
            Err(e) => Err(e),
        }
    }
}

impl Cli {
    /// The settings of an invocation that only names its seeds.
    pub fn with_seeds(seeds: Vec<String>) -> (r: Self)
        ensures
            r@.seeds == text::texts(seeds@),
            r@.sitemap.len() == 0,
            r@.described(Seq::empty()) == BuilderView::fresh(),
            r@.output is None,
            !r@.quiet && !r@.no_save && !r@.clear_jobs,
    {
        let r = Cli {
            seeds,
            sitemap: Vec::new(),
            depth: None,
            max_pages: None,
            concurrency: DEFAULT_CONCURRENCY,
            delay: Duration::from_millis(250),
            timeout: Duration::from_secs(30),
            scope: ScopeArg::Domain,
            user_agent: None,
            ignore_robots: false,
            ignore_crawl_delay: false,
            includes: Vec::new(),
            exclude: Vec::new(),
            output: None,
            retries: 2,
            max_body: 8 * 1024 * 1024,
            quiet: false,
            no_save: false,
            clear_jobs: false,
        };
        proof {
            assert(r@.includes =~= Seq::empty());
            assert(r@.exclude =~= Seq::empty());
        }
        r
    }

    /// Whether this invocation has enough input to start a crawl.
    pub fn has_crawl_target(&self) -> (r: bool)
        ensures
            r == self@.has_target(),
    {
        self.seeds.len() > 0 || self.sitemap.len() > 0
    }

    /// Parsed, validated sitemap URLs.
    pub fn sitemap_urls(&self) -> (r: Result<Vec<Url>, CliError>)
        ensures
            match (urls_read(self@.sitemap), r) {
                (Ok(urls), Ok(list)) => config::url_views(list@) == urls,
                (Err((sitemap, source)), Err(e)) => e@ == (CliErrorView::Sitemap {
                    sitemap,
                    source,
                }),
                _ => false,
            },
    {
        let ghost all = self@.sitemap;
        let mut out: Vec<Url> = Vec::new();
        let mut i: usize = 0;
        proof {
            assert(config::url_views(out@) =~= Seq::empty());
        }
        while i < self.sitemap.len()
            invariant
                i <= self.sitemap@.len(),
                all == text::texts(self.sitemap@),
                urls_read(all.take(i as int)) matches Ok(urls) && urls == config::url_views(out@),
            decreases self.sitemap.len() - i,
        {
            proof {
                assert(all.take(i + 1).drop_last() =~= all.take(i as int));
                assert(all.take(i + 1).last() == self.sitemap@[i as int]@);
            }
            match Url::parse(self.sitemap[i].as_str()) {
                Ok(url) => {
                    let ghost before = out@;
                    let ghost u = url@;
                    out.push(url);
                    proof {
                        assert(config::url_views(out@) =~= config::url_views(before).push(u));
                    }
                },
                Err(source) => {
                    proof {
                        urls_read_stops(all, i + 1);
                    }
                    return Err(CliError::Sitemap { sitemap: self.sitemap[i].clone(), source });
                },
            }
            i += 1;
        }
        proof {
            assert(all.take(i as int) =~= all);
        }
        Ok(out)
    }

    /// The builder without its seeds.
    fn builder(&self) -> (r: CrawlConfigBuilder)
        ensures
            r@ == self@.described(Seq::empty()),
    {
        let mut builder = CrawlConfig::builder()
            .max_depth(self.depth)
            .max_pages(self.max_pages)
            .concurrency(self.concurrency)
            .per_host_delay(self.delay)
            .request_timeout(self.timeout)
            .scope(Scope::from(self.scope))
            .respect_robots(!self.ignore_robots)
            .respect_crawl_delay(!self.ignore_robots && !self.ignore_crawl_delay)
            .max_retries(self.retries)
            .max_body_bytes(self.max_body);
        if let Some(ua) = &self.user_agent {
            builder = builder.user_agent(ua.as_str());
        }
        let ghost base = builder@;
        let ghost includes = self@.includes;
        let ghost exclude = self@.exclude;
        let mut i: usize = 0;
        proof {
            assert(includes.take(0) =~= Seq::empty());
        }
        while i < self.includes.len()
            invariant
                i <= self.includes@.len(),
                includes == text::texts(self.includes@),
                builder@ == (BuilderView { includes: includes.take(i as int), ..base }),
            decreases self.includes.len() - i,
        {
            builder = builder.include_pattern(self.includes[i].as_str());
            proof {
                assert(includes.take(i + 1) =~= includes.take(i as int).push(
                    self.includes@[i as int]@,
                ));
            }
            i += 1;
        }
        proof {
            assert(includes.take(i as int) =~= includes);
            assert(exclude.take(0) =~= Seq::empty());
        }
        i = 0;
        while i < self.exclude.len()
            invariant
                i <= self.exclude@.len(),
                exclude == text::texts(self.exclude@),
                builder@ == (BuilderView { includes, exclude: exclude.take(i as int), ..base }),
            decreases self.exclude.len() - i,
        {
            builder = builder.exclude(self.exclude[i].as_str());
            proof {
                assert(exclude.take(i + 1) =~= exclude.take(i as int).push(
                    self.exclude@[i as int]@,
                ));
            }
            i += 1;
        }
        proof {
            assert(exclude.take(i as int) =~= exclude);
        }
        builder
    }

    /// Translate the settings into a validated [`CrawlConfig`].
    ///
    /// When no seed URLs are given but a sitemap is, the sitemap's origin root
    /// is used as a seed so that the default domain scope is anchored sensibly.
    pub fn to_config(&self) -> (r: Result<CrawlConfig, CliError>)
        ensures
            match (self@.config(), r) {
                (Ok(config), Ok(c)) => c@ == config,
                (Err(e), Err(given)) => given@ == e,
                _ => false,
            },
    {
        let mut builder = self.builder();
        let ghost all = self@.seeds;
        let ghost view = self@;
        if self.seeds.len() > 0 {
            let mut i: usize = 0;
            while i < self.seeds.len()
                invariant
                    i <= self.seeds@.len(),
                    all == text::texts(self.seeds@),
                    urls_read(all.take(i as int)) matches Ok(urls) && builder@ == view.described(
                        urls,
                    ),
                    all == view.seeds,
                    view == self@,
                    all.len() > 0,
                decreases self.seeds.len() - i,
            {
                proof {
                    assert(all.take(i + 1).drop_last() =~= all.take(i as int));
                    assert(all.take(i + 1).last() == self.seeds@[i as int]@);
                }
                match builder.add_seed(self.seeds[i].as_str()) {
                    Ok(b) => {
                        builder = b;
                    },
                    Err(error) => {
                        proof {
                            urls_read_stops(all, i + 1);
                        }
                        return Err(CliError::Seed { seed: self.seeds[i].clone(), error });
                    },
                }
                i += 1;
            }
            proof {
                assert(all.take(i as int) =~= all);
            }
        } else {
            let sitemaps = match self.sitemap_urls() {
                Ok(list) => list,
                Err(e) => {
                    return Err(e);
                },
            };
            if sitemaps.len() == 0 {
                return Err(CliError::NoTarget);
            }
            let ghost roots = roots_of(config::url_views(sitemaps@));
            let mut i: usize = 0;
            proof {
                assert(roots.take(0) =~= Seq::empty());
            }
            while i < sitemaps.len()
                invariant
                    i <= sitemaps@.len(),
                    roots == roots_of(config::url_views(sitemaps@)),
                    builder@ == view.described(roots.take(i as int)),
                decreases sitemaps.len() - i,
            {
                builder = builder.seed_url(origin_root(&sitemaps[i]));
                proof {
                    assert(roots.take(i + 1) =~= roots.take(i as int).push(roots[i as int]));
                }
                i += 1;
            }
            proof {
                assert(roots.take(i as int) =~= roots);
            }
        }
        match builder.build() {
            Ok(config) => Ok(config),
            Err(e) => Err(CliError::Config(e)),
        }
    }
}

/// An accepted invocation is crawled as it asks: the limits and the politeness
/// settings of the configuration are those of the command line, and ignoring
/// `robots.txt` also ignores its delay.
pub proof fn settings_carry_over(c: CliView)
    requires
        c.config() is Ok,
    ensures
        ({
            let s = c.config()->Ok_0.settings;
            &&& s.max_depth == c.depth
            &&& s.max_pages == c.max_pages
            &&& s.concurrency == c.concurrency
            &&& 1 <= s.concurrency <= MAX_CONCURRENCY
            &&& s.per_host_delay == c.delay
            &&& s.request_timeout == c.timeout
            &&& s.scope == c.scope.scope()
            &&& s.respect_robots == !c.ignore_robots
            &&& s.respect_crawl_delay == (!c.ignore_robots && !c.ignore_crawl_delay)
            &&& s.max_retries == c.retries
            &&& s.max_body_bytes == c.max_body
            &&& s.seeds.len() > 0
        }),
{
    config::accepted_configuration_is_sound(c.described(c.seeds_read()->Ok_0));
}

/// Without a seed and without a sitemap there is nothing to crawl.
pub proof fn a_target_is_required(c: CliView)
    ensures
        !c.has_target() ==> c.config() == Err::<ConfigView, CliErrorView>(CliErrorView::NoTarget),
{
}

/// Every scope has its name and stands for itself.
pub proof fn scopes_are_named()
    ensures
        ScopeArg::Host.written() == "host"@,
        ScopeArg::Domain.written() == "domain"@,
        ScopeArg::Any.written() == "any"@,
        ScopeArg::Host.scope() == Scope::Host,
        ScopeArg::Domain.scope() == Scope::Domain,
        ScopeArg::Any.scope() == Scope::Any,
{
}

/// What is wrong with an invocation is said with what it concerns and why.
pub proof fn invocation_errors_are_explained(a: Seq<char>, b: Seq<char>, e: ErrorView)
    ensures
        (CliErrorView::Seed { seed: a, error: e }).report() == "invalid seed URL: "@ + a + ": "@
            + e.report(),
        (CliErrorView::Sitemap { sitemap: a, source: b }).report() == "invalid sitemap URL: "@ + a
            + ": "@ + b,
        CliErrorView::NoTarget.report() == "provide at least one seed URL or a --sitemap"@,
        CliErrorView::Config(e).report() == e.report(),
{
}

/// A concurrency is a whole number from 1 to 1024, and nothing else.
pub proof fn concurrency_is_bounded(s: Seq<char>)
    ensures
        concurrency_read(s) is Ok <==> (text::number(s) matches Some(n) && 1 <= n <= 1024),
        concurrency_read(s) matches Ok(n) ==> text::number(s) == Some(n),
        text::number(s) is None ==> concurrency_read(s) == Err::<nat, Seq<char>>(
            "invalid concurrency "@ + error::quoted(s) + ": expected a positive integer"@,
        ),
        text::number(s) == Some(0nat) ==> concurrency_read(s) == Err::<nat, Seq<char>>(
            "concurrency must be at least 1"@,
        ),
        text::number(s) matches Some(n) && 1024 < n <= usize::MAX ==> concurrency_read(s) == Err::<
            nat,
            Seq<char>,
        >("concurrency must be at most 1024"@),
{
    text::small_numbers_are_digits(' ', s, usize::MAX as nat);
    reveal_strlit("concurrency must be at most ");
    reveal_strlit("concurrency must be at most 1024");
    reveal_with_fuel(text::decimal, 5);
    assert("concurrency must be at most "@ + text::decimal(1024)
        =~= "concurrency must be at most 1024"@);
}

/// The root of an origin keeps scheme, user, host and port, and has the path `/`
/// with neither query nor fragment.
pub proof fn roots_keep_the_origin(u: UrlView)
    requires
        u.authority,
    ensures
        origin_root_of(u) == (UrlView { path: "/"@, query: None, fragment: None, ..u }),
{
    weburl::parts_are_dropped_alone(u);
    weburl::parts_are_dropped_alone(u.at_root());
    weburl::parts_are_dropped_alone(u.at_root().without_query());
}

/// A list of texts is read where each of them is a URL, each as that URL and in
/// its place; and else the first that is none is reported, with the reason.
pub proof fn lists_are_read_one_by_one(list: Seq<Seq<char>>)
    ensures
        urls_read(list) is Ok <==> forall|i: int|
            0 <= i < list.len() ==> weburl::url_resolved(None, #[trigger] list[i]) is Ok,
        urls_read(list) matches Ok(urls) ==> urls.len() == list.len() && forall|i: int|
            0 <= i < list.len() ==> weburl::url_resolved(None, #[trigger] list[i]) == Ok::<
                UrlView,
                Seq<char>,
            >(urls[i]),
        urls_read(list) matches Err((seed, source)) ==> exists|k: int|
            0 <= k < list.len() && #[trigger] list[k] == seed && weburl::url_resolved(None, list[k])
                == Err::<UrlView, Seq<char>>(source) && forall|i: int|
                0 <= i < k ==> weburl::url_resolved(None, #[trigger] list[i]) is Ok,
    decreases list.len(),
{
    if list.len() > 0 {
        let rest = list.drop_last();
        lists_are_read_one_by_one(rest);
        assert forall|i: int| 0 <= i < rest.len() implies rest[i] == list[i] by {}
        let last = list.len() - 1;
        if urls_read(rest) is Err {
            let (seed, source) = urls_read(rest)->Err_0;
            let k = choose|k: int|
                0 <= k < rest.len() && #[trigger] rest[k] == seed && weburl::url_resolved(
                    None,
                    rest[k],
                ) == Err::<UrlView, Seq<char>>(source) && forall|i: int|
                    0 <= i < k ==> weburl::url_resolved(None, #[trigger] rest[i]) is Ok;
            assert(list[k] == rest[k]);
            assert forall|i: int| 0 <= i < k implies weburl::url_resolved(
                None,
                #[trigger] list[i],
            ) is Ok by {
                assert(rest[i] == list[i]);
            }
        } else {
            assert forall|i: int| 0 <= i < rest.len() implies weburl::url_resolved(
                None,
                #[trigger] list[i],
            ) == Ok::<UrlView, Seq<char>>(urls_read(rest)->Ok_0[i]) by {
                assert(rest[i] == list[i]);
            }
            assert(list[last] == list.last());
        }
    }
}

/// The seeds of a crawl are the URLs that are given, or else the roots of the
/// sitemaps' origins; without either there is none.
pub proof fn where_seeds_come_from(c: CliView, i: int)
    ensures
        c.has_target() <==> c.seeds.len() > 0 || c.sitemap.len() > 0,
        c.seeds.len() > 0 ==> (c.seeds_read() is Ok <==> urls_read(c.seeds) is Ok),
        c.seeds.len() > 0 && urls_read(c.seeds) is Ok ==> c.seeds_read()->Ok_0 == urls_read(
            c.seeds,
        )->Ok_0,
        c.seeds.len() > 0 && urls_read(c.seeds) is Err ==> (c.seeds_read()->Err_0 matches
        CliErrorView::Seed { seed, error } && error == (ErrorView::Url {
            url: seed,
            source: urls_read(c.seeds)->Err_0.1,
        }) && seed == urls_read(c.seeds)->Err_0.0),
        c.seeds.len() == 0 && c.sitemap.len() > 0 && urls_read(c.sitemap) is Ok && 0 <= i
            < c.sitemap.len() ==> c.seeds_read() is Ok && c.seeds_read()->Ok_0.len()
            == c.sitemap.len() && c.seeds_read()->Ok_0[i] == origin_root_of(
            urls_read(c.sitemap)->Ok_0[i],
        ),
        c.seeds.len() == 0 && urls_read(c.sitemap) is Err ==> (c.seeds_read()->Err_0 matches
        CliErrorView::Sitemap { sitemap, source } && sitemap == urls_read(c.sitemap)->Err_0.0
            && source == urls_read(c.sitemap)->Err_0.1),
        c.seeds.len() == 0 && c.sitemap.len() == 0 ==> (c.seeds_read() matches Err(e)
            && e is NoTarget),
{
    lists_are_read_one_by_one(c.sitemap);
}

/// A crawl is configured as its command line says, setting by setting, with the
/// documented user agent where none is given.
pub proof fn command_lines_are_followed(c: CliView, seeds: Seq<UrlView>)
    ensures
        ({
            let b = c.described(seeds);
            let s = b.settings;
            &&& s.seeds == seeds
            &&& s.max_depth == c.depth
            &&& s.max_pages == c.max_pages
            &&& s.concurrency == c.concurrency
            &&& s.per_host_delay == c.delay
            &&& s.request_timeout == c.timeout
            &&& c.user_agent matches Some(ua) ==> s.user_agent == ua
            &&& c.user_agent is None ==> s.user_agent
                == "rustcrawl/0.1.0 (+https://github.com/rustcrawl/rustcrawl)"@
            &&& s.respect_robots <==> !c.ignore_robots
            &&& s.respect_crawl_delay <==> !c.ignore_robots && !c.ignore_crawl_delay
            &&& c.scope is Host <==> s.scope is Host
            &&& c.scope is Domain <==> s.scope is Domain
            &&& c.scope is Any <==> s.scope is Any
            &&& s.max_retries == c.retries
            &&& s.max_body_bytes == c.max_body
            &&& b.includes == c.includes
            &&& b.exclude == c.exclude
        }),
{
}

/// An invocation becomes a crawl exactly where its seeds can be read and the
/// settings they go with are not rejected, and is then what they describe.
pub proof fn when_an_invocation_is_a_crawl(c: CliView)
    ensures
        c.config() is Ok <==> c.seeds_read() is Ok && c.described(
            c.seeds_read()->Ok_0,
        ).rejection() is None,
        c.config() matches Ok(config) ==> config == c.described(
            c.seeds_read()->Ok_0,
        ).configured(),
        c.seeds_read() matches Err(e) ==> c.config() == Err::<ConfigView, CliErrorView>(e),
        c.seeds_read() matches Ok(seeds) && (c.described(seeds).rejection() matches Some(e))
            ==> c.config() == Err::<ConfigView, CliErrorView>(
            CliErrorView::Config(c.described(c.seeds_read()->Ok_0).rejection()->0),
        ),
{
}

/// A command line shows what stands in it.
pub proof fn command_lines_show_what_they_hold(c: Cli, i: int)
    ensures
        c@.seeds.len() == c.seeds@.len(),
        c@.sitemap.len() == c.sitemap@.len(),
        c@.includes.len() == c.includes@.len(),
        c@.exclude.len() == c.exclude@.len(),
        0 <= i < c.seeds@.len() ==> c@.seeds[i] == c.seeds@[i]@,
        0 <= i < c.sitemap@.len() ==> c@.sitemap[i] == c.sitemap@[i]@,
        0 <= i < c.includes@.len() ==> c@.includes[i] == c.includes@[i]@,
        0 <= i < c.exclude@.len() ==> c@.exclude[i] == c.exclude@[i]@,
        c@.depth == c.depth,
        c@.max_pages == c.max_pages,
        c@.concurrency == c.concurrency,
        c@.delay == c.delay,
        c@.timeout == c.timeout,
        c@.scope == c.scope,
        c@.user_agent == text::opt_view(c.user_agent),
        c@.ignore_robots == c.ignore_robots,
        c@.ignore_crawl_delay == c.ignore_crawl_delay,
        c@.output == text::opt_view(c.output),
        c@.retries == c.retries,
        c@.max_body == c.max_body,
        c@.quiet == c.quiet,
        c@.no_save == c.no_save,
        c@.clear_jobs == c.clear_jobs,
{
}

} // verus!
