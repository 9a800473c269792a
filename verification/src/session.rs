//! One invocation from start to end: how it opens, what each run is made of,
//! and what follows a run.

use vstd::prelude::*;

use crate::cli::{Cli, CliError, CliErrorView, CliView, ScopeArg};
use crate::config::{BuilderView, ConfigView, CrawlConfig, Scope, Settings};
use crate::dashboard::{ActionView, DashboardAction};
use crate::delay::{self, format_duration};
use crate::error::{self, quote, CrawlError, ErrorView};
use crate::form::{NewJobSpec, SpecView};
use crate::jobs::{JobTemplate, TemplateView};
use crate::text::{self, copy_opt, join2, join3};
use crate::time::Duration;
use crate::weburl::{self, Url, UrlView};

verus! {

/// How an invocation opens.
#[derive(Debug, Clone, Copy, PartialEq, Eq, Structural)]
pub enum Opening {
    /// Clear the job history and leave.
    ClearJobs,
    /// Show the control center, without a crawl.
    ControlCenter,
    /// Leave: there is nothing to crawl, and nobody to ask.
    Refuse,
    /// Crawl, and show the dashboard.
    Dashboard,
    /// Crawl without a dashboard.
    Batch,
}

/// How an invocation opens; `terminal` tells whether there is a terminal to
/// show a dashboard on.
pub fn opening(cli: &Cli, terminal: bool) -> (r: Opening)
    ensures
        r == if cli.clear_jobs {
            Opening::ClearJobs
        } else {
            match (cli@.has_target(), terminal && !cli.quiet) {
                (true, true) => Opening::Dashboard,
                (true, false) => Opening::Batch,
                (false, true) => Opening::ControlCenter,
                (false, false) => Opening::Refuse,
            }
        },
{
    let show_ui = !cli.quiet && terminal;
    if cli.clear_jobs {
        return Opening::ClearJobs;
    }
    if cli.has_crawl_target() {
        if show_ui {
            Opening::Dashboard
        } else {
            Opening::Batch
        }
    } else if show_ui {
        Opening::ControlCenter
    } else {
        Opening::Refuse
    }
}

/// What follows an action of the control center.
#[derive(Debug)]
pub enum AfterControlCenter {
    /// Run the job.
    Run(NewJobSpec),
    /// Clear the job history, and show the control center again.
    ClearAndReopen,
    /// Leave.
    Leave,
}

/// What follows an action of the control center, or of a job that was started
/// from it; `last` is the job that was run last, if one was. A rerun runs that
/// job again.
pub fn after_control_center(action: DashboardAction, last: Option<NewJobSpec>) -> (r:
    AfterControlCenter)
    ensures
        match action@ {
            ActionView::Start(spec) => r matches AfterControlCenter::Run(s) && s@ == spec,
            ActionView::Rerun => match last {
                Some(job) => r matches AfterControlCenter::Run(s) && s@ == job@,
                None => r is Leave,
            },
            ActionView::ClearJobs => r is ClearAndReopen,
            ActionView::Exit => r is Leave,
        },
{
    match action {
        DashboardAction::Start(spec) => AfterControlCenter::Run(spec),
        DashboardAction::Rerun => match last {
            Some(spec) => AfterControlCenter::Run(spec),
            None => AfterControlCenter::Leave,
        },
        DashboardAction::ClearJobs => AfterControlCenter::ClearAndReopen,
        DashboardAction::Exit => AfterControlCenter::Leave,
    }
}

/// What follows a run that the command line asked for.
#[derive(Debug)]
pub enum AfterRun {
    /// Run the same again.
    Again,
    /// Run another job.
    Run(NewJobSpec),
    /// Clear the job history, and run the same again.
    ClearAndAgain,
    /// Leave.
    Leave,
}

/// What follows a run that the command line asked for.
pub fn after_run(action: DashboardAction) -> (r: AfterRun)
    ensures
        match action@ {
            ActionView::Start(spec) => r matches AfterRun::Run(s) && s@ == spec,
            ActionView::Rerun => r is Again,
            ActionView::ClearJobs => r is ClearAndAgain,
            ActionView::Exit => r is Leave,
        },
{
    match action {
        DashboardAction::Start(spec) => AfterRun::Run(spec),
        DashboardAction::Rerun => AfterRun::Again,
        DashboardAction::ClearJobs => AfterRun::ClearAndAgain,
        DashboardAction::Exit => AfterRun::Leave,
    }
}

/// Where the pages of a run go.
#[derive(Debug)]
pub enum Output {
    Stdout,
    File(String),
    Nowhere,
}

/// The content of an [`Output`].
pub enum OutputView {
    Stdout,
    File(Seq<char>),
    Nowhere,
}

impl View for Output {
    type V = OutputView;

    open spec fn view(&self) -> OutputView {
        match self {
            Output::Stdout => OutputView::Stdout,
            Output::File(path) => OutputView::File(path@),
            Output::Nowhere => OutputView::Nowhere,
        }
    }
}

/// Everything that a run is made of.
#[derive(Debug)]
pub struct PreparedRun {
    pub config: CrawlConfig,
    /// Sitemaps to seed from before the crawl.
    pub sitemaps: Vec<Url>,
    pub output: Output,
    /// What is recorded of the run, if anything is.
    pub record: Option<JobTemplate>,
}

/// The content of a [`PreparedRun`].
pub struct RunView {
    pub config: ConfigView,
    pub sitemaps: Seq<UrlView>,
    pub output: OutputView,
    pub record: Option<TemplateView>,
}

impl View for PreparedRun {
    type V = RunView;

    open spec fn view(&self) -> RunView {
        RunView {
            config: self.config@,
            sitemaps: crate::config::url_views(self.sitemaps@),
            output: self.output@,
            record: match self.record {
                Some(t) => Some(t@),
                None => None,
            },
        }
    }
}

/// Why a job of the dashboard cannot be run.
#[derive(Debug)]
pub enum RunError {
    /// The scope is none.
    Scope,
    /// The delay is no span of time.
    Delay { delay: String, source: String },
    /// The target is no URL, or the configuration was rejected.
    Crawl(CrawlError),
}

/// The content of a [`RunError`].
pub enum RunErrorView {
    Scope,
    Delay { delay: Seq<char>, source: Seq<char> },
    Crawl(ErrorView),
}

impl View for RunError {
    type V = RunErrorView;

    open spec fn view(&self) -> RunErrorView {
        match *self {
            RunError::Scope => RunErrorView::Scope,
            RunError::Delay { delay, source } => RunErrorView::Delay {
                delay: delay@,
                source: source@,
            },
            RunError::Crawl(e) => RunErrorView::Crawl(e@),
        }
    }
}

impl RunErrorView {
    /// The error in words, with its cause.
    pub open spec fn report(self) -> Seq<char> {
        match self {
            RunErrorView::Scope => "scope must be host, domain, or any"@,
            RunErrorView::Delay { delay, source } => "invalid delay "@ + error::quoted(delay) + ": "@
                + source,
            RunErrorView::Crawl(e) => e.report(),
        }
    }
}

impl RunError {
    /// The error in words, with its cause.
    pub fn report(&self) -> (r: String)
        ensures
            r@ == self@.report(),
    {
        match self {
            RunError::Scope => "scope must be host, domain, or any".to_owned(),
            RunError::Delay { delay, source } => {
                let head = join2("invalid delay ", quote(delay.as_str()).as_str());
                join3(head.as_str(), ": ", source.as_str())
            },
            RunError::Crawl(e) => e.report(),
        }
    }
}

/// The scope that a name stands for.
pub open spec fn scope_named(name: Seq<char>) -> Option<Scope> {
    if name == "host"@ {
        Some(Scope::Host)
    } else if name == "domain"@ {
        Some(Scope::Domain)
    } else if name == "any"@ {
        Some(Scope::Any)
    } else {
        None
    }
}

/// The scope that a name stands for.
pub fn named_scope(name: &str) -> (r: Option<Scope>)
    ensures
        r == scope_named(name@),
{
    if *name == *"host" {
        Some(Scope::Host)
    } else if *name == *"domain" {
        Some(Scope::Domain)
    } else if *name == *"any" {
        Some(Scope::Any)
    } else {
        None
    }
}

impl SpecView {
    /// The configuration that is built for the settings, with their target,
    /// scope and delay read.
    pub open spec fn described(self, target: UrlView, scope: Scope, delay: Duration) -> BuilderView {
        BuilderView {
            settings: Settings {
                seeds: seq![target],
                max_pages: self.max_pages,
                max_depth: self.depth,
                concurrency: self.concurrency,
                scope,
                per_host_delay: delay,
                ..BuilderView::fresh().settings
            },
            ..BuilderView::fresh()
        }
    }

    /// The configuration for the settings, with their scope and delay read, or
    /// why there is none.
    pub open spec fn config(self, scope: Scope, delay: Duration) -> Result<ConfigView, ErrorView> {
        match weburl::url_resolved(None, self.target) {
            Ok(target) => {
                let b = self.described(target, scope, delay);
                match b.rejection() {
                    None => Ok(b.configured()),
                    Some(e) => Err(e),
                }
            },
            Err(source) => Err(ErrorView::Url { url: self.target, source }),
        }
    }

    /// The run for the settings, or why there is none.
    pub open spec fn run(self) -> Result<RunView, RunErrorView> {
        match scope_named(self.scope) {
            None => Err(RunErrorView::Scope),
            Some(scope) => match delay::duration_read(self.delay) {
                Err(source) => Err(RunErrorView::Delay { delay: self.delay, source }),
                Ok(nanos) => match self.config(scope, Duration { nanos: nanos as u128 }) {
                    Err(e) => Err(RunErrorView::Crawl(e)),
                    Ok(config) => Ok(
                        RunView {
                            config,
                            sitemaps: Seq::empty(),
                            output: match self.output {
                                Some(path) => OutputView::File(path),
                                None => OutputView::Nowhere,
                            },
                            record: if self.save {
                                Some(TemplateView::of_form(self))
                            } else {
                                None
                            },
                        },
                    ),
                },
            },
        }
    }
}

/// The configuration for the settings of a form, with their scope and delay
/// read.
pub fn dashboard_config(spec: &NewJobSpec, scope: Scope, delay: Duration) -> (r: Result<
    CrawlConfig,
    CrawlError,
>)
    ensures
        match (spec@.config(scope, delay), r) {
            (Ok(config), Ok(c)) => c@ == config,
            (Err(e), Err(given)) => given@ == e,
            _ => false,
        },
{
    match CrawlConfig::builder().add_seed(spec.target.as_str()) {
        Ok(b) => {
            let b = b
                .max_pages(spec.max_pages)
                .max_depth(spec.depth)
                .concurrency(spec.concurrency)
                .scope(scope)
                .per_host_delay(delay);
            proof {
                let target = weburl::url_resolved(None, spec@.target)->Ok_0;
                assert(b@.settings.seeds =~= seq![target]);
                assert(b@ == spec@.described(target, scope, delay));
            }
            b.build()
        },
        Err(e) => Err(e),
    }
}

impl CliView {
    /// The run that the command line asks for, or why there is none.
    pub open spec fn run(self) -> Result<RunView, CliErrorView> {
        match self.config() {
            Err(e) => Err(e),
            Ok(config) => match crate::cli::urls_read(self.sitemap) {
                Err((sitemap, source)) => Err(CliErrorView::Sitemap { sitemap, source }),
                Ok(sitemaps) => Ok(
                    RunView {
                        config,
                        sitemaps,
                        output: match self.output {
                            Some(path) => OutputView::File(path),
                            None => OutputView::Stdout,
                        },
                        record: if self.no_save {
                            None
                        } else {
                            Some(TemplateView::of_cli(self))
                        },
                    },
                ),
            },
        }
    }

    /// The settings as the form has them; none without a target.
    pub open spec fn editable(self) -> Option<SpecView> {
        if !self.has_target() {
            None
        } else {
            Some(
                SpecView {
                    target: if self.seeds.len() > 0 {
                        self.seeds[0]
                    } else {
                        self.sitemap[0]
                    },
                    max_pages: self.max_pages,
                    depth: self.depth,
                    concurrency: self.concurrency,
                    scope: self.scope.written(),
                    delay: delay::written(self.delay),
                    output: self.output,
                    save: !self.no_save,
                },
            )
        }
    }
}

impl PreparedRun {
    /// The run that the command line asks for.
    pub fn from_cli(cli: &Cli) -> (r: Result<Self, CliError>)
        requires
            delay::writable(cli.delay),
        ensures
            match (cli@.run(), r) {
                (Ok(run), Ok(p)) => p@ == run,
                (Err(e), Err(given)) => given@ == e,
                _ => false,
            },
    {
        let config = match cli.to_config() {
            Ok(c) => c,
            Err(e) => {
                return Err(e);
            },
        };
        let sitemaps = match cli.sitemap_urls() {
            Ok(list) => list,
            Err(e) => {
                return Err(e);
            },
        };
        let output = match &cli.output {
            Some(path) => Output::File(path.clone()),
            None => Output::Stdout,
        };
        let record = if cli.no_save {
            None
        } else {
            Some(JobTemplate::from_cli(cli))
        };
        Ok(PreparedRun { config, sitemaps, output, record })
    }

    /// The run that a form asks for. It crawls politely, like any run that is
    /// not told otherwise.
    pub fn from_dashboard(spec: &NewJobSpec) -> (r: Result<Self, RunError>)
        ensures
            match (spec@.run(), r) {
                (Ok(run), Ok(p)) => p@ == run,
                (Err(e), Err(given)) => given@ == e,
                _ => false,
            },
    {
        let scope = match named_scope(spec.scope.as_str()) {
            Some(s) => s,
            None => {
                return Err(RunError::Scope);
            },
        };
        let delay = match delay::read(spec.delay.as_str()) {
            Ok(d) => d,
            Err(source) => {
                return Err(RunError::Delay { delay: spec.delay.clone(), source });
            },
        };
        let config = match dashboard_config(spec, scope, delay) {
            Ok(c) => c,
            Err(e) => {
                return Err(RunError::Crawl(e));
            },
        };
        let output = match &spec.output {
            Some(path) => Output::File(path.clone()),
            None => Output::Nowhere,
        };
        let record = if spec.save {
            Some(JobTemplate::from_new_job(spec))
        } else {
            None
        };
        let sitemaps: Vec<Url> = Vec::new();
        proof {
            assert(crate::config::url_views(sitemaps@) =~= Seq::empty());
        }
        Ok(PreparedRun { config, sitemaps, output, record })
    }
}

/// The settings of a command-line run, to be edited in the form. The delay is
/// written so that it is read as what it was.
pub fn editable_spec(cli: &Cli) -> (r: Option<NewJobSpec>)
    requires
        delay::writable(cli.delay),
    ensures
        crate::dashboard::opt_spec(r) == cli@.editable(),
        r matches Some(spec) ==> delay::reads_as(spec@.delay, cli.delay.nanos as nat),
{
    let target = if cli.seeds.len() > 0 {
        proof {
            assert(cli@.seeds[0] == cli.seeds@[0]@);
        }
        cli.seeds[0].clone()
    } else if cli.sitemap.len() > 0 {
        proof {
            assert(cli@.sitemap[0] == cli.sitemap@[0]@);
        }
        cli.sitemap[0].clone()
    } else {
        return None;
    };
    Some(
        NewJobSpec {
            target,
            max_pages: cli.max_pages,
            depth: cli.depth,
            concurrency: cli.concurrency,
            scope: cli.scope.name(),
            delay: format_duration(cli.delay),
            output: copy_opt(&cli.output),
            save: !cli.no_save,
        },
    )
}

/// Running a command line's settings from the form keeps its limits, its scope
/// and its delay, as far as the form has them.
pub proof fn edited_runs_keep_their_limits(c: CliView)
    requires
        c.editable() is Some,
        c.editable()->0.run() is Ok,
        delay::reads_as(c.editable()->0.delay, c.delay.nanos as nat),
    ensures
        ({
            let s = c.editable()->0.run()->Ok_0.config.settings;
            &&& s.max_pages == c.max_pages
            &&& s.max_depth == c.depth
            &&& s.concurrency == c.concurrency
            &&& s.scope == c.scope.scope()
            &&& s.per_host_delay == c.delay
        }),
{
    reveal_strlit("host");
    reveal_strlit("domain");
    reveal_strlit("any");
    assert("host"@.len() == 4 && "domain"@.len() == 6 && "any"@.len() == 3);
}

/// A run of the dashboard obeys `robots.txt` and its delay.
pub proof fn dashboard_runs_are_polite(s: SpecView)
    requires
        s.run() is Ok,
    ensures
        s.run()->Ok_0.config.settings.respect_robots,
        s.run()->Ok_0.config.settings.respect_crawl_delay,
        s.save ==> (s.run()->Ok_0.record matches Some(t) && t.respect_crawl_delay),
{
}

/// A scope goes by its name, and no other name is one.
pub proof fn scopes_go_by_name(name: Seq<char>)
    ensures
        scope_named(name) == Some(Scope::Host) <==> name == "host"@,
        scope_named(name) == Some(Scope::Domain) <==> name == "domain"@,
        scope_named(name) == Some(Scope::Any) <==> name == "any"@,
{
    reveal_strlit("host");
    reveal_strlit("domain");
    reveal_strlit("any");
    assert("host"@.len() == 4 && "domain"@.len() == 6 && "any"@.len() == 3);
}

/// What is wrong with a job of the dashboard is said in words.
pub proof fn job_errors_are_explained(a: Seq<char>, b: Seq<char>, e: ErrorView)
    ensures
        RunErrorView::Scope.report() == "scope must be host, domain, or any"@,
        (RunErrorView::Delay { delay: a, source: b }).report() == "invalid delay "@ + error::quoted(
            a,
        ) + ": "@ + b,
        RunErrorView::Crawl(e).report() == e.report(),
{
}

/// A run of the dashboard is made of what its form says, setting by setting: one
/// seed, the limits, the scope and the delay of the form, the documented defaults
/// for the rest, the output where one is named, and a record where it is saved.
pub proof fn dashboard_runs_follow_the_form(s: SpecView)
    requires
        s.run() is Ok,
    ensures
        ({
            let run = s.run()->Ok_0;
            let c = run.config.settings;
            &&& c.seeds.len() == 1
            &&& weburl::url_resolved(None, s.target) == Ok::<UrlView, Seq<char>>(c.seeds[0])
            &&& c.max_pages == s.max_pages
            &&& c.max_depth == s.depth
            &&& c.concurrency == s.concurrency
            &&& s.scope == "host"@ <==> c.scope is Host
            &&& s.scope == "domain"@ <==> c.scope is Domain
            &&& s.scope == "any"@ <==> c.scope is Any
            &&& delay::duration_read(s.delay) matches Ok(n) && (n <= u128::MAX
                ==> c.per_host_delay.nanos == n)
            &&& c.request_timeout.nanos == 30 * 1_000_000_000
            &&& c.user_agent == "rustcrawl/0.1.0 (+https://github.com/rustcrawl/rustcrawl)"@
            &&& c.respect_robots
            &&& c.respect_crawl_delay
            &&& c.max_retries == 2
            &&& c.max_body_bytes == 8 * 1024 * 1024
            &&& run.config.includes.len() == 0
            &&& run.config.exclude.len() == 0
            &&& run.sitemaps.len() == 0
            &&& s.output matches Some(path) ==> run.output == OutputView::File(path)
            &&& s.output is None ==> run.output is Nowhere
            &&& s.save ==> run.record == Some(TemplateView::of_form(s))
            &&& !s.save ==> run.record is None
        }),
{
    scopes_go_by_name(s.scope);
}

/// When a job of the dashboard can be run: its scope is one, its delay and its
/// target can be read, and the configuration they make is not rejected. The first
/// of these that fails is reported.
pub proof fn when_a_job_can_be_run(s: SpecView)
    ensures
        s.scope != "host"@ && s.scope != "domain"@ && s.scope != "any"@ ==> (s.run() matches Err(e)
            && e is Scope),
        scope_named(s.scope) is Some && delay::duration_read(s.delay) is Err ==> s.run() == Err::<
            RunView,
            RunErrorView,
        >(
            RunErrorView::Delay {
                delay: s.delay,
                source: delay::duration_read(s.delay)->Err_0,
            },
        ),
        scope_named(s.scope) is Some && delay::duration_read(s.delay) is Ok
            && weburl::url_resolved(None, s.target) is Err ==> s.run() == Err::<
            RunView,
            RunErrorView,
        >(
            RunErrorView::Crawl(
                ErrorView::Url {
                    url: s.target,
                    source: weburl::url_resolved(None, s.target)->Err_0,
                },
            ),
        ),
        s.run() is Ok <==> {
            &&& scope_named(s.scope) is Some
            &&& delay::duration_read(s.delay) is Ok
            &&& weburl::url_resolved(None, s.target) matches Ok(u)
            &&& u.scheme == "http"@ || u.scheme == "https"@
            &&& 1 <= s.concurrency <= 1024
        },
{
    scopes_go_by_name(s.scope);
    if scope_named(s.scope) is Some && delay::duration_read(s.delay) is Ok && weburl::url_resolved(
        None,
        s.target,
    ) is Ok {
        let u = weburl::url_resolved(None, s.target)->Ok_0;
        let d = Duration { nanos: delay::duration_read(s.delay)->Ok_0 as u128 };
        let b = s.described(u, scope_named(s.scope)->0, d);
        crate::config::what_makes_a_configuration(b, 0);
        assert(b.settings.seeds[0] == u);
        assert(b.rejection() is None <==> (u.scheme == "http"@ || u.scheme == "https"@) && 1
            <= s.concurrency <= 1024);
    }
}

/// A run of the command line is made of its configuration and its sitemaps; its
/// pages go to the file that is named, or else to the standard output, and it is
/// recorded unless that is declined.
pub proof fn command_line_runs_follow_the_command_line(c: CliView)
    ensures
        c.run() is Ok <==> c.config() is Ok && crate::cli::urls_read(c.sitemap) is Ok,
        c.run() matches Ok(run) ==> {
            &&& run.config == c.config()->Ok_0
            &&& run.sitemaps == crate::cli::urls_read(c.sitemap)->Ok_0
            &&& c.output matches Some(path) ==> run.output == OutputView::File(path)
            &&& c.output is None ==> run.output is Stdout
            &&& c.no_save ==> run.record is None
            &&& !c.no_save ==> run.record == Some(TemplateView::of_cli(c))
        },
        c.config() matches Err(e) ==> c.run() == Err::<RunView, CliErrorView>(e),
        c.config() is Ok && crate::cli::urls_read(c.sitemap) is Err ==> c.run() == Err::<
            RunView,
            CliErrorView,
        >(
            CliErrorView::Sitemap {
                sitemap: crate::cli::urls_read(c.sitemap)->Err_0.0,
                source: crate::cli::urls_read(c.sitemap)->Err_0.1,
            },
        ),
{
}

/// A command line is opened for editing under its first seed, or else its first
/// sitemap, with all that the form has of it.
pub proof fn command_lines_are_opened_as_they_are(c: CliView)
    ensures
        c.editable() is Some <==> c.seeds.len() > 0 || c.sitemap.len() > 0,
        c.editable() matches Some(s) ==> {
            &&& c.seeds.len() > 0 ==> s.target == c.seeds[0]
            &&& c.seeds.len() == 0 ==> s.target == c.sitemap[0]
            &&& s.max_pages == c.max_pages
            &&& s.depth == c.depth
            &&& s.concurrency == c.concurrency
            &&& s.scope == c.scope.written()
            &&& s.delay == delay::written(c.delay)
            &&& s.output == c.output
            &&& s.save <==> !c.no_save
        },
{
}

} // verus!
