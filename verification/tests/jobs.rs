use rustcrawl::cli::{Cli, ScopeArg};
use rustcrawl::dashboard::DashboardAction;
use rustcrawl::engine::CrawlSummary;
use rustcrawl::form::NewJobSpec;
use rustcrawl::jobs::{JobHistory, JobRecord, JobTemplate, RECENT_LIMIT};
use rustcrawl::session::{
    after_control_center, after_run, editable_spec, named_scope, opening, AfterControlCenter,
    AfterRun, Opening, Output, PreparedRun, RunError,
};
use rustcrawl::time::Duration;
use rustcrawl::Scope;

fn cli(seeds: &[&str]) -> Cli {
    Cli::with_seeds(seeds.iter().map(|s| s.to_string()).collect())
}

fn spec() -> NewJobSpec {
    NewJobSpec {
        target: "https://e.com/".to_string(),
        max_pages: Some(10),
        depth: Some(3),
        concurrency: 2,
        scope: "host".to_string(),
        delay: "1s 5ms".to_string(),
        output: Some("o.jsonl".to_string()),
        save: true,
    }
}

fn record(template: JobTemplate, fetched: u64) -> JobRecord {
    let summary = CrawlSummary {
        pages_fetched: fetched,
        pages_failed: 1,
        urls_discovered: 2,
        bytes_downloaded: 3,
        duration: Duration::from_millis(1500),
    };
    template.into_record(&summary, format!("{fetched}"), "t".to_string())
}

#[test]
fn templates_capture_the_command_line() {
    let mut args = cli(&["https://e.com/"]);
    args.sitemap = vec!["https://e.com/s".to_string()];
    args.max_pages = Some(7);
    args.depth = Some(1);
    args.scope = ScopeArg::Any;
    args.delay = Duration::from_millis(90_250);
    args.output = Some("x".to_string());
    args.ignore_crawl_delay = true;
    let t = JobTemplate::from_cli(&args);
    assert_eq!(t.seeds, vec!["https://e.com/"]);
    assert_eq!(t.sitemaps, vec!["https://e.com/s"]);
    assert_eq!((t.max_pages, t.max_depth, t.concurrency), (Some(7), Some(1), 16));
    assert_eq!(t.scope.as_deref(), Some("any"));
    assert_eq!(t.delay.as_deref(), Some("1m 30s 250ms"));
    assert!(!t.respect_crawl_delay);
    assert_eq!(t.output.as_deref(), Some("x"));
    let r = record(t.copy(), 5);
    assert_eq!((r.pages_fetched, r.pages_failed, r.urls_discovered, r.bytes_downloaded), (5, 1, 2, 3));
    assert_eq!(r.duration, Duration::from_millis(1500));
    assert_eq!((r.id.as_str(), r.finished_at.as_str()), ("5", "t"));
    assert_eq!(r.target_label(), "https://e.com/");
}

#[test]
fn labels_fall_back() {
    let mut t = JobTemplate::from_new_job(&spec());
    t.seeds.clear();
    t.sitemaps = vec!["https://s.com/".to_string()];
    assert_eq!(record(t.copy(), 0).target_label(), "https://s.com/");
    t.sitemaps.clear();
    t.scope = None;
    t.delay = None;
    let s = NewJobSpec::from_job(&record(t, 0));
    assert_eq!(s.target, "(no target)");
    assert_eq!((s.scope.as_str(), s.delay.as_str()), ("domain", "250ms"));
}

#[test]
fn dashboard_jobs_can_be_run_again() {
    let t = JobTemplate::from_new_job(&spec());
    assert!(t.respect_crawl_delay);
    let s = NewJobSpec::from_job(&record(t, 0));
    assert_eq!(s.target, "https://e.com/");
    assert_eq!((s.max_pages, s.depth, s.concurrency), (Some(10), Some(3), 2));
    assert_eq!((s.scope.as_str(), s.delay.as_str()), ("host", "1s 5ms"));
    assert_eq!(s.output.as_deref(), Some("o.jsonl"));
    assert!(s.save);
}

#[test]
fn histories_keep_the_newest_jobs() {
    let all: Vec<JobRecord> =
        (0..30).map(|i| record(JobTemplate::from_new_job(&spec()), i)).collect();
    let h = JobHistory::from_records(all);
    assert_eq!(h.recent.len(), RECENT_LIMIT);
    assert_eq!(h.recent[0].pages_fetched, 5);
    assert_eq!(h.recent[24].pages_fetched, 29);
    assert_eq!(h.totals.total_jobs, 30);
    assert_eq!(h.totals.total_pages_fetched, 435);
    assert_eq!(h.totals.total_pages_failed, 30);
    let none = JobHistory::from_records(vec![]);
    assert!(none.recent.is_empty());
    assert_eq!(none.totals.total_jobs, 0);
}

#[test]
fn invocations_open_in_five_ways() {
    let mut args = cli(&["https://e.com/"]);
    assert_eq!(opening(&args, true), Opening::Dashboard);
    assert_eq!(opening(&args, false), Opening::Batch);
    args.quiet = true;
    assert_eq!(opening(&args, true), Opening::Batch);
    args.seeds.clear();
    assert_eq!(opening(&args, true), Opening::Refuse);
    args.quiet = false;
    assert_eq!(opening(&args, true), Opening::ControlCenter);
    args.clear_jobs = true;
    assert_eq!(opening(&args, true), Opening::ClearJobs);
}

#[test]
fn actions_lead_on() {
    assert!(matches!(after_run(DashboardAction::Rerun), AfterRun::Again));
    assert!(matches!(after_run(DashboardAction::Exit), AfterRun::Leave));
    assert!(matches!(after_run(DashboardAction::ClearJobs), AfterRun::ClearAndAgain));
    assert!(matches!(after_run(DashboardAction::Start(spec())), AfterRun::Run(s) if s.depth == Some(3)));
    assert!(matches!(
        after_control_center(DashboardAction::Start(spec()), None),
        AfterControlCenter::Run(s) if s.concurrency == 2
    ));
    assert!(matches!(
        after_control_center(DashboardAction::Rerun, Some(spec())),
        AfterControlCenter::Run(s) if s.target == "https://e.com/" && s.concurrency == 2
    ));
    assert!(matches!(
        after_control_center(DashboardAction::Rerun, None),
        AfterControlCenter::Leave
    ));
    assert!(matches!(
        after_control_center(DashboardAction::Exit, Some(spec())),
        AfterControlCenter::Leave
    ));
    assert!(matches!(
        after_control_center(DashboardAction::ClearJobs, Some(spec())),
        AfterControlCenter::ClearAndReopen
    ));
}

#[test]
fn command_line_runs_are_prepared() {
    let mut args = cli(&["https://e.com/"]);
    args.sitemap = vec!["https://e.com/s".to_string()];
    let run = PreparedRun::from_cli(&args).unwrap();
    assert_eq!(run.sitemaps[0].text(), "https://e.com/s");
    assert!(matches!(run.output, Output::Stdout));
    assert!(run.record.is_some());
    args.no_save = true;
    args.output = Some("f".to_string());
    let run = PreparedRun::from_cli(&args).unwrap();
    assert!(matches!(run.output, Output::File(f) if f == "f"));
    assert!(run.record.is_none());
    args.sitemap = vec!["bad".to_string()];
    assert_eq!(
        PreparedRun::from_cli(&args).unwrap_err().report(),
        "invalid sitemap URL: bad: relative URL without a base"
    );
}

#[test]
fn dashboard_runs_are_prepared() {
    let run = PreparedRun::from_dashboard(&spec()).unwrap();
    assert_eq!(run.config.scope, Scope::Host);
    assert_eq!(run.config.per_host_delay, Duration::from_millis(1005));
    assert_eq!((run.config.max_pages, run.config.max_depth), (Some(10), Some(3)));
    assert!(run.config.respect_robots && run.config.respect_crawl_delay);
    assert!(run.sitemaps.is_empty());
    assert!(matches!(run.output, Output::File(f) if f == "o.jsonl"));
    assert!(run.record.is_some());
    let mut s = spec();
    s.output = None;
    s.save = false;
    let run = PreparedRun::from_dashboard(&s).unwrap();
    assert!(matches!(run.output, Output::Nowhere));
    assert!(run.record.is_none());
}

#[test]
fn bad_dashboard_runs_are_explained() {
    let mut s = spec();
    s.scope = "Host".to_string();
    let err = PreparedRun::from_dashboard(&s).unwrap_err();
    assert!(matches!(err, RunError::Scope));
    assert_eq!(err.report(), "scope must be host, domain, or any");
    let mut s = spec();
    s.delay = "soon".to_string();
    assert_eq!(
        PreparedRun::from_dashboard(&s).unwrap_err().report(),
        "invalid delay \"soon\": expected number at 0"
    );
    s.delay = "1s 900000000000ns".to_string();
    let run = PreparedRun::from_dashboard(&s).unwrap();
    assert_eq!(run.config.per_host_delay, Duration::from_secs(901));
    s.delay = "1s 18446744073709551615s".to_string();
    let err = PreparedRun::from_dashboard(&s).unwrap_err();
    assert!(matches!(err, RunError::Delay { .. }));
    let mut s = spec();
    s.target = "nowhere".to_string();
    let err = PreparedRun::from_dashboard(&s).unwrap_err();
    assert!(matches!(err, RunError::Crawl(_)));
    let mut s = spec();
    s.concurrency = 0;
    assert_eq!(
        PreparedRun::from_dashboard(&s).unwrap_err().report(),
        "invalid configuration: concurrency must be at least 1"
    );
    assert_eq!(named_scope("any"), Some(Scope::Any));
    assert_eq!(named_scope("domain"), Some(Scope::Domain));
    assert_eq!(named_scope(""), None);
}

#[test]
fn edited_runs_keep_their_limits() {
    let mut args = cli(&["https://e.com/x"]);
    args.delay = Duration::from_nanos(3_723_004_005_006);
    args.max_pages = Some(3);
    args.no_save = true;
    let s = editable_spec(&args).unwrap();
    assert_eq!(s.delay, "1h 2m 3s 4ms 5us 6ns");
    assert!(!s.save);
    let run = PreparedRun::from_dashboard(&s).unwrap();
    assert_eq!(run.config.per_host_delay, args.delay);
    assert_eq!(run.config.max_pages, Some(3));
    assert_eq!(run.config.scope, Scope::Domain);
    args.sitemap = vec!["https://s.com/s.xml".to_string()];
    args.seeds.clear();
    assert_eq!(editable_spec(&args).unwrap().target, "https://s.com/s.xml");
    args.sitemap.clear();
    assert!(editable_spec(&args).is_none());
}
