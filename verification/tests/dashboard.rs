use rustcrawl::dashboard::{Dashboard, DashboardAction, Status, ViewMode, MAX_LOG_LINES, MAX_SAMPLES};
use rustcrawl::engine::{CrawlControl, CrawlEvent, CrawlSummary};
use rustcrawl::form::{Key, NewJobForm, NewJobSpec};
use rustcrawl::jobs::{JobHistory, JobRecord, JobTemplate};
use rustcrawl::stats::StatsSnapshot;
use rustcrawl::time::{Duration, Instant};

fn spec(target: &str) -> NewJobSpec {
    NewJobSpec {
        target: target.to_string(),
        max_pages: Some(10),
        depth: None,
        concurrency: 2,
        scope: "any".to_string(),
        delay: "1s".to_string(),
        output: None,
        save: false,
    }
}

fn summary() -> CrawlSummary {
    CrawlSummary {
        pages_fetched: 12345,
        pages_failed: 2,
        urls_discovered: 3,
        bytes_downloaded: 1536,
        duration: Duration::from_secs(4),
    }
}

fn job(target: &str) -> JobRecord {
    JobTemplate::from_new_job(&spec(target)).into_record(
        &summary(),
        "1".to_string(),
        "2026-01-01T00:00:00Z".to_string(),
    )
}

fn history(n: usize) -> JobHistory {
    JobHistory::from_records((0..n).map(|i| job(&format!("https://h{i}.com/"))).collect())
}

fn snapshot(fetched: u64) -> StatsSnapshot {
    StatsSnapshot {
        fetched,
        failed: 1,
        discovered: 2,
        in_flight: 3,
        bytes: 2048,
        elapsed: Duration::from_secs(fetched),
    }
}

fn type_in(d: &mut Dashboard, s: &str) {
    for c in s.chars() {
        assert!(d.press(Key::Char(c), false, None).1.is_none());
    }
}

#[test]
fn a_new_job_is_typed_and_started() {
    let mut d = Dashboard::idle(history(0));
    assert_eq!(d.status().as_str(), "CONTROL CENTER");
    assert_eq!(d.footer(), "control center: n new job, c clear jobs, q/Esc exits");
    d.press(Key::Char('n'), false, None);
    assert_eq!(d.mode(), ViewMode::NewJob);
    assert!(d.press(Key::Enter, false, None).1.is_none());
    assert_eq!(d.form_error().as_deref(), Some("target URL is required"));
    type_in(&mut d, "https://q.com/x");
    d.press(Key::Backspace, false, None);
    assert_eq!(d.form_error(), None);
    match d.press(Key::Enter, false, None).1 {
        Some(DashboardAction::Start(s)) => {
            assert_eq!(s.target, "https://q.com/");
            assert_eq!((s.max_pages, s.depth, s.concurrency), (Some(100), Some(1), 16));
            assert_eq!((s.scope.as_str(), s.delay.as_str(), s.output, s.save), ("domain", "250ms", None, true));
        }
        other => panic!("unexpected {other:?}"),
    }
    assert_eq!(d.footer(), "starting new job");
    d.press(Key::Esc, false, None);
    assert_eq!(d.mode(), ViewMode::Dashboard);
    assert_eq!(d.footer(), "new job cancelled");
}

#[test]
fn running_crawls_can_be_paused_and_stopped() {
    let mut d = Dashboard::running(history(2), None);
    let control = CrawlControl::new();
    let (c, a) = d.press(Key::Char('p'), false, Some(control));
    assert!(a.is_none() && c.unwrap().paused);
    assert_eq!(d.footer(), "paused: press p to resume, s/q to stop");
    let (c, _) = d.press(Key::Char(' '), false, c);
    assert_eq!(c, Some(control));
    assert_eq!(d.footer(), "resumed");
    let (c, a) = d.press(Key::Char('S'), false, c);
    assert!(a.is_none() && c.unwrap().stopping);
    assert_eq!(d.footer(), "stopping gracefully after in-flight requests finish");
    for key in [Key::Char('n'), Key::Char('e'), Key::Char('r'), Key::Char('c'), Key::Down, Key::Tab] {
        let (c, a) = d.press(key, false, Some(control));
        assert!(a.is_none());
        assert_eq!(c, Some(control));
        assert_eq!(d.mode(), ViewMode::Dashboard);
    }
    let (c, a) = d.press(Key::Char('c'), true, Some(control));
    assert!(c.unwrap().stopping && matches!(a, Some(DashboardAction::Exit)));
    assert_eq!(d.footer(), "stop requested");
    let (c, a) = d.press(Key::Char('q'), false, Some(control));
    assert!(c.unwrap().stopping && matches!(a, Some(DashboardAction::Exit)));
    assert_eq!(d.footer(), "quit requested; stopping gracefully");
}

#[test]
fn idle_keys_do_what_they_say() {
    let mut d = Dashboard::idle(history(3));
    assert!(matches!(d.press(Key::Char('C'), false, None).1, Some(DashboardAction::ClearJobs)));
    assert_eq!(d.footer(), "clearing saved jobs");
    assert!(d.press(Key::Char('p'), false, None).1.is_none());
    assert!(d.press(Key::Char('s'), false, None).1.is_none());
    assert!(d.press(Key::Char('r'), false, None).1.is_none());
    assert_eq!(d.footer(), "clearing saved jobs");
    assert_eq!(d.selected_job().unwrap().target_label(), "https://h2.com/");
    d.press(Key::Down, false, None);
    d.press(Key::Char('j'), false, None);
    d.press(Key::Char('J'), false, None);
    assert_eq!(d.selected_job().unwrap().target_label(), "https://h0.com/");
    d.press(Key::Char('k'), false, None);
    d.press(Key::Char('e'), false, None);
    assert_eq!(d.mode(), ViewMode::NewJob);
    let rows = d.form_rows();
    assert_eq!(rows.len(), 8);
    assert_eq!(rows[0].value, "https://h1.com/");
    assert_eq!(rows[2].value, "(blank)");
    assert_eq!(rows[1].label, "Max pages   ");
    assert_eq!(rows[4].help, "host | domain | any");
    assert!(rows[0].active && !rows[1].active);
}

#[test]
fn finished_runs_can_be_edited_and_rerun() {
    let mut d = Dashboard::running(history(1), Some(spec("https://last.com/")));
    d.tick(snapshot(0), CrawlControl::new(), Instant::from_nanos(0));
    d.finish(summary(), history(2));
    assert_eq!(d.status(), Status::Finished);
    assert_eq!(d.footer(), "finished: r rerun, e edit settings, q/Esc exit");
    d.tick(snapshot(9), CrawlControl::new(), Instant::from_nanos(0));
    assert_eq!(d.snapshot().fetched, 12345);
    assert_eq!(d.snapshot().in_flight, 0);
    let cards = d.stat_cards();
    assert_eq!((cards.fetched.as_str(), cards.bytes.as_str()), ("12345", "1.5 KB"));
    assert!(matches!(d.press(Key::Char('R'), false, None).1, Some(DashboardAction::Rerun)));
    let control = Some(CrawlControl::new());
    assert_eq!(d.press(Key::Char('p'), false, control).0, control);
    d.press(Key::Char('E'), false, None);
    assert_eq!(d.form_rows()[0].value, "https://h1.com/");
    d.press(Key::Esc, false, None);
    d.press(Key::Down, false, None);
    d.press(Key::Char('e'), false, None);
    assert_eq!(d.form_rows()[0].value, "https://h0.com/");
    d.press(Key::Esc, false, None);
    assert!(matches!(d.press(Key::Esc, false, None).1, Some(DashboardAction::Exit)));
    assert_eq!(d.footer(), "exiting");
}

#[test]
fn an_unsaved_run_can_be_edited_where_no_job_is_saved() {
    let mut d = Dashboard::running(history(0), Some(spec("https://last.com/")));
    d.finish(summary(), history(0));
    d.press(Key::Char('e'), false, None);
    assert_eq!(d.form_rows()[0].value, "https://last.com/");
}

#[test]
fn nothing_to_edit_is_said_so() {
    let mut d = Dashboard::idle(history(0));
    d.press(Key::Char('e'), false, None);
    assert_eq!(d.footer(), "no run settings available to edit");
    d.press(Key::Down, false, None);
    assert!(d.selected_job().is_none());
    assert!(d.recent_rows(5).is_empty());
}

#[test]
fn the_crawl_is_looked_at_tick_by_tick() {
    let mut d = Dashboard::running(history(0), None);
    assert_eq!(
        d.footer(),
        "n new job | Up/Down select job | e edit selected | c clear jobs | q exit"
    );
    let mut control = CrawlControl::new();
    d.tick(snapshot(5), control, Instant::from_nanos(0));
    assert_eq!(d.status().as_str(), "RUNNING");
    control.pause();
    d.tick(snapshot(8), control, Instant::from_nanos(500));
    assert_eq!(d.status().as_str(), "PAUSED");
    control.stop();
    d.tick(snapshot(7), control, Instant::from_nanos(400));
    assert_eq!(d.status().as_str(), "STOPPING");
    let samples = d.samples();
    assert_eq!((samples[0].pages, samples[0].over), (0, Duration::zero()));
    assert_eq!((samples[1].pages, samples[1].over), (3, Duration::from_nanos(500)));
    assert_eq!((samples[2].pages, samples[2].over), (0, Duration::zero()));
    assert_eq!(samples[1].elapsed, Duration::from_secs(8));
    for i in 0..200 {
        d.tick(snapshot(i), control, Instant::from_nanos(1000));
    }
    assert_eq!(d.samples().len(), MAX_SAMPLES);
    assert_eq!(d.samples()[0].elapsed, Duration::from_secs(80));
    assert_eq!(d.stat_cards().in_flight, "3");
}

#[test]
fn the_log_is_bounded_and_shows_its_end() {
    let mut d = Dashboard::running(history(0), None);
    for i in 0..(MAX_LOG_LINES + 2) {
        d.push_event(CrawlEvent::Page {
            url: format!("https://e.com/{i}"),
            status: 200,
            depth: 1,
            new_links: 0,
        });
    }
    assert_eq!(d.log_count(), MAX_LOG_LINES);
    assert_eq!(d.log(0).url, "https://e.com/2");
    assert_eq!(d.first_visible_log(10), 290);
    assert_eq!(d.first_visible_log(1000), 0);
}

#[test]
fn recent_jobs_are_listed_newest_first() {
    let mut d = Dashboard::idle(history(4));
    d.press(Key::Down, false, None);
    let rows = d.recent_rows(3);
    assert_eq!(rows.len(), 3);
    assert_eq!(rows[0].target, "https://h3.com/");
    assert_eq!(rows[0].pages, "12345p");
    assert_eq!((rows[2].index, rows[2].selected), (1, false));
    assert!(rows[1].selected);
    assert_eq!(d.job(rows[2].index).target_label(), "https://h1.com/");
    assert_eq!(d.totals().total_jobs, 4);
    assert_eq!(d.totals().total_pages_fetched, 4 * 12345);
    assert_eq!(d.totals().total_pages_failed, 8);
}

#[test]
fn form_keys_edit_and_move() {
    let mut form = NewJobForm::new();
    form.press(Key::Up);
    assert_eq!(form.active, 7);
    form.press(Key::Char('N'));
    assert_eq!(form.values[7], "n");
    form.press(Key::Char('o'));
    assert_eq!(form.values[7], "no");
    form.press(Key::Char('Y'));
    assert_eq!(form.values[7], "y");
    form.press(Key::Tab);
    assert_eq!(form.active, 0);
    form.press(Key::Backspace);
    assert_eq!(form.values[0], "");
    form.press(Key::BackTab);
    form.press(Key::Down);
    form.press(Key::Other);
    assert_eq!(form.active, 0);
}

fn filled(values: [&str; 8]) -> Result<NewJobSpec, String> {
    NewJobForm { values: values.iter().map(|v| v.to_string()).collect(), active: 0, error: None }
        .to_spec()
}

#[test]
fn forms_are_read_leniently_where_that_is_meant() {
    let s = filled([" https://e.com/ ", "", " 5 ", "+8", " ANY ", " 1s ", " out.jsonl ", "YES"]).unwrap();
    assert_eq!(s.target, "https://e.com/");
    assert_eq!((s.max_pages, s.depth, s.concurrency), (None, Some(5), 8));
    assert_eq!((s.scope.as_str(), s.delay.as_str()), ("any", "1s"));
    assert_eq!(s.output.as_deref(), Some("out.jsonl"));
    assert!(s.save);
    assert!(filled(["t", "1", "1", "1", "host", "1s", "", ""]).unwrap().save);
    for no in ["no", "N", "False", "0"] {
        assert!(!filled(["t", "1", "1", "1", "host", "1s", "", no]).unwrap().save);
    }
}

#[test]
fn forms_are_rejected_with_a_reason() {
    let err = |v: [&str; 8]| filled(v).unwrap_err();
    assert_eq!(err([" ", "x", "", "", "", "", "", ""]), "target URL is required");
    assert_eq!(err(["t", "x", "x", "", "", "", "", ""]), "max pages must be a number or blank");
    assert_eq!(err(["t", "1", "4294967296", "", "", "", "", ""]), "depth must be a number or blank");
    assert_eq!(err(["t", "1", "1", "", "", "", "", ""]), "concurrency must be a number");
    assert_eq!(err(["t", "1", "1", "0", "", "", "", ""]), "concurrency must be at least 1");
    assert_eq!(err(["t", "1", "1", "1025", "", "", "", ""]), "concurrency must be at most 1024");
    assert_eq!(err(["t", "1", "1", "1", "all", "", "", ""]), "scope must be host, domain, or any");
    assert_eq!(err(["t", "1", "1", "1", "any", " ", "", ""]), "delay is required (try 250ms)");
    assert_eq!(err(["t", "1", "1", "1", "any", "1s", "", "maybe"]), "save job must be y/n (default y)");
}

#[test]
fn editing_starts_from_the_settings() {
    let s = NewJobForm::from_spec(spec("https://e.com/")).to_spec().unwrap();
    assert_eq!(s.target, "https://e.com/");
    assert_eq!((s.max_pages, s.depth, s.concurrency, s.save), (Some(10), None, 2, false));
    assert_eq!((s.scope.as_str(), s.delay.as_str(), s.output), ("any", "1s", None));
}
