use rustcrawl::engine::{is_html, parse_body, Admission, CrawlControl, Engine, Step};
use rustcrawl::parser::ParsedHtml;
use rustcrawl::page::PageErrorKind;
use rustcrawl::time::{Duration, Instant};
use rustcrawl::weburl::Url;
use rustcrawl::{CrawlConfig, CrawlError, CrawlTask, FetchResponse};

fn url(s: &str) -> Url {
    Url::parse(s).unwrap()
}

fn at(millis: u64) -> Instant {
    Instant::from_nanos(0).after(Duration::from_millis(millis))
}

fn engine() -> Engine {
    let config = CrawlConfig::builder()
        .add_seed("https://e.com/")
        .unwrap()
        .add_seed("https://e.com/#again")
        .unwrap()
        .per_host_delay(Duration::from_millis(100))
        .build()
        .unwrap();
    Engine::new(config, at(0))
}

#[test]
fn seeds_are_counted_once() {
    let mut e = engine();
    assert_eq!(e.seed(), 1);
    assert_eq!(e.seed(), 0);
    assert_eq!(e.stats().discovered, 1);
    assert_eq!(
        e.seed_from_sitemap(&vec![
            url("https://e.com/1"),
            url("https://other.org/"),
            url("https://www.e.com/2"),
            url("https://e.com/1"),
        ]),
        2
    );
    assert_eq!(e.stats().discovered, 3);
}

#[test]
fn workers_sleep_work_and_leave() {
    let mut e = engine();
    e.seed();
    e.seed_from_sitemap(&vec![url("https://e.com/1")]);
    assert!(matches!(e.next_step(at(10)), Step::Work(_)));
    assert_eq!(e.stats().in_flight, 1);
    assert!(matches!(e.next_step(at(20)), Step::Sleep(d) if d == Duration::from_millis(90)));
    assert!(matches!(e.next_step(at(110)), Step::Work(_)));
    assert!(matches!(e.next_step(at(111)), Step::Sleep(d) if d == Duration::from_millis(50)));
    e.hand_back();
    e.hand_back();
    assert_eq!(e.stats().in_flight, 0);
    assert!(matches!(e.next_step(at(112)), Step::Exit));
}

#[test]
fn paused_and_stopping_crawls_hand_out_nothing() {
    let mut e = engine();
    e.seed();
    let mut control = e.control();
    assert!(!control.is_paused() && !control.is_stopping());
    control.toggle_pause();
    e.set_control(control);
    assert!(matches!(e.next_step(at(1)), Step::Sleep(d) if d == Duration::from_millis(50)));
    control.resume();
    control.pause();
    control.toggle_pause();
    assert_eq!(control, CrawlControl::new());
    control.stop();
    control.pause();
    e.set_control(control);
    assert!(matches!(e.next_step(at(1)), Step::Exit));
    control.stopping = false;
    control.resume();
    e.set_control(control);
    assert!(matches!(e.next_step(at(1)), Step::Work(_)));
}

#[test]
fn rules_are_asked_for_and_obeyed() {
    let mut e = engine();
    let task = CrawlTask::seed(url("https://e.com/x"));
    assert_eq!(e.screen(&task), Admission::Unknown);
    assert!(e.declared_sitemaps(&task.url).is_none());
    e.learn_robots(
        &task.url,
        Some(b"User-agent: *\nDisallow: /no\nCrawl-delay: 2\nSitemap: https://e.com/s\n".to_vec()),
    );
    assert_eq!(e.declared_sitemaps(&task.url).unwrap(), vec!["https://e.com/s".to_string()]);
    assert_eq!(e.screen(&CrawlTask::seed(url("https://e.com/no"))), Admission::Denied);
    e.seed();
    e.seed_from_sitemap(&vec![url("https://e.com/1")]);
    assert_eq!(e.screen(&task), Admission::Granted);
    // The advertised delay has slowed the host down.
    assert!(matches!(e.next_step(at(0)), Step::Work(_)));
    assert!(matches!(e.next_step(at(0)), Step::Sleep(d) if d == Duration::from_secs(2)));
}

#[test]
fn an_ignored_crawl_delay_slows_nothing_down() {
    let config = CrawlConfig::builder()
        .add_seed("https://e.com/")
        .unwrap()
        .respect_crawl_delay(false)
        .build()
        .unwrap();
    let mut e = Engine::new(config, at(0));
    let task = CrawlTask::seed(url("https://e.com/x"));
    e.learn_robots(&task.url, Some(b"User-agent: *\nCrawl-delay: 20\n".to_vec()));
    assert_eq!(e.screen(&task), Admission::Granted);
    e.seed();
    e.seed_from_sitemap(&vec![url("https://e.com/1")]);
    assert!(matches!(e.next_step(at(0)), Step::Work(_)));
    assert!(matches!(e.next_step(at(0)), Step::Sleep(d) if d == Duration::from_millis(250)));
}

#[test]
fn the_first_fatal_error_is_reported() {
    let mut e = engine();
    e.fail_crawl(CrawlError::sink("disk full".to_string()));
    e.fail_crawl(CrawlError::sink("later".to_string()));
    assert!(e.control().is_stopping());
    let err = e.conclude(at(0), at(5)).unwrap_err();
    assert_eq!(err.message(), "output sink error: disk full");
    // The error was handed over; what remains are the totals.
    let summary = e.conclude(at(2), at(5)).unwrap();
    assert_eq!(summary.duration, Duration::from_millis(3));
    assert_eq!(summary.pages_fetched, 0);
}

fn response(content_type: Option<&str>, body: &[u8]) -> FetchResponse {
    FetchResponse {
        final_url: url("https://e.com/d/"),
        status: 200,
        content_type: content_type.map(str::to_owned),
        body: body.to_vec(),
    }
}

#[test]
fn only_html_is_parsed() {
    let html = b"<title>caf\xe9</title><a href=x>";
    let parsed = parse_body(&response(Some("application/xhtml+xml"), html));
    assert_eq!(parsed.title.as_deref(), Some("caf\u{fffd}"));
    assert_eq!(parsed.links[0].text(), "https://e.com/d/x");
    let utf8 = parse_body(&response(Some("text/html"), "<title>caf\u{e9}</title>".as_bytes()));
    assert_eq!(utf8.title.as_deref(), Some("caf\u{e9}"));
    for other in [None, Some("text/plain"), Some("TEXT/HTML")] {
        let parsed = parse_body(&response(other, html));
        assert!(parsed.title.is_none() && parsed.links.is_empty());
    }
    assert!(is_html(&Some("text/html; charset=x".to_string())));
    assert!(!is_html(&None));
}

#[test]
fn links_are_filtered_enqueued_and_counted() {
    let mut e = engine();
    e.seed();
    let outcome = e.enqueue_links(
        4,
        &url("https://e.com/p"),
        vec![url("https://e.com/"), url("https://x.org/"), url("https://e.com/n#f")],
    );
    assert_eq!(outcome.links, vec!["https://e.com/", "https://e.com/n#f"]);
    assert_eq!(outcome.newly_enqueued, 1);
    assert_eq!(e.stats().discovered, 2);
    let task = CrawlTask::seed(url("https://e.com/"));
    let parsed = ParsedHtml { title: Some("t".to_string()), links: vec![] };
    let (page, new_links) = e.record_page(
        &task,
        &response(None, b"1234"),
        parsed,
        "now".to_string(),
        Duration::from_nanos(18_446_744_073_709_551_616 * 1_000_000 + 7_999_999),
    );
    assert_eq!(new_links, 0);
    assert_eq!(page.content_length, 4);
    assert_eq!(page.elapsed_ms, 7);
    assert_eq!(e.stats().fetched, 1);
    assert_eq!(e.stats().bytes, 4);
    let error = e.record_failure(&task, PageErrorKind::TooLarge, "big".to_string());
    assert_eq!((error.url.as_str(), error.error.as_str()), ("https://e.com/", "big"));
    assert_eq!(e.stats().failed, 1);
    let snap = e.stats().snapshot(at(40));
    assert_eq!(snap.elapsed, Duration::from_millis(40));
    assert_eq!((snap.fetched, snap.failed, snap.discovered), (1, 1, 2));
}
