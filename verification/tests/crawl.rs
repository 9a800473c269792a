//! Whole crawls of a small site that is held in memory.

use std::collections::{HashMap, HashSet};

use rustcrawl::config::CrawlConfigBuilder;
use rustcrawl::engine::{failure_event, parse_body, CrawlEvent, Engine, Step};
use rustcrawl::fetcher::ResponseHead;
use rustcrawl::page::{CrawledPage, PageError, PageErrorKind};
use rustcrawl::robots::file_in_response;
use rustcrawl::time::{Duration, Instant};
use rustcrawl::weburl::Url;
use rustcrawl::worker::{advance, delivered, TaskAction, TaskEvent};
use rustcrawl::{CrawlConfig, CrawlError, CrawlSummary, CrawlTask, Scope};

const ROOT: &str = "http://127.0.0.1:54321/";

struct Route {
    status: u16,
    content_type: &'static str,
    body: Vec<u8>,
    location: Option<&'static str>,
}

fn html(status: u16, body: &str) -> Route {
    Route {
        status,
        content_type: "text/html; charset=utf-8",
        body: body.as_bytes().to_vec(),
        location: None,
    }
}

fn route(path: &str) -> Route {
    match path {
        "/" => html(
            200,
            r##"<!doctype html><html><head><title>Home</title></head><body>
                <a href="/a">a</a>
                <a href="/a">a duplicate</a>
                <a href="/a#section">a fragment</a>
                <a href="/b">b</a>
                <a href="/secret">secret</a>
                <a href="/redirect">redirect</a>
                <a href="/image.png">image</a>
                <a href="https://example.com/ext">external</a>
                <a href="mailto:hi@example.com">mail</a>
            </body></html>"##,
        ),
        "/a" => html(
            200,
            r#"<html><head><title>A</title></head><body>
                <a href="/a1">a1</a>
                <a href="/">home</a>
            </body></html>"#,
        ),
        "/b" => html(
            200,
            r#"<html><head><title>B</title></head><body><a href="/b1">b1</a></body></html>"#,
        ),
        "/a1" => html(200, r#"<html><head><title>A1</title></head><body>leaf</body></html>"#),
        "/b1" => html(200, r#"<html><head><title>B1</title></head><body>leaf</body></html>"#),
        "/c" => html(200, r#"<html><head><title>C</title></head><body>leaf</body></html>"#),
        "/secret" => {
            html(200, r#"<html><head><title>Secret</title></head><body>classified</body></html>"#)
        }
        "/redirect" => Route {
            status: 302,
            content_type: "text/html; charset=utf-8",
            body: Vec::new(),
            location: Some("/c"),
        },
        "/image.png" => Route {
            status: 200,
            content_type: "image/png",
            body: vec![0x89, b'P', b'N', b'G', 0x0d, 0x0a, 0x1a, 0x0a, 0, 0, 0, 0],
            location: None,
        },
        "/robots.txt" => Route {
            status: 200,
            content_type: "text/plain",
            body: b"User-agent: *\nDisallow: /secret\n".to_vec(),
            location: None,
        },
        _ => html(404, "<html><body>not found</body></html>"),
    }
}

#[derive(Default)]
struct Collected {
    pages: Vec<CrawledPage>,
    errors: Vec<PageError>,
    events: Vec<CrawlEvent>,
    hits: HashMap<String, usize>,
    /// When each task was handed out, in milliseconds, with its URL.
    handed_out: Vec<(u64, String)>,
}

fn path_of(url: &str) -> String {
    Url::parse(url).unwrap().path
}

impl Collected {
    fn hits(&self, path: &str) -> usize {
        self.hits.get(path).copied().unwrap_or(0)
    }

    fn fetched_paths(&self) -> HashSet<String> {
        self.pages.iter().map(|p| path_of(&p.url)).collect()
    }

    fn final_paths(&self) -> HashSet<String> {
        self.pages.iter().map(|p| path_of(&p.final_url)).collect()
    }

    /// Serve a request, following redirects.
    fn serve(&mut self, url: &Url) -> (Url, Route) {
        let mut url = url.copy();
        loop {
            *self.hits.entry(url.path.clone()).or_insert(0) += 1;
            let found = route(&url.path);
            match found.location {
                Some(location) => url = url.join(location).unwrap(),
                None => return (url, found),
            }
        }
    }
}

fn at(millis: u64) -> Instant {
    Instant::from_nanos(0).after(Duration::from_millis(millis))
}

fn process(engine: &mut Engine, seen: &mut Collected, task: &CrawlTask) {
    let mut event = TaskEvent::Start;
    loop {
        event = match advance(engine, task, event) {
            TaskAction::FetchRobots(place) => {
                let (_, found) = seen.serve(&place);
                TaskEvent::Robots(file_in_response(found.status, Some(found.body)))
            }
            TaskAction::FetchPage => fetch_page(engine, seen, &task.url),
            TaskAction::Deliver { page, new_links } => {
                let event = delivered(engine, &page, new_links, Ok(()));
                seen.events.push(event.unwrap());
                seen.pages.push(page);
                return;
            }
            TaskAction::Report(error) => {
                seen.events.push(failure_event(&error));
                seen.errors.push(error);
                return;
            }
        };
    }
}

fn fetch_page(engine: &Engine, seen: &mut Collected, url: &Url) -> TaskEvent {
    let (final_url, found) = seen.serve(url);
    let head = ResponseHead {
        final_url,
        status: found.status,
        content_type: Some(found.content_type.to_string()),
        content_length: Some(found.body.len() as u64),
        retry_after: None,
    };
    match engine.fetcher().receive(head) {
        Ok(mut body) => {
            body.push(&found.body).unwrap();
            let response = body.finish();
            let parsed = parse_body(&response);
            TaskEvent::Fetched {
                response,
                parsed,
                fetched_at: "2026-01-01T00:00:00Z".to_string(),
                elapsed: Duration::from_millis(3),
            }
        }
        Err(err) => TaskEvent::Failed(err),
    }
}

/// Run a crawl to its end, with as many tasks out at a time as it may have.
fn run(config: CrawlConfig) -> (CrawlSummary, Collected) {
    let workers = config.concurrency;
    let mut engine = Engine::new(config, at(0));
    let mut seen = Collected::default();
    engine.seed();
    let mut clock = 0;
    let mut out: Vec<CrawlTask> = Vec::new();
    loop {
        clock += 1;
        let step = engine.next_step(at(clock));
        if let Step::Work(task) = &step {
            seen.handed_out.push((clock, task.url.text()));
        }
        match step {
            Step::Work(task) if out.len() + 1 < workers => out.push(task),
            Step::Work(task) => {
                out.push(task);
                let first = out.remove(0);
                process(&mut engine, &mut seen, &first);
                engine.hand_back();
            }
            Step::Sleep(_) | Step::Exit if !out.is_empty() => {
                let first = out.remove(0);
                process(&mut engine, &mut seen, &first);
                engine.hand_back();
            }
            Step::Sleep(_) => {}
            Step::Exit => break,
        }
        assert_eq!(engine.stats().in_flight as usize, out.len());
    }
    (engine.conclude(at(0), at(clock)).unwrap(), seen)
}

/// A polite-but-fast base config pointed at the site.
fn base(root: &str) -> CrawlConfigBuilder {
    CrawlConfig::builder()
        .add_seed(root)
        .expect("valid seed")
        .scope(Scope::Domain)
        .per_host_delay(Duration::zero())
        .respect_crawl_delay(false)
        .request_timeout(Duration::from_secs(5))
        .concurrency(4)
}

#[test]
fn crawls_site_and_respects_robots() {
    let (summary, seen) = run(base(ROOT).build().unwrap());

    let fetched = seen.fetched_paths();
    for path in ["/", "/a", "/b", "/a1", "/b1", "/redirect", "/image.png"] {
        assert!(fetched.contains(path), "expected {path} fetched; got {fetched:?}");
    }

    // robots.txt disallows /secret: it is never requested and is recorded as a
    // failure rather than a page.
    assert!(!fetched.contains("/secret"), "robots.txt should block /secret");
    assert_eq!(seen.hits("/secret"), 0, "/secret must never be requested");
    assert!(seen
        .errors
        .iter()
        .any(|e| e.kind == PageErrorKind::RobotsDenied && e.url.ends_with("/secret")));

    // Redirect target is captured as the final URL.
    assert!(seen.final_paths().contains("/c"), "redirect should resolve to /c");

    // Off-domain and non-navigational links are dropped.
    assert!(!fetched.iter().any(|p| p.contains("example.com")));

    // Deduplication: home is fetched once despite several inbound links.
    assert_eq!(seen.hits("/"), 1);

    assert_eq!(summary.pages_fetched, 7);
    assert_eq!(summary.pages_failed, 1);
}

#[test]
fn non_html_pages_have_no_links_or_title() {
    let (_, seen) = run(base(ROOT).build().unwrap());

    let image = seen
        .pages
        .into_iter()
        .find(|p| p.url.ends_with("/image.png"))
        .expect("image.png should be crawled");

    assert_eq!(image.status, 200);
    assert!(image.title.is_none());
    assert!(image.links.is_empty());
    assert_eq!(image.content_type.as_deref(), Some("image/png"));
}

#[test]
fn crawl_respects_max_depth() {
    let (_, seen) = run(base(ROOT).max_depth(Some(1)).build().unwrap());

    let fetched = seen.fetched_paths();
    for path in ["/", "/a", "/b", "/redirect", "/image.png"] {
        assert!(fetched.contains(path), "expected {path} at depth <= 1");
    }
    // Depth-2 pages must not be reached.
    assert!(!fetched.contains("/a1"), "/a1 is depth 2");
    assert!(!fetched.contains("/b1"), "/b1 is depth 2");
}

#[test]
fn ignore_robots_fetches_disallowed() {
    let (summary, seen) = run(base(ROOT).respect_robots(false).build().unwrap());

    assert!(seen.fetched_paths().contains("/secret"));
    assert!(seen.errors.is_empty(), "no failures expected: {:?}", seen.errors);
    assert_eq!(summary.pages_failed, 0);
    assert_eq!(summary.pages_fetched, 8);
    assert_eq!(seen.hits("/robots.txt"), 0);
}

#[test]
fn honors_max_pages_budget() {
    let (summary, seen) = run(base(ROOT).max_pages(Some(3)).concurrency(2).build().unwrap());

    assert!(summary.pages_fetched >= 1);
    assert!(summary.pages_fetched <= 3, "budget exceeded: {}", summary.pages_fetched);
    assert_eq!(seen.pages.len() as u64, summary.pages_fetched);
    // Exactly the budgeted number of URLs are dispatched (a page or a failure).
    assert_eq!(summary.pages_fetched + summary.pages_failed, 3);
}

#[test]
fn records_are_complete() {
    let (summary, seen) = run(base(ROOT).build().unwrap());
    let home = &seen.pages[0];
    assert_eq!(home.url, ROOT);
    assert_eq!(home.final_url, ROOT);
    assert_eq!(home.depth, 0);
    assert_eq!(home.referrer, None);
    assert_eq!(home.title.as_deref(), Some("Home"));
    assert_eq!(home.fetched_at, "2026-01-01T00:00:00Z");
    assert_eq!(home.elapsed_ms, 3);
    let links: Vec<String> = home.links.iter().map(|l| path_of(l)).collect();
    assert_eq!(links, vec!["/a", "/b", "/secret", "/redirect", "/image.png"]);
    let deep = seen.pages.iter().find(|p| p.url.ends_with("/a1")).unwrap();
    assert_eq!(deep.depth, 2);
    assert_eq!(deep.referrer.as_deref(), Some("http://127.0.0.1:54321/a"));
    let total: usize = seen.pages.iter().map(|p| p.content_length).sum();
    assert_eq!(summary.bytes_downloaded, total as u64);
    assert_eq!(summary.urls_discovered, 8);
    match &seen.events[0] {
        CrawlEvent::Page { url, status, depth, new_links } => {
            assert_eq!((url.as_str(), *status, *depth, *new_links), (ROOT, 200, 0, 5));
        }
        other => panic!("unexpected {other:?}"),
    }
    let denied = seen.errors.iter().find(|e| e.url.ends_with("/secret")).unwrap();
    assert_eq!(denied.error, "blocked by robots.txt");
    assert_eq!(denied.referrer.as_deref(), Some(ROOT));
}

#[test]
fn a_missing_page_is_a_failure() {
    let config = CrawlConfig::builder()
        .add_seed("http://127.0.0.1:54321/nowhere")
        .unwrap()
        .build()
        .unwrap();
    let (summary, seen) = run(config);
    assert_eq!((summary.pages_fetched, summary.pages_failed), (0, 1));
    assert_eq!(seen.errors[0].kind, PageErrorKind::HttpStatus);
    assert_eq!(seen.errors[0].error, "server returned 404 Not Found");
    assert!(matches!(&seen.events[0], CrawlEvent::Failed { error, .. } if error.ends_with("404 Not Found")));
}

#[test]
fn a_failing_sink_aborts_the_crawl() {
    let mut engine = Engine::new(base(ROOT).respect_robots(false).build().unwrap(), at(0));
    engine.seed();
    let Step::Work(task) = engine.next_step(at(1)) else {
        panic!("expected work");
    };
    let mut seen = Collected::default();
    assert!(matches!(advance(&mut engine, &task, TaskEvent::Start), TaskAction::FetchPage));
    let event = fetch_page(&engine, &mut seen, &task.url);
    let TaskAction::Deliver { page, new_links } = advance(&mut engine, &task, event) else {
        panic!("expected a page");
    };
    let full = Err(CrawlError::sink("full".to_string()));
    assert!(delivered(&mut engine, &page, new_links, full).is_none());
    engine.hand_back();
    assert!(matches!(engine.next_step(at(2)), Step::Exit));
    assert!(engine.conclude(at(0), at(3)).is_err());
}

#[test]
fn an_origin_without_a_place_for_rules_allows_everything() {
    let mut engine = Engine::new(base(ROOT).build().unwrap(), at(0));
    let task = CrawlTask::seed(Url::parse("mailto:a@b").unwrap());
    assert!(engine.needs_rules(&task.url));
    assert!(matches!(advance(&mut engine, &task, TaskEvent::Start), TaskAction::FetchPage));
    assert!(!engine.needs_rules(&task.url));
}

#[test]
fn a_whole_crawl_keeps_its_promises() {
    let config = base(ROOT)
        .per_host_delay(Duration::from_millis(10))
        .max_depth(Some(1))
        .max_pages(Some(5))
        .build()
        .unwrap();
    let (summary, seen) = run(config);
    assert_eq!(seen.handed_out.len(), 5);
    let urls: HashSet<_> = seen.handed_out.iter().map(|(_, url)| url).collect();
    assert_eq!(urls.len(), 5);
    for pair in seen.handed_out.windows(2) {
        assert!(pair[1].0 >= pair[0].0 + 10);
    }
    assert!(seen.pages.iter().all(|p| p.depth <= 1));
    assert!(seen.handed_out.iter().all(|(_, url)| url.starts_with(ROOT)));
    assert_eq!(summary.pages_fetched + summary.pages_failed, 5);
}

#[test]
fn every_discovered_page_is_handed_out_before_the_end() {
    let (summary, seen) = run(base(ROOT).build().unwrap());
    assert_eq!(summary.urls_discovered as usize, seen.handed_out.len());
}
