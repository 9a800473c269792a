use rustcrawl::frontier::Lease;
use rustcrawl::time::{Duration, Instant};
use rustcrawl::weburl::Url;
use rustcrawl::{CrawlConfig, CrawlTask, Frontier};

fn cfg() -> CrawlConfig {
    CrawlConfig::builder()
        .add_seed("https://a.com/")
        .unwrap()
        .per_host_delay(Duration::from_millis(100))
        .build()
        .unwrap()
}

fn url(s: &str) -> Url {
    Url::parse(s).unwrap()
}

fn task(s: &str) -> CrawlTask {
    CrawlTask::seed(url(s))
}

fn start() -> Instant {
    Instant::from_nanos(1_000_000_000_000)
}

#[test]
fn dedupes_normalized_urls() {
    let mut f = Frontier::new(&cfg());
    assert!(f.add(task("https://a.com/x#frag")));
    assert!(!f.add(task("https://a.com/x")));
    assert_eq!(f.queued(), 1);
}

#[test]
fn enforces_per_host_delay() {
    let mut f = Frontier::new(&cfg());
    f.add(task("https://a.com/1"));
    f.add(task("https://a.com/2"));
    let now = start();

    assert!(matches!(f.lease(now), Lease::Ready(_)));
    // Second same-host task must wait for the delay.
    match f.lease(now) {
        Lease::Wait(d) => assert!(d <= Duration::from_millis(100)),
        other => panic!("expected Wait, got {other:?}"),
    }
    // After the delay it becomes available.
    assert!(matches!(f.lease(now.after(Duration::from_millis(100))), Lease::Ready(_)));
}

#[test]
fn different_hosts_run_in_parallel() {
    let mut f = Frontier::new(&cfg());
    f.add(task("https://a.com/1"));
    f.add(task("https://b.com/1"));
    let now = start();
    assert!(matches!(f.lease(now), Lease::Ready(_)));
    assert!(matches!(f.lease(now), Lease::Ready(_)));
}

#[test]
fn done_when_drained() {
    let mut f = Frontier::new(&cfg());
    f.add(task("https://a.com/1"));
    let now = start();
    assert!(matches!(f.lease(now), Lease::Ready(_)));
    assert!(matches!(f.lease(now), Lease::Idle));
    f.complete();
    assert!(matches!(f.lease(now), Lease::Done));
}

#[test]
fn frontier_respects_max_depth() {
    let config = CrawlConfig::builder()
        .add_seed("https://a.com/")
        .unwrap()
        .max_depth(Some(1))
        .build()
        .unwrap();
    let mut f = Frontier::new(&config);
    assert!(!f.add(CrawlTask::child(url("https://a.com/deep"), 2, url("https://a.com/"))));
}

#[test]
fn the_wait_is_exact_and_enough() {
    let mut f = Frontier::new(&cfg());
    f.add(task("https://a.com/1"));
    f.add(task("https://a.com/2"));
    let now = start();
    f.lease(now);
    let later = now.after(Duration::from_millis(30));
    match f.lease(later) {
        Lease::Wait(d) => {
            assert_eq!(d, Duration::from_millis(70));
            assert!(matches!(f.lease(later.after(d)), Lease::Ready(_)));
        }
        other => panic!("expected Wait, got {other:?}"),
    }
}

#[test]
fn a_raised_delay_counts_and_a_lower_one_does_not() {
    let mut f = Frontier::new(&cfg());
    for i in 0..4 {
        f.add(task(&format!("https://a.com/{i}")));
    }
    f.set_host_delay(&url("https://A.com/any"), Duration::from_millis(20));
    let now = start();
    f.lease(now);
    assert!(matches!(f.lease(now), Lease::Wait(d) if d == Duration::from_millis(100)));
    f.set_host_delay(&url("https://a.com/any"), Duration::from_secs(2));
    f.set_host_delay(&url("https://a.com/any"), Duration::from_secs(1));
    f.set_host_delay(&url("mailto:a@a.com"), Duration::from_secs(9));
    let next = now.after(Duration::from_millis(100));
    assert!(matches!(f.lease(next), Lease::Ready(_)));
    assert!(matches!(f.lease(next), Lease::Wait(d) if d == Duration::from_secs(2)));
}

#[test]
fn tasks_of_a_host_leave_in_order_and_normalized() {
    let config = CrawlConfig::builder()
        .add_seed("https://a.com/")
        .unwrap()
        .per_host_delay(Duration::zero())
        .build()
        .unwrap();
    let mut f = Frontier::new(&config);
    assert!(f.add(task("https://a.com/1#x")));
    assert!(f.add(CrawlTask::child(url("https://a.com/2?"), 3, url("https://a.com/1"))));
    assert!(f.add(task("https://a.com/3")));
    assert!(!f.add(task("mailto:someone@a.com")));
    assert_eq!(f.queued(), 3);
    let mut seen = Vec::new();
    while let Lease::Ready(t) = f.lease(start()) {
        seen.push((t.url.text(), t.depth, t.referrer_text()));
    }
    assert_eq!(
        seen,
        vec![
            ("https://a.com/1".to_string(), 0, None),
            ("https://a.com/2".to_string(), 3, Some("https://a.com/1".to_string())),
            ("https://a.com/3".to_string(), 0, None),
        ]
    );
    assert_eq!(f.queued(), 0);
    assert_eq!(f.active(), 3);
    // What was handed out is not accepted again.
    assert!(!f.add(task("https://a.com/2")));
}

#[test]
fn the_page_budget_is_kept() {
    let config = CrawlConfig::builder()
        .add_seed("https://a.com/")
        .unwrap()
        .per_host_delay(Duration::zero())
        .max_pages(Some(2))
        .build()
        .unwrap();
    let mut f = Frontier::new(&config);
    for i in 0..5 {
        assert!(f.add(task(&format!("https://h{i}.com/"))));
    }
    assert!(matches!(f.lease(start()), Lease::Ready(_)));
    assert!(matches!(f.lease(start()), Lease::Ready(_)));
    assert!(matches!(f.lease(start()), Lease::Done));
    assert_eq!(f.queued(), 3);
}

#[test]
fn many_hosts_drain_completely() {
    let config = CrawlConfig::builder()
        .add_seed("https://example.com/")
        .unwrap()
        .per_host_delay(Duration::zero())
        .build()
        .unwrap();
    let mut f = Frontier::new(&config);
    for i in 0..1000 {
        let s = format!("https://host{}.example.com/path/page-{}?q={}", i % 64, i, i % 17);
        assert!(f.add(task(&s)));
        assert!(!f.add(task(&s)));
    }
    let mut leased = 0;
    loop {
        match f.lease(start()) {
            Lease::Ready(_) => {
                leased += 1;
                f.complete();
            }
            Lease::Done => break,
            other => panic!("unexpected {other:?}"),
        }
    }
    assert_eq!(leased, 1000);
}

#[test]
fn a_host_is_crawled_breadth_first() {
    let config = CrawlConfig::builder()
        .add_seed("https://a.com/")
        .unwrap()
        .per_host_delay(Duration::zero())
        .max_depth(Some(3))
        .build()
        .unwrap();
    let mut f = Frontier::new(&config);
    f.add(task("https://a.com/"));
    let mut depths = Vec::new();
    while let Lease::Ready(t) = f.lease(start()) {
        for i in 0..2 {
            let link = url(&format!("{}{i}/", t.url.text()));
            f.add(CrawlTask::child(link, t.depth + 1, t.url.copy()));
        }
        depths.push(t.depth);
        f.complete();
    }
    assert_eq!(depths, vec![0, 1, 1, 2, 2, 2, 2, 3, 3, 3, 3, 3, 3, 3, 3]);
}
