use rustcrawl::robots::{file_in_response, origin_key, robots_url, Rules};
use rustcrawl::time::Duration;
use rustcrawl::weburl::Url;
use rustcrawl::RobotsCache;

fn url(s: &str) -> Url {
    Url::parse(s).unwrap()
}

fn cache(file: Option<&[u8]>) -> RobotsCache {
    let mut cache = RobotsCache::new("probe".to_string());
    cache.store(&url("https://e.com/"), file.map(|f| f.to_vec()));
    cache
}

#[test]
fn rules_are_obeyed() {
    let c = cache(Some(b"User-agent: *\nDisallow: /secret\nCrawl-delay: 1.5\nSitemap: https://e.com/s.xml\n"));
    assert_eq!(c.allowed(&url("https://e.com/secret/x")), Some(false));
    assert_eq!(c.allowed(&url("https://e.com/open")), Some(true));
    assert_eq!(c.crawl_delay(&url("https://e.com/x")), Some(Some(Duration::from_millis(1500))));
    assert_eq!(c.sitemaps(&url("https://e.com/x")), Some(vec!["https://e.com/s.xml".to_string()]));
}

#[test]
fn rules_for_the_agent_take_precedence() {
    let c = cache(Some(b"User-agent: *\nDisallow: /\n\nUser-agent: Probe\nDisallow: /only\n"));
    assert_eq!(c.allowed(&url("https://e.com/x")), Some(true));
    assert_eq!(c.allowed(&url("https://e.com/only")), Some(false));
}

#[test]
fn a_missing_file_allows_everything() {
    let c = cache(None);
    assert_eq!(c.allowed(&url("https://e.com/secret")), Some(true));
    assert_eq!(c.crawl_delay(&url("https://e.com/secret")), Some(None));
    assert_eq!(c.sitemaps(&url("https://e.com/secret")), Some(vec![]));
    let empty = cache(Some(b""));
    assert_eq!(empty.allowed(&url("https://e.com/secret")), Some(true));
}

#[test]
fn an_unreadable_rule_allows_everything() {
    let mut file = b"User-agent: *\nDisallow: /".to_vec();
    for _ in 0..5000 {
        file.extend_from_slice(b"a*b");
    }
    file.extend_from_slice(b"$\n");
    let c = cache(Some(&file));
    assert_eq!(c.allowed(&url("https://e.com/x")), Some(true));
    assert_eq!(c.crawl_delay(&url("https://e.com/x")), Some(None));
}

#[test]
fn a_delay_that_is_no_time_is_none() {
    let c = cache(Some(b"User-agent: *\nCrawl-delay: 1e30\n"));
    assert_eq!(c.crawl_delay(&url("https://e.com/")), Some(None));
}

#[test]
fn rules_go_by_origin() {
    let mut c = cache(Some(b"User-agent: *\nDisallow: /\n"));
    assert_eq!(c.allowed(&url("https://e.com:443/x")), Some(false));
    assert_eq!(c.allowed(&url("http://e.com/x")), None);
    assert_eq!(c.allowed(&url("https://e.com:8443/x")), None);
    assert_eq!(c.crawl_delay(&url("https://f.com/x")), None);
    assert_eq!(c.sitemaps(&url("https://f.com/x")), None);
    c.store(&url("https://f.com/y"), None);
    assert_eq!(c.allowed(&url("https://f.com/x")), Some(true));
    assert_eq!(c.allowed(&url("https://e.com/x")), Some(false));
    // A second answer replaces the first.
    c.store(&url("https://e.com/y"), None);
    assert_eq!(c.allowed(&url("https://e.com/x")), Some(true));
}

#[test]
fn origins_are_spelled_out() {
    assert_eq!(origin_key(&url("https://E.com/x?y#z")), "https://e.com:443");
    assert_eq!(origin_key(&url("http://e.com:8080/")), "http://e.com:8080");
    assert_eq!(origin_key(&url("foo://e.com/")), "foo://e.com");
    assert_eq!(origin_key(&url("mailto:a@b")), "mailto://");
}

#[test]
fn the_file_lies_at_the_root() {
    assert_eq!(
        robots_url(&url("https://e.com:8443/a/b?c#d")).unwrap().text(),
        "https://e.com:8443/robots.txt"
    );
    assert!(robots_url(&url("mailto:a@b")).is_none());
}

#[test]
fn only_a_success_brings_a_file() {
    let body = || Some(vec![1u8]);
    assert_eq!(file_in_response(200, body()), body());
    assert_eq!(file_in_response(204, None), None);
    for status in [199, 300, 404, 500] {
        assert_eq!(file_in_response(status, body()), None);
    }
}

#[test]
fn rules_can_be_stored_as_they_were_read() {
    let robot = texting_robots::Robot::new("probe", b"Disallow: /x").unwrap();
    let mut c = RobotsCache::new("probe".to_string());
    let rules = Rules {
        robot,
        delay: Some(Duration::from_secs(3)),
        sitemaps: vec!["s".to_string()],
    };
    c.store_rules(&url("https://e.com/"), Some(rules));
    assert_eq!(c.allowed(&url("https://e.com/x")), Some(false));
    assert_eq!(c.crawl_delay(&url("https://e.com/x")), Some(Some(Duration::from_secs(3))));
    assert_eq!(c.sitemaps(&url("https://e.com/x")), Some(vec!["s".to_string()]));
    c.store_rules(&url("https://e.com/"), None);
    assert_eq!(c.allowed(&url("https://e.com/x")), Some(true));
}

#[test]
fn an_empty_file_allows_everything() {
    let mut c = RobotsCache::new("probe".to_string());
    c.store(&url("https://e.com/"), Some(Vec::new()));
    assert_eq!(c.allowed(&url("https://e.com/x")), Some(true));
    assert_eq!(c.crawl_delay(&url("https://e.com/x")), Some(None));
    assert_eq!(c.sitemaps(&url("https://e.com/x")), Some(Vec::new()));
}
