use rustcrawl::config::{default_user_agent, CrawlConfigBuilder};
use rustcrawl::time::Duration;
use rustcrawl::{CrawlConfig, CrawlError, Scope, DEFAULT_CONCURRENCY, MAX_CONCURRENCY};

fn seeded() -> CrawlConfigBuilder {
    CrawlConfig::builder().add_seed("https://example.com/").unwrap()
}

#[test]
fn build_requires_at_least_one_seed() {
    assert!(CrawlConfig::builder().build().is_err());
}

#[test]
fn build_rejects_zero_concurrency() {
    let result = CrawlConfig::builder()
        .add_seed("https://example.com/")
        .unwrap()
        .concurrency(0)
        .build();
    assert!(result.is_err());
}

#[test]
fn build_rejects_non_http_seed() {
    let result = CrawlConfig::builder().add_seed("ftp://example.com/").unwrap().build();
    assert!(matches!(result, Err(CrawlError::Config(_))));
}

#[test]
fn add_seed_rejects_unparseable_url() {
    let result = CrawlConfig::builder().add_seed("not a url");
    assert!(matches!(result, Err(CrawlError::Url { .. })));
}

#[test]
fn build_rejects_invalid_include_regex() {
    let result = CrawlConfig::builder()
        .add_seed("https://example.com/")
        .unwrap()
        .include_pattern("(")
        .build();
    assert!(matches!(result, Err(CrawlError::Pattern { .. })));
}

#[test]
fn build_applies_sensible_defaults() {
    let config = CrawlConfig::builder()
        .add_seed("https://example.com/")
        .unwrap()
        .build()
        .unwrap();
    assert_eq!(config.concurrency, DEFAULT_CONCURRENCY);
    assert_eq!(config.scope, Scope::Domain);
    assert!(config.respect_robots);
    assert_eq!(config.seeds.len(), 1);
}

#[test]
fn build_rejects_excessive_concurrency() {
    let result = CrawlConfig::builder()
        .add_seed("https://example.com/")
        .unwrap()
        .concurrency(MAX_CONCURRENCY + 1)
        .build();
    assert!(matches!(result, Err(CrawlError::Config(_))));
}

#[test]
fn every_setting_reaches_the_configuration() {
    let config = seeded()
        .max_depth(Some(3))
        .max_pages(Some(7))
        .concurrency(MAX_CONCURRENCY)
        .per_host_delay(Duration::from_millis(5))
        .request_timeout(Duration::from_secs(9))
        .user_agent("probe/1")
        .respect_robots(false)
        .respect_crawl_delay(false)
        .scope(Scope::Any)
        .include_pattern("a")
        .exclude("b")
        .max_retries(4)
        .max_body_bytes(11)
        .build()
        .unwrap();
    assert_eq!(config.max_depth, Some(3));
    assert_eq!(config.max_pages, Some(7));
    assert_eq!(config.concurrency, 1024);
    assert_eq!(config.per_host_delay, Duration::from_millis(5));
    assert_eq!(config.request_timeout, Duration::from_secs(9));
    assert_eq!(config.user_agent, "probe/1");
    assert!(!config.respect_robots);
    assert!(!config.respect_crawl_delay);
    assert_eq!(config.scope, Scope::Any);
    assert_eq!(config.includes.len(), 1);
    assert_eq!(config.exclude.len(), 1);
    assert!(config.exclude[0].is_match("abc"));
    assert_eq!(config.max_retries, 4);
    assert_eq!(config.max_body_bytes, 11);
}

#[test]
fn defaults_are_exact() {
    let config = seeded().build().unwrap();
    assert_eq!(config.max_depth, None);
    assert_eq!(config.max_pages, None);
    assert_eq!(config.per_host_delay, Duration::from_millis(250));
    assert_eq!(config.request_timeout, Duration::from_secs(30));
    assert_eq!(config.user_agent, default_user_agent());
    assert!(config.user_agent.starts_with("rustcrawl/"));
    assert!(config.respect_crawl_delay);
    assert_eq!(config.max_retries, 2);
    assert_eq!(config.max_body_bytes, 8 * 1024 * 1024);
}

#[test]
fn rejections_say_what_is_wrong() {
    let message = |r: Result<CrawlConfig, CrawlError>| r.unwrap_err().message();
    assert_eq!(
        message(CrawlConfig::builder().build()),
        "invalid configuration: at least one seed URL is required"
    );
    assert_eq!(
        message(seeded().concurrency(0).build()),
        "invalid configuration: concurrency must be at least 1"
    );
    assert_eq!(
        message(seeded().concurrency(1025).build()),
        "invalid configuration: concurrency must be at most 1024"
    );
    assert_eq!(
        message(CrawlConfig::builder().add_seed("ftp://example.com/").unwrap().build()),
        "invalid configuration: seed ftp://example.com/ must use http or https"
    );
    let url = CrawlConfig::builder().add_seed("not a \"url\"").unwrap_err();
    assert_eq!(
        url.message(),
        "invalid URL \"not a \\\"url\\\"\": relative URL without a base"
    );
    assert_eq!(
        url.report(),
        "invalid URL \"not a \\\"url\\\"\": relative URL without a base: relative URL without a base"
    );
    let pattern = seeded().exclude("(").build().unwrap_err();
    assert!(pattern.message().starts_with("invalid pattern \"(\": "));
}

#[test]
fn the_first_problem_is_reported() {
    let result = seeded().concurrency(0).include_pattern("(").build();
    assert!(matches!(result, Err(CrawlError::Config(_))));
    match seeded().include_pattern("ok").include_pattern("[").exclude("(").build() {
        Err(CrawlError::Pattern { pattern, .. }) => assert_eq!(pattern, "["),
        other => panic!("unexpected {other:?}"),
    }
}

#[test]
fn other_errors_have_messages_too() {
    assert_eq!(CrawlError::sink("full".to_string()).message(), "output sink error: full");
    assert_eq!(CrawlError::sink("full".to_string()).report(), "output sink error: full: full");
    assert_eq!(
        CrawlError::Client("tls".to_string()).message(),
        "failed to build HTTP client: tls"
    );
    assert_eq!(CrawlError::Io("gone".to_string()).report(), "gone");
}
