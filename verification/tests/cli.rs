use clap::{Arg, ArgMatches, Command, Error};
use rustcrawl::cli::{origin_root, parse_concurrency, Cli, CliError, ScopeArg};
use rustcrawl::time::Duration;
use rustcrawl::weburl::Url;
use rustcrawl::{Scope, DEFAULT_CONCURRENCY, MAX_CONCURRENCY};

fn try_parse_from(args: &[&str]) -> Result<ArgMatches, Error> {
    Command::new("rustcrawl")
        .arg(Arg::new("seeds").value_name("URL").num_args(0..))
        .arg(
            Arg::new("concurrency")
                .short('c')
                .long("concurrency")
                .default_value("16")
                .value_parser(parse_concurrency),
        )
        .try_get_matches_from(args)
}

#[test]
fn cli_uses_default_concurrency() {
    let cli = try_parse_from(&["rustcrawl", "https://example.com/"]).unwrap();
    assert_eq!(*cli.get_one::<usize>("concurrency").unwrap(), DEFAULT_CONCURRENCY);
    let cli = Cli::with_seeds(vec!["https://example.com/".to_string()]);
    assert_eq!(cli.concurrency, DEFAULT_CONCURRENCY);
}

#[test]
fn cli_rejects_zero_concurrency() {
    let result = try_parse_from(&["rustcrawl", "https://example.com/", "--concurrency", "0"]);
    assert!(result.is_err());
}

#[test]
fn cli_rejects_excessive_concurrency() {
    let too_many = (MAX_CONCURRENCY + 1).to_string();
    let result = try_parse_from(&[
        "rustcrawl",
        "https://example.com/",
        "--concurrency",
        too_many.as_str(),
    ]);
    assert!(result.is_err());
}

#[test]
fn concurrency_is_read_strictly() {
    assert_eq!(parse_concurrency("1"), Ok(1));
    assert_eq!(parse_concurrency("+12"), Ok(12));
    assert_eq!(parse_concurrency("1024"), Ok(1024));
    assert_eq!(parse_concurrency("0"), Err("concurrency must be at least 1".to_string()));
    assert_eq!(parse_concurrency("1025"), Err("concurrency must be at most 1024".to_string()));
    assert_eq!(
        parse_concurrency("a\"b"),
        Err("invalid concurrency \"a\\\"b\": expected a positive integer".to_string())
    );
    for bad in ["", " 1", "-1", "1.0", "99999999999999999999999"] {
        assert!(parse_concurrency(bad).is_err());
    }
}

fn cli(seeds: &[&str], sitemaps: &[&str]) -> Cli {
    let mut cli = Cli::with_seeds(seeds.iter().map(|s| s.to_string()).collect());
    cli.sitemap = sitemaps.iter().map(|s| s.to_string()).collect();
    cli
}

#[test]
fn settings_become_a_configuration() {
    let mut args = cli(&["https://a.com/", "http://b.com/x"], &["https://c.com/s.xml"]);
    args.depth = Some(2);
    args.max_pages = Some(5);
    args.concurrency = 3;
    args.delay = Duration::from_millis(10);
    args.timeout = Duration::from_secs(4);
    args.scope = ScopeArg::Host;
    args.user_agent = Some("x/1".to_string());
    args.includes = vec!["a".to_string(), "b".to_string()];
    args.exclude = vec!["c".to_string()];
    args.retries = 9;
    args.max_body = 77;
    let config = args.to_config().unwrap();
    let seeds: Vec<String> = config.seeds.iter().map(|u| u.text()).collect();
    assert_eq!(seeds, vec!["https://a.com/", "http://b.com/x"]);
    assert_eq!(config.max_depth, Some(2));
    assert_eq!(config.max_pages, Some(5));
    assert_eq!(config.concurrency, 3);
    assert_eq!(config.per_host_delay, Duration::from_millis(10));
    assert_eq!(config.request_timeout, Duration::from_secs(4));
    assert_eq!(config.scope, Scope::Host);
    assert_eq!(config.user_agent, "x/1");
    assert_eq!(config.includes.len(), 2);
    assert_eq!(config.exclude.len(), 1);
    assert!(config.respect_robots && config.respect_crawl_delay);
    assert_eq!(config.max_retries, 9);
    assert_eq!(config.max_body_bytes, 77);
}

#[test]
fn robots_and_crawl_delay_can_be_ignored() {
    let mut args = cli(&["https://a.com/"], &[]);
    args.ignore_crawl_delay = true;
    let config = args.to_config().unwrap();
    assert!(config.respect_robots && !config.respect_crawl_delay);
    args.ignore_crawl_delay = false;
    args.ignore_robots = true;
    let config = args.to_config().unwrap();
    assert!(!config.respect_robots && !config.respect_crawl_delay);
}

#[test]
fn sitemaps_anchor_a_crawl_without_seeds() {
    let args = cli(&[], &["https://a.com/deep/s.xml?x#y", "http://b.com:81/s.xml"]);
    assert!(args.has_crawl_target());
    let config = args.to_config().unwrap();
    let seeds: Vec<String> = config.seeds.iter().map(|u| u.text()).collect();
    assert_eq!(seeds, vec!["https://a.com/", "http://b.com:81/"]);
    assert_eq!(args.sitemap_urls().unwrap().len(), 2);
    assert_eq!(origin_root(&Url::parse("https://u@a.com/p?q#f").unwrap()).text(), "https://u@a.com/");
}

#[test]
fn bad_invocations_are_explained() {
    let err = cli(&[], &[]).to_config().unwrap_err();
    assert!(matches!(err, CliError::NoTarget));
    assert_eq!(err.report(), "provide at least one seed URL or a --sitemap");
    assert!(!cli(&[], &[]).has_crawl_target());

    let err = cli(&["https://ok.com/", "nope"], &["also bad"]).to_config().unwrap_err();
    assert!(matches!(err, CliError::Seed { .. }));
    assert_eq!(
        err.report(),
        "invalid seed URL: nope: invalid URL \"nope\": relative URL without a base: relative URL without a base"
    );

    let err = cli(&[], &["https://ok.com/", "nope"]).to_config().unwrap_err();
    assert!(matches!(err, CliError::Sitemap { .. }));
    assert_eq!(err.report(), "invalid sitemap URL: nope: relative URL without a base");

    let err = cli(&["ftp://a.com/"], &[]).to_config().unwrap_err();
    assert!(matches!(err, CliError::Config(_)));
    assert_eq!(
        err.report(),
        "invalid configuration: seed ftp://a.com/ must use http or https"
    );
}

#[test]
fn scopes_have_names() {
    for (arg, name, scope) in [
        (ScopeArg::Host, "host", Scope::Host),
        (ScopeArg::Domain, "domain", Scope::Domain),
        (ScopeArg::Any, "any", Scope::Any),
    ] {
        assert_eq!(arg.name(), name);
        assert_eq!(Scope::from(arg), scope);
    }
}

#[test]
fn origin_roots_agree_with_the_url_crate() {
    for s in [
        "https://u:p@a.com:8443/p?q#f",
        "http://[::1]/x/y",
        "ftp://a.com/x",
        "file:///etc/hosts?x",
        "file://host/share",
        "foo://a.com",
        "foo://",
        "foo:/p?q#f",
        "foo:/.//p?q#f",
        "web+demo:/.//not-a-host/",
        "mailto:a@b?x#y",
        "mailto:",
        "foo:?x",
        "data:text/plain,a b  ?q#f",
    ] {
        let mut theirs = url::Url::parse(s).unwrap();
        theirs.set_path("/");
        theirs.set_query(None);
        theirs.set_fragment(None);
        assert_eq!(origin_root(&Url::parse(s).unwrap()).text(), theirs.as_str(), "{s}");
    }
}
