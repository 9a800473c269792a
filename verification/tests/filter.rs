use rustcrawl::filter::{found_or_host, is_ip_address, patterns_permit, registrable_domain};
use rustcrawl::weburl::Url;
use rustcrawl::{CrawlConfig, Scope, UrlFilter};

fn url(s: &str) -> Url {
    Url::parse(s).unwrap()
}

fn filter(seed: &str, scope: Scope) -> UrlFilter {
    let config = CrawlConfig::builder().add_seed(seed).unwrap().scope(scope).build().unwrap();
    UrlFilter::from_config(&config)
}

#[test]
fn domain_scope_includes_subdomains_excludes_others() {
    let f = filter("https://example.com/", Scope::Domain);
    assert!(f.allows(&url("https://example.com/page")));
    assert!(f.allows(&url("https://docs.example.com/page")));
    assert!(!f.allows(&url("https://other.com/page")));
    assert!(!f.allows(&url("https://notexample.com/page")));
}

#[test]
fn host_scope_excludes_subdomains() {
    let f = filter("https://example.com/", Scope::Host);
    assert!(f.allows(&url("https://example.com/page")));
    assert!(!f.allows(&url("https://docs.example.com/page")));
}

#[test]
fn any_scope_allows_other_hosts_but_not_other_schemes() {
    let f = filter("https://example.com/", Scope::Any);
    assert!(f.allows(&url("https://anywhere.example.org/x")));
    assert!(!f.allows(&url("ftp://example.com/x")));
}

#[test]
fn include_and_exclude_patterns_apply() {
    let config = CrawlConfig::builder()
        .add_seed("https://example.com/")
        .unwrap()
        .scope(Scope::Domain)
        .include_pattern("/blog/")
        .exclude(r"\.png$")
        .build()
        .unwrap();
    let f = UrlFilter::from_config(&config);

    assert!(f.allows(&url("https://example.com/blog/post")));
    // Not matched by any include pattern.
    assert!(!f.allows(&url("https://example.com/about")));
    // Matched by include but also by exclude -> excluded wins.
    assert!(!f.allows(&url("https://example.com/blog/cover.png")));
}

#[test]
fn registrable_domains_follow_the_suffix_list() {
    assert_eq!(registrable_domain("www.Example.co.uk"), "example.co.uk");
    assert_eq!(registrable_domain("a.b.example.com"), "example.com");
    assert_eq!(registrable_domain("localhost"), "localhost");
    assert_eq!(found_or_host("A.B", None), "a.b");
    assert_eq!(found_or_host("A.B", Some("X.Y")), "x.y");
}

#[test]
fn ip_addresses_are_told_from_names() {
    for ip in ["127.0.0.1", "0.0.0.0", "255.255.255.255", "[::1]", "[2001:DB8::1]"] {
        assert!(is_ip_address(ip), "{ip}");
        assert_eq!(registrable_domain(ip), ip.to_ascii_lowercase());
        assert_eq!(found_or_host(ip, Some("0.1")), ip.to_ascii_lowercase());
    }
    for name in ["", ".", "1.2.3", "1.2.3.4.5", "256.0.0.1", "01.2.3.4", "+1.2.3.4", "1..2.3", "1.2.3.a", "a.1.2.3", "["] {
        assert!(!is_ip_address(name), "{name}");
    }
    assert_eq!(registrable_domain("Docs.Example.com"), "example.com");
}

#[test]
fn different_ip_addresses_are_kept_apart() {
    let f = filter("http://127.0.0.1/", Scope::Domain);
    assert!(f.allows(&url("http://127.0.0.1:8080/x")));
    assert!(!f.allows(&url("http://10.0.0.1/x")));
    assert!(!f.allows(&url("http://0.1/x")));
    let f = filter("http://[::1]/", Scope::Domain);
    assert!(f.allows(&url("http://[::1]/x")));
    assert!(!f.allows(&url("http://[::2]/x")));
}

#[test]
fn private_suffixes_keep_sites_apart() {
    let f = filter("https://alice.github.io/", Scope::Domain);
    assert!(f.allows(&url("https://alice.github.io/x")));
    assert!(!f.allows(&url("https://bob.github.io/x")));
}

#[test]
fn hosts_without_a_domain_are_compared_with_themselves() {
    let f = filter("http://intranet/", Scope::Domain);
    assert!(f.allows(&url("http://intranet:8080/x")));
    assert!(!f.allows(&url("http://extranet/x")));
}

#[test]
fn seeds_are_in_their_own_scope() {
    for scope in [Scope::Host, Scope::Domain, Scope::Any] {
        for seed in ["https://Sub.Example.co.uk/x", "http://127.0.0.1:81/", "http://[::1]/"] {
            assert!(filter(seed, scope).allows(&url(seed)));
        }
    }
}

#[test]
fn patterns_are_combined() {
    assert!(patterns_permit(false, false, false));
    assert!(patterns_permit(false, true, true));
    assert!(!patterns_permit(false, true, false));
    assert!(!patterns_permit(true, false, false));
    assert!(!patterns_permit(true, true, true));
}
