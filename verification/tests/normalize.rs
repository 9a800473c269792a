use rustcrawl::normalize::normalize;
use rustcrawl::weburl::Url;

fn norm(s: &str) -> String {
    normalize(Url::parse(s).unwrap()).text()
}

#[test]
fn drops_fragment() {
    assert_eq!(norm("https://e.com/a#frag"), "https://e.com/a");
}

#[test]
fn adds_root_path() {
    assert_eq!(norm("https://e.com"), "https://e.com/");
}

#[test]
fn strips_default_ports() {
    assert_eq!(norm("https://e.com:443/a"), "https://e.com/a");
    assert_eq!(norm("http://e.com:80/a"), "http://e.com/a");
    assert_eq!(norm("https://e.com:8443/a"), "https://e.com:8443/a");
}

#[test]
fn preserves_query() {
    assert_eq!(norm("https://e.com/a?b=1&a=2"), "https://e.com/a?b=1&a=2");
}

#[test]
fn drops_an_empty_query() {
    assert_eq!(norm("https://e.com/a?"), "https://e.com/a");
    assert_eq!(norm("https://e.com/?#x"), "https://e.com/");
}

#[test]
fn strips_a_default_port_that_is_spelled_out() {
    let mut url = Url::parse("https://e.com/a").unwrap();
    url.port = Some(443);
    assert_eq!(url.text(), "https://e.com:443/a");
    assert_eq!(normalize(url).text(), "https://e.com/a");
}

#[test]
fn normalizing_twice_changes_nothing_more() {
    for s in [
        "HTTPS://Example.COM:443/path/page.html#section",
        "http://example.com:80/?",
        "mailto:hi@example.com?#x",
        "data:text/plain,a b  #x",
        "file:///etc/hosts?#y",
        "foo://host",
        "foo://host?#",
    ] {
        let once = normalize(Url::parse(s).unwrap());
        let text = once.text();
        assert_eq!(normalize(once).text(), text);
    }
}

/// What the `url` crate's own setters make of a URL.
fn by_setters(s: &str) -> String {
    let mut url = url::Url::parse(s).unwrap();
    url.set_fragment(None);
    if url.path().is_empty() {
        url.set_path("/");
    }
    if url.query() == Some("") {
        url.set_query(None);
    }
    if let Some(port) = url.port() {
        if matches!((url.scheme(), port), ("http", 80) | ("https", 443)) {
            let _ = url.set_port(None);
        }
    }
    url.to_string()
}

#[test]
fn agrees_with_the_url_crate() {
    for s in [
        "https://e.com",
        "https://e.com/a#frag",
        "http://e.com:8080/?",
        "https://user:pw@e.com/a?b#c",
        "https://user@e.com/",
        "https://:pw@e.com/",
        "https://[::1]:8080/x?#",
        "https://1.2.3.4/x",
        "mailto:hi@example.com",
        "mailto:hi@example.com?#x",
        "data:text/plain,a b  #x",
        "data:text/plain,a b  ?q  #x",
        "javascript:void(0)#x",
        "file:///etc/hosts?#y",
        "file://host/share#z",
        "foo://host",
        "foo://host?#",
        "foo://host:80/p",
        "foo:/p?#q",
        "foo:/.//p?#q",
        "ftp://e.com:21/a#b",
        "tel:+1-234#x",
        "mailto:",
        "mailto:?",
        "mailto:?x#y",
        "foo:#x",
        "foo://?#x",
        "web+demo:/.//not-a-host/?#x",
    ] {
        assert_eq!(norm(s), by_setters(s), "{s}");
    }
}

#[test]
fn web_urls_have_one_canonical_form() {
    for s in ["http://E.com:80?#x", "https://u:p@e.com:443/a?q#", "http://[::1]/?", "https://e.com/A%2f?b=1&a=2#f"] {
        let once = norm(s);
        assert_eq!(norm(&once), once);
        let bare = s.split('#').next().unwrap();
        assert_eq!(norm(bare), once);
        assert_eq!(norm(&format!("{bare}#other")), once);
    }
}
