use rustcrawl::weburl::Url;

#[test]
fn text_gives_back_what_the_parser_read() {
    for s in [
        "https://e.com",
        "HTTP://E.COM:80/a/../b?x=1#y",
        "https://user:pw@e.com:8443/a?b#c",
        "https://user@e.com/",
        "https://:pw@e.com/",
        "https://[2001:db8::1]:9/x",
        "https://münchen.de/straße?ä#ö",
        "mailto:hi@example.com",
        "data:text/plain,a b  ",
        "file:///etc/hosts",
        "file://host/share",
        "foo://host",
        "foo://",
        "foo:///p",
        "foo:/p",
        "foo:p",
        "foo:/.//p",
        "web+demo:/..//not-a-host/",
        "javascript:void(0)",
        "ftp://e.com:2121/a",
        "blob:https://e.com/1",
    ] {
        let ours = Url::parse(s).unwrap();
        let theirs = url::Url::parse(s).unwrap();
        assert_eq!(ours.text(), theirs.as_str());
        assert_eq!(ours.copy().text(), theirs.as_str());
    }
}

#[test]
fn components_are_what_they_say() {
    let u = Url::parse("HTTPS://Me:pw@Example.COM:8443/a/./b?q=1#f").unwrap();
    assert_eq!(u.scheme, "https");
    assert!(u.authority);
    assert_eq!(u.username, "Me");
    assert_eq!(u.password.as_deref(), Some("pw"));
    assert_eq!(u.host.as_deref(), Some("example.com"));
    assert_eq!(u.port, Some(8443));
    assert_eq!(u.path, "/a/b");
    assert_eq!(u.query.as_deref(), Some("q=1"));
    assert_eq!(u.fragment.as_deref(), Some("f"));
    assert!(u.is_web());
    assert_eq!(u.known_port(), Some(8443));
}

#[test]
fn errors_are_the_parsers_words() {
    assert_eq!(Url::parse("not a url").unwrap_err(), "relative URL without a base");
    assert_eq!(Url::parse("https://").unwrap_err(), "empty host");
}

#[test]
fn references_resolve_against_a_base() {
    let base = Url::parse("https://example.com/dir/page.html?q#f").unwrap();
    for reference in ["/abs", "rel.html", "../up", "?x", "#y", "//other.com/z", "mailto:a@b", ""] {
        let theirs = url::Url::parse("https://example.com/dir/page.html?q#f")
            .unwrap()
            .join(reference)
            .unwrap();
        assert_eq!(base.join(reference).unwrap().text(), theirs.as_str());
    }
    assert!(Url::parse("mailto:a@b").unwrap().join("x").is_err());
}

#[test]
fn known_ports_agree_with_the_url_crate() {
    for s in [
        "http://e.com/",
        "https://e.com/",
        "https://e.com:1/",
        "ftp://e.com/",
        "ws://e.com/",
        "wss://e.com/",
        "file:///x",
        "foo://e.com/",
        "foo://e.com:7/",
    ] {
        let theirs = url::Url::parse(s).unwrap().port_or_known_default();
        assert_eq!(Url::parse(s).unwrap().known_port(), theirs, "{s}");
    }
}
