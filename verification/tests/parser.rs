use rustcrawl::parser::{document_title, keep_links, parse_html, parse_survey, Survey};
use rustcrawl::weburl::Url;

#[test]
fn extracts_title_and_absolute_links() {
    let base = Url::parse("https://example.com/dir/page.html").unwrap();
    let html = r##"
            <html><head><title>  Hello  </title></head>
            <body>
                <a href="/abs">a</a>
                <a href="rel.html">b</a>
                <a href="https://other.com/x">c</a>
                <a href="mailto:hi@example.com">d</a>
                <a href="#frag">e</a>
            </body></html>
        "##;
    let parsed = parse_html(&base, html);
    assert_eq!(parsed.title.as_deref(), Some("Hello"));
    let links: Vec<String> = parsed.links.iter().map(|u| u.text()).collect();
    assert!(links.contains(&"https://example.com/abs".to_string()));
    assert!(links.contains(&"https://example.com/dir/rel.html".to_string()));
    assert!(links.contains(&"https://other.com/x".to_string()));
    assert!(!links.iter().any(|l| l.starts_with("mailto")));
}

#[test]
fn honors_base_href() {
    let base = Url::parse("https://example.com/a/b").unwrap();
    let html = r#"<head><base href="https://cdn.example.com/root/"></head>
            <a href="x.html">x</a>"#;
    let parsed = parse_html(&base, html);
    assert_eq!(parsed.links[0].text(), "https://cdn.example.com/root/x.html");
}

#[test]
fn links_are_deduplicated_in_order() {
    let base = Url::parse("https://e.com/").unwrap();
    let html = r##"<a href="/b">1</a><a href="/a#x">2</a><a href="/b#y">3</a>
        <a href="javascript:void(0)">4</a><a>5</a><a href="http://[">6</a><a href="/a">7</a>"##;
    let links: Vec<String> = parse_html(&base, html).links.iter().map(|u| u.text()).collect();
    assert_eq!(links, vec!["https://e.com/b", "https://e.com/a"]);
}

#[test]
fn only_the_first_title_and_the_first_base_count() {
    let base = Url::parse("https://e.com/").unwrap();
    let html = r#"<title>One &amp; <b>only</b></title><title>Two</title>
        <base target="_top"><base href="/x/"><base href="/y/"><a href="z">z</a>"#;
    let parsed = parse_html(&base, html);
    assert_eq!(parsed.title.as_deref(), Some("One & <b>only</b>"));
    assert_eq!(parsed.links[0].text(), "https://e.com/x/z");
}

#[test]
fn blank_titles_and_bad_bases_are_passed_over() {
    let base = Url::parse("https://e.com/d/").unwrap();
    let parsed = parse_html(&base, r#"<title> </title><base href="http://["><a href="z">z</a>"#);
    assert_eq!(parsed.title, None);
    assert_eq!(parsed.links[0].text(), "https://e.com/d/z");
    let empty = parse_html(&base, "");
    assert_eq!(empty.title, None);
    assert!(empty.links.is_empty());
}

#[test]
fn a_survey_is_read_as_the_document_is() {
    let base = Url::parse("https://e.com/").unwrap();
    let survey = Survey {
        titles: vec!["\u{a0} T \n".to_string()],
        bases: vec![Some("sub/".to_string())],
        anchors: vec![None, Some("p".to_string()), Some("tel:1".to_string())],
    };
    let parsed = parse_survey(&base, &survey);
    assert_eq!(parsed.title.as_deref(), Some("T"));
    assert_eq!(parsed.links.len(), 1);
    assert_eq!(parsed.links[0].text(), "https://e.com/sub/p");
}

#[test]
fn pieces_work_on_their_own() {
    assert_eq!(document_title(&vec![]), None);
    assert_eq!(document_title(&vec![" ".to_string(), "x".to_string()]), None);
    let kept = keep_links(vec![
        Err("bad".to_string()),
        Url::parse("https://e.com/#a"),
        Url::parse("ftp://e.com/"),
        Url::parse("https://e.com/#b"),
    ]);
    assert_eq!(kept.len(), 1);
    assert_eq!(kept[0].text(), "https://e.com/");
}

#[test]
fn many_links_are_found() {
    let base = Url::parse("https://example.com/root/index.html").unwrap();
    let mut html = String::from("<!doctype html><html><head><title>B</title></head><body>");
    for i in 0..250 {
        html.push_str(&format!(r#"<a href="/section/{}/page-{}?q={}">l</a>"#, i % 20, i, i % 11));
    }
    assert_eq!(parse_html(&base, &html).links.len(), 250);
}
