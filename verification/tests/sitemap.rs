use rustcrawl::sitemap::{
    advertised_pages, children_to_fetch, parse, parse_response, tag_of, Scan, Sitemap, Tag, XmlEvent,
};
use rustcrawl::weburl::Url;

fn texts(urls: &[Url]) -> Vec<String> {
    urls.iter().map(|u| u.text()).collect()
}

#[test]
fn parses_urlset() {
    let xml = br#"<?xml version="1.0"?>
            <urlset xmlns="http://www.sitemaps.org/schemas/sitemap/0.9">
              <url><loc>https://e.com/a</loc></url>
              <url><loc>https://e.com/b</loc></url>
            </urlset>"#;
    let sm = parse(xml);
    assert_eq!(sm.pages.len(), 2);
    assert!(sm.sitemaps.is_empty());
}

#[test]
fn parses_index() {
    let xml = br#"<sitemapindex>
              <sitemap><loc>https://e.com/sm1.xml</loc></sitemap>
            </sitemapindex>"#;
    let sm = parse(xml);
    assert_eq!(sm.sitemaps.len(), 1);
    assert!(sm.pages.is_empty());
}

#[test]
fn locations_are_unescaped_trimmed_and_checked() {
    let xml = br#"<x:urlset xmlns:x="u">
        <x:url><x:loc>
            https://e.com/?a=1&amp;b=2
        </x:loc><x:lastmod>https://e.com/no</x:lastmod></x:url>
        <x:url><x:loc>not a url</x:loc></x:url>
        <x:url><x:loc>https://e.com/&bogus;</x:loc></x:url>
        <x:url><loc/><x:loc>https://e.com/ok</x:loc></x:url>
    </x:urlset>"#;
    let sm = parse(xml);
    assert_eq!(texts(&sm.pages), vec!["https://e.com/?a=1&b=2", "https://e.com/ok"]);
}

#[test]
fn what_is_no_xml_ends_the_sitemap() {
    let xml = b"<urlset><url><loc>https://e.com/a</loc></url></wrong><url><loc>https://e.com/b</loc>";
    assert_eq!(texts(&parse(xml).pages), vec!["https://e.com/a"]);
    assert!(parse(b"").pages.is_empty());
    assert!(parse(b"plain text").pages.is_empty());
    assert!(parse(b"<urlset>https://e.com/a</urlset>").pages.is_empty());
}

#[test]
fn mixed_documents_are_sorted() {
    let xml = br#"<r><sitemap><loc>https://e.com/s</loc></sitemap>
        <loc>https://e.com/p0</loc>
        <sitemap><url><loc>https://e.com/p1</loc></url></sitemap></r>"#;
    let sm = parse(xml);
    assert_eq!(texts(&sm.sitemaps), vec!["https://e.com/s"]);
    assert_eq!(texts(&sm.pages), vec!["https://e.com/p0", "https://e.com/p1"]);
}

#[test]
fn a_scan_takes_one_event_at_a_time() {
    let mut scan = Scan::new();
    scan.take(&XmlEvent::Text(Some("https://e.com/0".to_string())));
    scan.take(&XmlEvent::Start(b"sitemap".to_vec()));
    scan.take(&XmlEvent::Start(b"loc".to_vec()));
    scan.take(&XmlEvent::Text(Some(" https://e.com/1 ".to_string())));
    scan.take(&XmlEvent::Text(None));
    scan.take(&XmlEvent::End(b"sitemap".to_vec()));
    scan.take(&XmlEvent::Text(Some("https://e.com/2".to_string())));
    scan.take(&XmlEvent::End(b"loc".to_vec()));
    scan.take(&XmlEvent::Other);
    assert!(!scan.in_loc && !scan.in_sitemap_entry);
    assert_eq!(texts(&scan.found.sitemaps), vec!["https://e.com/1"]);
    assert_eq!(texts(&scan.found.pages), vec!["https://e.com/2"]);
    assert_eq!(tag_of(&b"url".to_vec()), Tag::Url);
    assert_eq!(tag_of(&b"sitemap".to_vec()), Tag::Sitemap);
    assert_eq!(tag_of(&b"loc".to_vec()), Tag::Loc);
    assert_eq!(tag_of(&b"Loc".to_vec()), Tag::Unknown);
}

#[test]
fn only_successful_responses_are_read() {
    let body = || Some(b"<url><loc>https://e.com/a</loc></url>".to_vec());
    assert_eq!(parse_response(200, body()).unwrap().pages.len(), 1);
    assert_eq!(parse_response(299, body()).unwrap().pages.len(), 1);
    assert!(parse_response(300, body()).is_none());
    assert!(parse_response(404, body()).is_none());
    assert!(parse_response(199, body()).is_none());
    assert!(parse_response(200, None).is_none());
}

fn urls(names: &[&str]) -> Vec<Url> {
    names.iter().map(|n| Url::parse(&format!("https://e.com/{n}")).unwrap()).collect()
}

#[test]
fn one_level_of_indexes_is_followed() {
    let root = || Some(Sitemap { pages: urls(&["p"]), sitemaps: urls(&["s1", "s2", "s3"]) });
    assert_eq!(children_to_fetch(&root(), 2).len(), 2);
    assert_eq!(children_to_fetch(&root(), 50).len(), 3);
    assert!(children_to_fetch(&None, 50).is_empty());
    let child = Some(Sitemap { pages: urls(&["c1", "c2"]), sitemaps: urls(&["deep"]) });
    let last = Some(Sitemap { pages: urls(&["d"]), sitemaps: vec![] });
    let pages = advertised_pages(root(), vec![child, None, last]);
    assert_eq!(
        texts(&pages),
        vec!["https://e.com/p", "https://e.com/c1", "https://e.com/c2", "https://e.com/d"]
    );
    assert!(advertised_pages(None, vec![]).is_empty());
}
