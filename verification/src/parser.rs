//! HTML parsing: title and link extraction.

use vstd::prelude::*;

use crate::text::{self, trim};
use crate::text_map::TextMap;
use crate::weburl::{self, Url, UrlView};

verus! {

/// The crawl-relevant fields extracted from an HTML document.
#[derive(Debug)]
pub struct ParsedHtml {
    /// Document `<title>`, trimmed, if present and non-empty.
    pub title: Option<String>,
    /// Absolute links discovered in the document, de-duplicated in order.
    pub links: Vec<Url>,
}

/// The content of a [`ParsedHtml`].
pub struct ParsedView {
    pub title: Option<Seq<char>>,
    pub links: Seq<UrlView>,
}

impl View for ParsedHtml {
    type V = ParsedView;

    open spec fn view(&self) -> ParsedView {
        ParsedView {
            title: text::opt_view(self.title),
            links: crate::config::url_views(self.links@),
        }
    }
}

/// What three selectors find in a document: the text of each element that the
/// first selects, and one attribute of each element that the other two select.
pub struct Survey {
    pub titles: Vec<String>,
    pub bases: Vec<Option<String>>,
    pub anchors: Vec<Option<String>>,
}

/// The content of a [`Survey`].
pub struct SurveyView {
    pub titles: Seq<Seq<char>>,
    pub bases: Seq<Option<Seq<char>>>,
    pub anchors: Seq<Option<Seq<char>>>,
}

/// The views of a list of optional texts.
pub open spec fn opt_texts(list: Seq<Option<String>>) -> Seq<Option<Seq<char>>> {
    list.map_values(|s: Option<String>| text::opt_view(s))
}

impl View for Survey {
    type V = SurveyView;

    open spec fn view(&self) -> SurveyView {
        SurveyView {
            titles: text::texts(self.titles@),
            bases: opt_texts(self.bases@),
            anchors: opt_texts(self.anchors@),
        }
    }
}

/// What the `scraper` crate finds in a document with three selectors and one
/// attribute; nothing if a selector is not well-formed.
pub uninterp spec fn html_survey(
    html: Seq<char>,
    title: Seq<char>,
    base: Seq<char>,
    anchor: Seq<char>,
    attribute: Seq<char>,
) -> Option<SurveyView>;

/// The survey that was made, if one was.
pub open spec fn survey_view(s: Option<Survey>) -> Option<SurveyView> {
    match s {
        Some(v) => Some(v@),
        None => None,
    }
}

/// `scraper::Html::parse_document`, `Html::select` and `Selector::parse`, with
/// `ElementRef::text` and `Element::attr` on what is selected. Claimed: what
/// they find is a function of the document, the selectors and the attribute.
/// Only the selectors in use are let in: the crate reads a selector by recursion
/// without a limit on its nesting.
#[verifier::external_body]
fn survey(html: &str, title: &str, base: &str, anchor: &str, attribute: &str) -> (r: Option<Survey>)
    requires
        title@ == "title"@,
        base@ == "base[href]"@,
        anchor@ == "a[href]"@,
        attribute@ == "href"@,
    ensures
        survey_view(r) == html_survey(html@, title@, base@, anchor@, attribute@),
{
    let title = scraper::Selector::parse(title).ok()?;
    let base = scraper::Selector::parse(base).ok()?;
    let anchor = scraper::Selector::parse(anchor).ok()?;
    let document = scraper::Html::parse_document(html);
    let value = |e: scraper::ElementRef| e.value().attr(attribute).map(str::to_owned);
    Some(Survey {
        titles: document.select(&title).map(|e| e.text().collect()).collect(),
        bases: document.select(&base).map(value).collect(),
        anchors: document.select(&anchor).map(value).collect(),
    })
}

/// The first of the titles, trimmed, unless nothing is left of it.
pub open spec fn title_of(titles: Seq<Seq<char>>) -> Option<Seq<char>> {
    if titles.len() > 0 && text::trimmed(titles[0]).len() > 0 {
        Some(text::trimmed(titles[0]))
    } else {
        None
    }
}

/// The document title, out of the texts of all title elements.
pub fn document_title(titles: &Vec<String>) -> (r: Option<String>)
    ensures
        text::opt_view(r) == title_of(text::texts(titles@)),
{
    if titles.len() == 0 {
        return None;
    }
    proof {
        assert(text::texts(titles@)[0] == titles@[0]@);
    }
    let title = trim(titles[0].as_str());
    if title.as_str().is_empty() {
        None
    } else {
        Some(title)
    }
}

/// The texts of a list of URLs.
pub open spec fn url_texts(urls: Seq<UrlView>) -> Seq<Seq<char>> {
    urls.map_values(|u: UrlView| u.text())
}

/// The links worth following: of what the references resolve to, the `http` and
/// `https` URLs without their fragments, each once, in the order of their first
/// mention.
pub open spec fn kept_links(resolved: Seq<Result<UrlView, Seq<char>>>) -> Seq<UrlView>
    decreases resolved.len(),
{
    if resolved.len() == 0 {
        Seq::empty()
    } else {
        let before = kept_links(resolved.drop_last());
        match resolved.last() {
            Ok(u) => if u.is_web() && !url_texts(before).contains(u.without_fragment().text()) {
                before.push(u.without_fragment())
            } else {
                before
            },
            Err(_) => before,
        }
    }
}

/// The outcomes of resolving a list of references, by their views.
pub open spec fn resolutions(list: Seq<Result<Url, String>>) -> Seq<Result<UrlView, Seq<char>>> {
    list.map_values(|r: Result<Url, String>| weburl::resolution(r))
}

/// Keep the links worth following, out of what the references of a document
/// resolve to.
pub fn keep_links(resolved: Vec<Result<Url, String>>) -> (r: Vec<Url>)
    ensures
        crate::config::url_views(r@) == kept_links(resolutions(resolved@)),
{
    let ghost all = resolutions(resolved@);
    let mut links: Vec<Url> = Vec::new();
    let mut seen: TextMap<()> = TextMap::new();
    proof {
        assert(crate::config::url_views(links@) =~= kept_links(all.take(0)));
        assert(seen.keys() =~= url_texts(kept_links(all.take(0))));
    }
    for one in it: resolved
        invariant
            all == resolutions(it.seq()),
            seen.wf(),
            crate::config::url_views(links@) == kept_links(all.take(it.index() as int)),
            seen.keys() == url_texts(kept_links(all.take(it.index() as int))),
    {
        let ghost i = it.index() as int;
        let ghost before = kept_links(all.take(i));
        proof {
            assert(weburl::resolution(one) == all[i]);
            assert(all.take(i + 1).drop_last() =~= all.take(i));
            assert(all.take(i + 1).last() == all[i]);
        }
        if let Ok(found) = one {
            if found.is_web() {
                let mut link = found;
                link.drop_fragment();
                if seen.note(link.text()) {
                    proof {
                        assert(url_texts(before.push(link@)) =~= url_texts(before).push(
                            link@.text(),
                        ));
                    }
                    let ghost v = link@;
                    let ghost was = links@;
                    links.push(link);
                    proof {
                        assert(crate::config::url_views(links@) =~= crate::config::url_views(
                            was,
                        ).push(v));
                    }
                }
            }
        }
    }
    proof {
        assert(all.take(all.len() as int) =~= all);
    }
    links
}

/// The URL against which the links of a document resolve: the page's own, or
/// what its first `base` element makes of it.
pub open spec fn base_of(page: UrlView, bases: Seq<Option<Seq<char>>>) -> UrlView {
    if bases.len() > 0 && bases[0] is Some {
        match weburl::url_resolved(Some(page.text()), bases[0]->0) {
            Ok(u) => u,
            Err(_) => page,
        }
    } else {
        page
    }
}

/// What the references among `anchors` resolve to.
pub open spec fn resolved_anchors(
    base: UrlView,
    anchors: Seq<Option<Seq<char>>>,
) -> Seq<Result<UrlView, Seq<char>>>
    decreases anchors.len(),
{
    if anchors.len() == 0 {
        Seq::empty()
    } else {
        let before = resolved_anchors(base, anchors.drop_last());
        match anchors.last() {
            Some(href) => before.push(weburl::url_resolved(Some(base.text()), href)),
            None => before,
        }
    }
}

/// What a document says, as far as the crawl is concerned.
pub open spec fn read_survey(page: UrlView, s: Option<SurveyView>) -> ParsedView {
    match s {
        Some(v) => ParsedView {
            title: title_of(v.titles),
            links: kept_links(resolved_anchors(base_of(page, v.bases), v.anchors)),
        },
        None => ParsedView { title: None, links: Seq::empty() },
    }
}

/// Turn what was found in the document at `page` into its title and links.
pub fn parse_survey(page: &Url, found: &Survey) -> (r: ParsedHtml)
    ensures
        r@ == read_survey(page@, Some(found@)),
{
    let title = document_title(&found.titles);
    let mut base = page.copy();
    if found.bases.len() > 0 {
        proof {
            assert(opt_texts(found.bases@)[0] == text::opt_view(found.bases@[0]));
        }
        if let Some(href) = &found.bases[0] {
            if let Ok(u) = page.join(href.as_str()) {
                base = u;
            }
        }
    }
    let ghost anchors = found@.anchors;
    let mut resolved: Vec<Result<Url, String>> = Vec::new();
    let mut i: usize = 0;
    proof {
        assert(resolutions(resolved@) =~= resolved_anchors(base@, anchors.take(0)));
    }
    while i < found.anchors.len()
        invariant
            i <= found.anchors@.len(),
            anchors == found@.anchors,
            resolutions(resolved@) == resolved_anchors(base@, anchors.take(i as int)),
        decreases found.anchors.len() - i,
    {
        proof {
            assert(anchors[i as int] == text::opt_view(found.anchors@[i as int]));
            assert(anchors.take(i + 1).drop_last() =~= anchors.take(i as int));
            assert(anchors.take(i + 1).last() == anchors[i as int]);
        }
        if let Some(href) = &found.anchors[i] {
            let ghost was = resolved@;
            let one = base.join(href.as_str());
            let ghost v = weburl::resolution(one);
            resolved.push(one);
            proof {
                assert(resolutions(resolved@) =~= resolutions(was).push(v));
            }
        }
        i += 1;
    }
    proof {
        assert(anchors.take(i as int) =~= anchors);
    }
    ParsedHtml { title, links: keep_links(resolved) }
}

/// What the document `html` at `page` says.
pub open spec fn parsed(page: UrlView, html: Seq<char>) -> ParsedView {
    read_survey(page, html_survey(html, "title"@, "base[href]"@, "a[href]"@, "href"@))
}

/// Parse `html`, resolving links relative to `base`.
///
/// A `<base href>` element, if present and valid, overrides `base` for link
/// resolution, matching browser behavior. Non-navigational schemes
/// (`mailto:`, `javascript:`, `tel:`, `data:`, ...) are discarded; only
/// `http`/`https` links are returned.
pub fn parse_html(base: &Url, html: &str) -> (r: ParsedHtml)
    ensures
        r@ == parsed(base@, html@),
{
    match survey(html, "title", "base[href]", "a[href]", "href") {
        Some(found) => parse_survey(base, &found),
        None => {
            let links: Vec<Url> = Vec::new();
            proof {
                assert(crate::config::url_views(links@) =~= Seq::empty());
            }
            ParsedHtml { title: None, links }
        },
    }
}

/// The links of a document are `http` or `https` URLs without fragments, and no
/// two of them are the same.
pub proof fn kept_links_are_clean(resolved: Seq<Result<UrlView, Seq<char>>>)
    ensures
        forall|i: int|
            0 <= i < kept_links(resolved).len() ==> {
                let u = #[trigger] kept_links(resolved)[i];
                u.is_web() && u.fragment is None
            },
        url_texts(kept_links(resolved)).no_duplicates(),
    decreases resolved.len(),
{
    if resolved.len() > 0 {
        let before = kept_links(resolved.drop_last());
        kept_links_are_clean(resolved.drop_last());
        let after = kept_links(resolved);
        if after != before {
            let u = resolved.last()->Ok_0.without_fragment();
            assert(url_texts(after) =~= url_texts(before).push(u.text()));
            assert forall|i: int, j: int|
                0 <= i < after.len() && 0 <= j < after.len() && i != j implies url_texts(after)[i]
                != url_texts(after)[j] by {
                if i == before.len() {
                    assert(url_texts(before)[j] == url_texts(after)[j]);
                } else if j == before.len() {
                    assert(url_texts(before)[i] == url_texts(after)[i]);
                }
            }
        }
    }
}

/// No link is lost: every `http` or `https` URL that a reference resolves to is
/// among the links, without its fragment.
pub proof fn kept_links_are_complete(resolved: Seq<Result<UrlView, Seq<char>>>, i: int)
    requires
        0 <= i < resolved.len(),
        resolved[i] matches Ok(u) && u.is_web(),
    ensures
        url_texts(kept_links(resolved)).contains(resolved[i]->Ok_0.without_fragment().text()),
    decreases resolved.len(),
{
    let before = kept_links(resolved.drop_last());
    let after = kept_links(resolved);
    let x = resolved[i]->Ok_0.without_fragment().text();
    if i < resolved.len() - 1 {
        assert(resolved.drop_last()[i] == resolved[i]);
        kept_links_are_complete(resolved.drop_last(), i);
    }
    if url_texts(before).contains(x) {
        let k = url_texts(before).index_of(x);
        assert(url_texts(after)[k] == url_texts(before)[k]);
    } else {
        assert(url_texts(after)[before.len() as int] == x);
    }
}

/// Whether anchor `i` refers to the `http` or `https` page with text `x`, where
/// the fragment of a reference does not count.
pub open spec fn refers(base: UrlView, anchors: Seq<Option<Seq<char>>>, i: int, x: Seq<char>) -> bool {
    &&& 0 <= i < anchors.len()
    &&& anchors[i] matches Some(href)
    &&& weburl::url_resolved(Some(base.text()), href) matches Ok(u)
    &&& u.scheme == "http"@ || u.scheme == "https"@
    &&& x == u.without_fragment().text()
}

/// The links that a list of anchors comes to.
spec fn links_of(base: UrlView, anchors: Seq<Option<Seq<char>>>) -> Seq<UrlView> {
    kept_links(resolved_anchors(base, anchors))
}

/// What the last anchor adds to the links.
proof fn one_more_anchor(base: UrlView, anchors: Seq<Option<Seq<char>>>)
    requires
        anchors.len() > 0,
    ensures
        links_of(base, anchors) == match anchors.last() {
            Some(href) => match weburl::url_resolved(Some(base.text()), href) {
                Ok(u) => if u.is_web() && !url_texts(links_of(base, anchors.drop_last())).contains(
                    u.without_fragment().text(),
                ) {
                    links_of(base, anchors.drop_last()).push(u.without_fragment())
                } else {
                    links_of(base, anchors.drop_last())
                },
                Err(_) => links_of(base, anchors.drop_last()),
            },
            None => links_of(base, anchors.drop_last()),
        },
{
    let before = resolved_anchors(base, anchors.drop_last());
    match anchors.last() {
        Some(href) => {
            let r = weburl::url_resolved(Some(base.text()), href);
            assert(before.push(r).drop_last() =~= before);
            assert(before.push(r).last() == r);
        },
        None => {},
    }
}

/// Where a text stands among those of a list of URLs.
proof fn place_of_text(urls: Seq<UrlView>, x: Seq<char>) -> (k: int)
    requires
        url_texts(urls).contains(x),
    ensures
        0 <= k < urls.len(),
        urls[k].text() == x,
{
    let k = choose|k: int| 0 <= k < url_texts(urls).len() && url_texts(urls)[k] == x;
    assert(url_texts(urls)[k] == urls[k].text());
    k
}

proof fn anchors_become_links(
    base: UrlView,
    anchors: Seq<Option<Seq<char>>>,
    i: int,
    x: Seq<char>,
) -> (k: int)
    requires
        refers(base, anchors, i, x),
    ensures
        0 <= k < links_of(base, anchors).len(),
        links_of(base, anchors)[k].text() == x,
    decreases anchors.len(),
{
    let rest = anchors.drop_last();
    let before = links_of(base, rest);
    one_more_anchor(base, anchors);
    if i < rest.len() {
        assert(rest[i] == anchors[i]);
        let k = anchors_become_links(base, rest, i, x);
        assert(links_of(base, anchors)[k] == before[k]);
        k
    } else {
        let u = weburl::url_resolved(Some(base.text()), anchors[i]->0)->Ok_0;
        assert(anchors.last() == Some(anchors[i]->0));
        if url_texts(before).contains(x) {
            place_of_text(before, x)
        } else {
            before.len() as int
        }
    }
}

proof fn links_come_from_anchors(base: UrlView, anchors: Seq<Option<Seq<char>>>, k: int) -> (i: int)
    requires
        0 <= k < links_of(base, anchors).len(),
    ensures
        refers(base, anchors, i, links_of(base, anchors)[k].text()),
        links_of(base, anchors)[k] == weburl::url_resolved(
            Some(base.text()),
            anchors[i]->0,
        )->Ok_0.without_fragment(),
    decreases anchors.len(),
{
    if anchors.len() == 0 {
        0
    } else {
        let rest = anchors.drop_last();
        one_more_anchor(base, anchors);
        if k < links_of(base, rest).len() {
            let i = links_come_from_anchors(base, rest, k);
            assert(rest[i] == anchors[i]);
            i
        } else {
            anchors.len() - 1
        }
    }
}

/// No anchor is lost: every reference of a document that resolves, against the
/// document's base, to an `http` or `https` URL is among its links, without its
/// fragment, however the reference is written.
pub proof fn no_anchor_is_lost(page: UrlView, v: SurveyView, i: int)
    requires
        0 <= i < v.anchors.len(),
        v.anchors[i] is Some,
        weburl::url_resolved(Some(base_of(page, v.bases).text()), v.anchors[i]->0) matches Ok(u)
            && (u.scheme == "http"@ || u.scheme == "https"@),
    ensures
        ({
            let links = read_survey(page, Some(v)).links;
            let u = weburl::url_resolved(
                Some(base_of(page, v.bases).text()),
                v.anchors[i]->0,
            )->Ok_0;
            &&& exists|k: int|
                0 <= k < links.len() && (#[trigger] links[k]).text()
                    == u.without_fragment().text()
            &&& url_texts(links).contains(u.without_fragment().text())
        }),
{
    let base = base_of(page, v.bases);
    let u = weburl::url_resolved(Some(base.text()), v.anchors[i]->0)->Ok_0;
    let links = read_survey(page, Some(v)).links;
    let k = anchors_become_links(base, v.anchors, i, u.without_fragment().text());
    assert(links[k].text() == u.without_fragment().text());
    assert(url_texts(links)[k] == links[k].text());
}

/// Every link of a document comes from one of its anchors: the reference
/// resolves, against the document's base, to an `http` or `https` URL, which the
/// link is without its fragment.
pub proof fn every_link_has_an_anchor(page: UrlView, v: SurveyView, k: int)
    requires
        0 <= k < read_survey(page, Some(v)).links.len(),
    ensures
        exists|i: int|
            {
                &&& 0 <= i < v.anchors.len()
                &&& #[trigger] v.anchors[i] matches Some(href)
                &&& weburl::url_resolved(Some(base_of(page, v.bases).text()), href) matches Ok(u)
                &&& u.scheme == "http"@ || u.scheme == "https"@
                &&& read_survey(page, Some(v)).links[k] == u.without_fragment()
            },
{
    let i = links_come_from_anchors(base_of(page, v.bases), v.anchors, k);
    assert(v.anchors[i] is Some);
}

proof fn links_are_ordered(
    base: UrlView,
    anchors: Seq<Option<Seq<char>>>,
    k: int,
    l: int,
    j: int,
) -> (i: int)
    requires
        0 <= k < l < links_of(base, anchors).len(),
        refers(base, anchors, j, links_of(base, anchors)[l].text()),
    ensures
        i < j,
        refers(base, anchors, i, links_of(base, anchors)[k].text()),
    decreases anchors.len(),
{
    let rest = anchors.drop_last();
    let before = links_of(base, rest);
    let after = links_of(base, anchors);
    one_more_anchor(base, anchors);
    assert(k < before.len());
    assert(after[k] == before[k]);
    if j < rest.len() {
        assert(rest[j] == anchors[j]);
        if l >= before.len() {
            let m = anchors_become_links(base, rest, j, after[l].text());
            assert(url_texts(before)[m] == after[l].text());
            assert(url_texts(before).contains(after[l].text()));
        }
        let i = links_are_ordered(base, rest, k, l, j);
        assert(rest[i] == anchors[i]);
        i
    } else {
        let i = links_come_from_anchors(base, rest, k);
        assert(rest[i] == anchors[i]);
        i
    }
}

/// Links keep the order in which a document mentions them first, and none is
/// listed twice: an earlier link is mentioned before any mention of a later one.
pub proof fn links_keep_their_order(page: UrlView, v: SurveyView, k: int, l: int, j: int)
    requires
        0 <= k < l < read_survey(page, Some(v)).links.len(),
        refers(
            base_of(page, v.bases),
            v.anchors,
            j,
            read_survey(page, Some(v)).links[l].text(),
        ),
    ensures
        exists|i: int|
            i < j && #[trigger] refers(
                base_of(page, v.bases),
                v.anchors,
                i,
                read_survey(page, Some(v)).links[k].text(),
            ),
        read_survey(page, Some(v)).links[k].text() != read_survey(page, Some(v)).links[l].text(),
{
    let base = base_of(page, v.bases);
    let links = read_survey(page, Some(v)).links;
    let i = links_are_ordered(base, v.anchors, k, l, j);
    kept_links_are_clean(resolved_anchors(base, v.anchors));
    assert(url_texts(links)[k] == links[k].text());
    assert(url_texts(links)[l] == links[l].text());
}

/// The first `base` element with a reference that resolves is what links are
/// resolved against, and else the page itself.
pub proof fn links_resolve_against_the_base(
    page: UrlView,
    href: Seq<char>,
    bases: Seq<Option<Seq<char>>>,
    u: UrlView,
)
    ensures
        base_of(page, Seq::empty()) == page,
        bases.len() > 0 && bases[0] is None ==> base_of(page, bases) == page,
        bases.len() > 0 && bases[0] == Some(href) && weburl::url_resolved(
            Some(page.text()),
            href,
        ) == Ok::<UrlView, Seq<char>>(u) ==> base_of(page, bases) == u,
        bases.len() > 0 && bases[0] == Some(href) && weburl::url_resolved(
            Some(page.text()),
            href,
        ) is Err ==> base_of(page, bases) == page,
{
}

/// The title of a document is the text of its first title element without the
/// space around it, unless nothing is left; a document that cannot be searched
/// has neither title nor links.
pub proof fn titles_are_trimmed(page: UrlView, v: SurveyView)
    ensures
        v.titles.len() == 0 ==> read_survey(page, Some(v)).title is None,
        v.titles.len() > 0 && text::trimmed(v.titles[0]).len() == 0 ==> read_survey(
            page,
            Some(v),
        ).title is None,
        v.titles.len() > 0 && text::trimmed(v.titles[0]).len() > 0 ==> read_survey(
            page,
            Some(v),
        ).title == Some(text::trimmed(v.titles[0])),
        read_survey(page, None).title is None,
        read_survey(page, None).links.len() == 0,
{
}

/// A document is searched for `title`, `base[href]` and `a[href]`, by their
/// `href`.
pub proof fn documents_are_searched(page: UrlView, html: Seq<char>)
    ensures
        parsed(page, html) == read_survey(
            page,
            html_survey(html, "title"@, "base[href]"@, "a[href]"@, "href"@),
        ),
{
}

/// Surveys show what stands in them, place by place.
pub proof fn surveys_show_what_they_hold(s: Survey, i: int)
    ensures
        s@.titles.len() == s.titles@.len(),
        s@.bases.len() == s.bases@.len(),
        s@.anchors.len() == s.anchors@.len(),
        0 <= i < s.titles@.len() ==> s@.titles[i] == s.titles@[i]@,
        0 <= i < s.bases@.len() ==> (s@.bases[i] is Some <==> s.bases@[i] is Some),
        0 <= i < s.anchors@.len() ==> (s@.anchors[i] is Some <==> s.anchors@[i] is Some),
        0 <= i < s.bases@.len() && s.bases@[i] is Some ==> s@.bases[i] == Some(s.bases@[i]->0@),
        0 <= i < s.anchors@.len() && s.anchors@[i] is Some ==> s@.anchors[i] == Some(
            s.anchors@[i]->0@,
        ),
{
}

} // verus!
