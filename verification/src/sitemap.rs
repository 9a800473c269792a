//! Minimal sitemap parsing, used to seed a crawl from `sitemap.xml`.
//!
//! Supports both `<urlset>` (a list of pages) and `<sitemapindex>` (a list of
//! other sitemaps). One level of indexes is followed, so that the common
//! "index → child sitemaps → URLs" layout works out of the box.

use vstd::prelude::*;

use crate::text::{self, trim};
use crate::weburl::{self, Url, UrlView};

verus! {

/// `<loc>` entries split by which container they appeared in.
#[derive(Debug)]
pub struct Sitemap {
    /// Page URLs from a `<urlset>`.
    pub pages: Vec<Url>,
    /// Nested sitemap URLs from a `<sitemapindex>`.
    pub sitemaps: Vec<Url>,
}

/// The content of a [`Sitemap`].
pub struct SitemapView {
    pub pages: Seq<UrlView>,
    pub sitemaps: Seq<UrlView>,
}

impl View for Sitemap {
    type V = SitemapView;

    open spec fn view(&self) -> SitemapView {
        SitemapView {
            pages: crate::config::url_views(self.pages@),
            sitemaps: crate::config::url_views(self.sitemaps@),
        }
    }
}

/// A piece of an XML document, as far as sitemaps are concerned.
pub enum XmlEvent {
    /// An opening tag, by the name behind its namespace prefix.
    Start(Vec<u8>),
    /// A closing tag, by the name behind its namespace prefix.
    End(Vec<u8>),
    /// Text with its references resolved; none if one cannot be resolved.
    Text(Option<String>),
    /// Anything else.
    Other,
    /// The end of the document, or the place where it stops being XML.
    Stop,
}

/// The content of an [`XmlEvent`].
pub enum XmlEventView {
    Start(Seq<u8>),
    End(Seq<u8>),
    Text(Option<Seq<char>>),
    Other,
    Stop,
}

impl View for XmlEvent {
    type V = XmlEventView;

    open spec fn view(&self) -> XmlEventView {
        match self {
            XmlEvent::Start(name) => XmlEventView::Start(name@),
            XmlEvent::End(name) => XmlEventView::End(name@),
            XmlEvent::Text(t) => XmlEventView::Text(text::opt_view(*t)),
            XmlEvent::Other => XmlEventView::Other,
            XmlEvent::Stop => XmlEventView::Stop,
        }
    }
}

/// The event reader of the `quick_xml` crate, carried as it is.
#[verifier::external_type_specification]
#[verifier::external_body]
#[verifier::reject_recursive_types(R)]
pub struct ExReader<R>(quick_xml::Reader<R>);

/// The events that a reader will deliver before it comes to the end of its
/// document or to an error.
pub uninterp spec fn pending(reader: quick_xml::Reader<&[u8]>) -> Seq<XmlEventView>;

/// The events that the `quick_xml` crate finds in a document, with the space
/// around text removed, up to its end or the first error.
pub uninterp spec fn xml_events(document: Seq<u8>) -> Seq<XmlEventView>;

/// `quick_xml::Reader::from_reader`, set to trim text. Claimed: the events that
/// the reader will deliver are a function of the document.
#[verifier::external_body]
fn open_xml(document: &[u8]) -> (r: quick_xml::Reader<&[u8]>)
    ensures
        pending(r) == xml_events(document@),
{
    let mut reader = quick_xml::Reader::from_reader(document);
    reader.config_mut().trim_text(true);
    reader
}

/// `quick_xml::Reader::read_event_into`, with `BytesText::unescape` on text.
/// Claimed: it delivers the first of the pending events and leaves the others;
/// where none is pending it reports the end or an error. What the reader holds
/// after that is left open.
#[verifier::external_body]
fn next_event(reader: &mut quick_xml::Reader<&[u8]>) -> (r: XmlEvent)
    ensures
        r is Stop <==> pending(*old(reader)).len() == 0,
        r !is Stop ==> r@ == pending(*old(reader))[0] && pending(*final(reader)) == pending(
            *old(reader),
        ).drop_first(),
{
    match reader.read_event_into(&mut Vec::new()) {
        Ok(quick_xml::events::Event::Start(e)) => XmlEvent::Start(e.local_name().as_ref().to_vec()),
        Ok(quick_xml::events::Event::End(e)) => XmlEvent::End(e.local_name().as_ref().to_vec()),
        Ok(quick_xml::events::Event::Text(t)) => XmlEvent::Text(t.unescape().ok().map(|s| s.into())),
        Ok(quick_xml::events::Event::Eof) => XmlEvent::Stop,
        Err(_) => XmlEvent::Stop,
        Ok(_) => XmlEvent::Other,
    }
}

/// The tags that matter.
#[derive(Clone, Copy, PartialEq, Eq, Structural, Debug)]
pub enum Tag {
    Loc,
    Sitemap,
    Url,
    Unknown,
}

/// The tag that a name spells.
pub open spec fn tag_named(name: Seq<u8>) -> Tag {
    if name == seq![0x6cu8, 0x6f, 0x63] {
        Tag::Loc
    } else if name == seq![0x73u8, 0x69, 0x74, 0x65, 0x6d, 0x61, 0x70] {
        Tag::Sitemap
    } else if name == seq![0x75u8, 0x72, 0x6c] {
        Tag::Url
    } else {
        Tag::Unknown
    }
}

/// The tag that a name spells: `loc`, `sitemap`, `url`, or none of these.
pub fn tag_of(name: &Vec<u8>) -> (r: Tag)
    ensures
        r == tag_named(name@),
{
    let tag = if name.len() == 3 && name[0] == 0x6c && name[1] == 0x6f && name[2] == 0x63 {
        Tag::Loc
    } else if name.len() == 3 && name[0] == 0x75 && name[1] == 0x72 && name[2] == 0x6c {
        Tag::Url
    } else if name.len() == 7 && name[0] == 0x73 && name[1] == 0x69 && name[2] == 0x74 && name[3]
        == 0x65 && name[4] == 0x6d && name[5] == 0x61 && name[6] == 0x70 {
        Tag::Sitemap
    } else {
        Tag::Unknown
    };
    proof {
        let loc = seq![0x6cu8, 0x6f, 0x63];
        let sitemap = seq![0x73u8, 0x69, 0x74, 0x65, 0x6d, 0x61, 0x70];
        let url = seq![0x75u8, 0x72, 0x6c];
        assert(loc[0] == 0x6c && loc[1] == 0x6f && loc[2] == 0x63);
        assert(url[0] == 0x75 && url[1] == 0x72 && url[2] == 0x6c);
        assert(sitemap[0] == 0x73 && sitemap[1] == 0x69 && sitemap[2] == 0x74 && sitemap[3] == 0x65
            && sitemap[4] == 0x6d && sitemap[5] == 0x61 && sitemap[6] == 0x70);
        assert(tag is Loc ==> name@ =~= loc);
        assert(tag is Url ==> name@ =~= url);
        assert(tag is Sitemap ==> name@ =~= sitemap);
    }
    tag
}

/// A scan of a sitemap: what was found so far, and where in the document the
/// scan stands.
pub struct Scan {
    pub found: Sitemap,
    /// Whether the scan is inside a `<loc>`.
    pub in_loc: bool,
    /// Whether the nearest container is a `<sitemap>` (index) or a `<url>`.
    pub in_sitemap_entry: bool,
}

/// The state of a [`Scan`].
pub struct ScanView {
    pub found: SitemapView,
    pub in_loc: bool,
    pub in_sitemap_entry: bool,
}

impl View for Scan {
    type V = ScanView;

    open spec fn view(&self) -> ScanView {
        ScanView {
            found: self.found@,
            in_loc: self.in_loc,
            in_sitemap_entry: self.in_sitemap_entry,
        }
    }
}

impl ScanView {
    /// A scan that has seen nothing yet.
    pub open spec fn fresh() -> ScanView {
        ScanView {
            found: SitemapView { pages: Seq::empty(), sitemaps: Seq::empty() },
            in_loc: false,
            in_sitemap_entry: false,
        }
    }

    /// The state after a location was found.
    pub open spec fn filed(self, u: UrlView) -> ScanView {
        let found = if self.in_sitemap_entry {
            SitemapView { sitemaps: self.found.sitemaps.push(u), ..self.found }
        } else {
            SitemapView { pages: self.found.pages.push(u), ..self.found }
        };
        ScanView { found, ..self }
    }

    /// The state after `e`. Text inside a `<loc>` is a location if it is a URL;
    /// other text, and a location that is no URL, changes nothing.
    pub open spec fn after(self, e: XmlEventView) -> ScanView {
        match e {
            XmlEventView::Start(name) => match tag_named(name) {
                Tag::Loc => ScanView { in_loc: true, ..self },
                Tag::Sitemap => ScanView { in_sitemap_entry: true, ..self },
                Tag::Url => ScanView { in_sitemap_entry: false, ..self },
                Tag::Unknown => self,
            },
            XmlEventView::End(name) => match tag_named(name) {
                Tag::Loc => ScanView { in_loc: false, ..self },
                Tag::Sitemap => ScanView { in_sitemap_entry: false, ..self },
                _ => self,
            },
            XmlEventView::Text(Some(t)) => if self.in_loc {
                match weburl::url_resolved(None, text::trimmed(t)) {
                    Ok(u) => self.filed(u),
                    Err(_) => self,
                }
            } else {
                self
            },
            _ => self,
        }
    }

    /// The state after all of `events`, in order.
    pub open spec fn run(self, events: Seq<XmlEventView>) -> ScanView
        decreases events.len(),
    {
        if events.len() == 0 {
            self
        } else {
            self.after(events[0]).run(events.drop_first())
        }
    }
}

impl Scan {
    /// A scan that has seen nothing yet.
    pub fn new() -> (r: Self)
        ensures
            r@ == ScanView::fresh(),
    {
        let r = Scan {
            found: Sitemap { pages: Vec::new(), sitemaps: Vec::new() },
            in_loc: false,
            in_sitemap_entry: false,
        };
        proof {
            assert(r@.found.pages =~= Seq::empty());
            assert(r@.found.sitemaps =~= Seq::empty());
        }
        r
    }

    /// File a location under the container that it was found in.
    pub fn file(&mut self, url: Url)
        ensures
            final(self)@ == old(self)@.filed(url@),
    {
        let ghost before = *self;
        let ghost u = url@;
        if self.in_sitemap_entry {
            self.found.sitemaps.push(url);
            proof {
                assert(self@.found.sitemaps =~= before@.found.sitemaps.push(u));
            }
        } else {
            self.found.pages.push(url);
            proof {
                assert(self@.found.pages =~= before@.found.pages.push(u));
            }
        }
    }

    /// Take note of the next event of the document.
    pub fn take(&mut self, e: &XmlEvent)
        ensures
            final(self)@ == old(self)@.after(e@),
    {
        match e {
            XmlEvent::Start(name) => match tag_of(name) {
                Tag::Loc => {
                    self.in_loc = true;
                },
                Tag::Sitemap => {
                    self.in_sitemap_entry = true;
                },
                Tag::Url => {
                    self.in_sitemap_entry = false;
                },
                Tag::Unknown => {},
            },
            XmlEvent::End(name) => match tag_of(name) {
                Tag::Loc => {
                    self.in_loc = false;
                },
                Tag::Sitemap => {
                    self.in_sitemap_entry = false;
                },
                _ => {},
            },
            XmlEvent::Text(Some(t)) => {
                if self.in_loc {
                    let location = trim(t.as_str());
                    if let Ok(url) = Url::parse(location.as_str()) {
                        self.file(url);
                    }
                }
            },
            _ => {},
        }
    }
}

/// What the sitemap `document` says.
pub open spec fn sitemap_of(document: Seq<u8>) -> SitemapView {
    ScanView::fresh().run(xml_events(document)).found
}

/// Parse sitemap XML bytes. Invalid `<loc>` values are skipped.
pub fn parse(bytes: &[u8]) -> (r: Sitemap)
    ensures
        r@ == sitemap_of(bytes@),
{
    let mut reader = open_xml(bytes);
    let mut scan = Scan::new();
    loop
        invariant_except_break
            scan@.run(pending(reader)) == ScanView::fresh().run(xml_events(bytes@)),
        ensures
            scan@.found == sitemap_of(bytes@),
        decreases pending(reader).len(),
    {
        let event = next_event(&mut reader);
        if let XmlEvent::Stop = event {
            break;
        }
        scan.take(&event);
    }
    scan.found
}

/// Whether an HTTP status reports success.
pub open spec fn succeeded(status: u16) -> bool {
    200 <= status < 300
}

/// The sitemap in a response: none unless the status reports success and the
/// body arrived.
pub fn parse_response(status: u16, body: Option<Vec<u8>>) -> (r: Option<Sitemap>)
    ensures
        r is Some <==> succeeded(status) && body is Some,
        r is Some <==> 200 <= status < 300 && body is Some,
        r matches Some(s) ==> s@ == sitemap_of(body->0@),
{
    match body {
        Some(bytes) => if status >= 200 && status < 300 {
            Some(parse(bytes.as_slice()))
        } else {
            None
        },
        None => None,
    }
}

/// The children of an index to be fetched: the first `max_sitemaps` of them,
/// so that a hostile index cannot blow up the crawl.
pub fn children_to_fetch(root: &Option<Sitemap>, max_sitemaps: usize) -> (r: Vec<Url>)
    ensures
        crate::config::url_views(r@) == match root {
            Some(s) => s@.sitemaps.take(
                if max_sitemaps < s@.sitemaps.len() {
                    max_sitemaps as int
                } else {
                    s@.sitemaps.len() as int
                },
            ),
            None => Seq::<UrlView>::empty(),
        },
        r@.len() <= max_sitemaps,
{
    let mut out: Vec<Url> = Vec::new();
    if let Some(s) = root {
        let mut i: usize = 0;
        while i < s.sitemaps.len() && i < max_sitemaps
            invariant
                i <= s.sitemaps@.len(),
                i <= max_sitemaps,
                out@.len() == i,
                forall|k: int| 0 <= k < i ==> (#[trigger] out@[k])@ == s.sitemaps@[k]@,
            decreases s.sitemaps.len() - i,
        {
            out.push(s.sitemaps[i].copy());
            i += 1;
        }
        proof {
            assert(crate::config::url_views(out@) =~= s@.sitemaps.take(i as int));
        }
    } else {
        proof {
            assert(crate::config::url_views(out@) =~= Seq::<UrlView>::empty());
        }
    }
    out
}

/// The pages of those of `children` that could be read, in order.
pub open spec fn pages_of(children: Seq<Option<Sitemap>>) -> Seq<UrlView>
    decreases children.len(),
{
    if children.len() == 0 {
        Seq::empty()
    } else {
        let before = pages_of(children.drop_last());
        match children.last() {
            Some(s) => before + s@.pages,
            None => before,
        }
    }
}

/// The pages that a sitemap and its children advertise, the sitemap's own
/// first; none if the sitemap could not be read. A child that could not be read
/// is passed over.
pub fn advertised_pages(root: Option<Sitemap>, children: Vec<Option<Sitemap>>) -> (r: Vec<Url>)
    ensures
        crate::config::url_views(r@) == match root {
            Some(s) => s@.pages + pages_of(children@),
            None => Seq::<UrlView>::empty(),
        },
{
    match root {
        Some(s) => {
            let ghost own = s@.pages;
            let mut pages = s.pages;
            proof {
                assert(crate::config::url_views(pages@) =~= own + pages_of(children@.take(0)));
            }
            for child in it: children
                invariant
                    crate::config::url_views(pages@) == own + pages_of(
                        it.seq().take(it.index() as int),
                    ),
            {
                let ghost i = it.index() as int;
                proof {
                    assert(it.seq().take(i + 1).drop_last() =~= it.seq().take(i));
                    assert(it.seq().take(i + 1).last() == child);
                }
                if let Some(s) = child {
                    let ghost before = pages@;
                    let ghost more = s.pages@;
                    let mut theirs = s.pages;
                    pages.append(&mut theirs);
                    proof {
                        assert(crate::config::url_views(before + more)
                            =~= crate::config::url_views(before) + crate::config::url_views(more));
                        assert(crate::config::url_views(pages@) =~= own + pages_of(
                            it.seq().take(i + 1),
                        ));
                    }
                }
            }
            proof {
                assert(children@.take(children@.len() as int) =~= children@);
            }
            pages
        },
        None => {
            let none: Vec<Url> = Vec::new();
            proof {
                assert(crate::config::url_views(none@) =~= Seq::<UrlView>::empty());
            }
            none
        },
    }
}

/// Without an index entry there are no nested sitemaps: if no `<sitemap>` tag
/// opens, every location is a page.
pub proof fn pages_stay_pages(s: ScanView, events: Seq<XmlEventView>)
    requires
        !s.in_sitemap_entry,
        forall|i: int|
            0 <= i < events.len() ==> !(#[trigger] events[i] matches XmlEventView::Start(name)
                && tag_named(name) is Sitemap),
    ensures
        s.run(events).found.sitemaps == s.found.sitemaps,
    decreases events.len(),
{
    if events.len() > 0 {
        let rest = events.drop_first();
        assert forall|i: int| 0 <= i < rest.len() implies !(#[trigger] rest[i] matches
        XmlEventView::Start(name) && tag_named(name) is Sitemap) by {
            assert(rest[i] == events[i + 1]);
        }
        assert(!(events[0] matches XmlEventView::Start(name) && tag_named(name) is Sitemap));
        pages_stay_pages(s.after(events[0]), rest);
    }
}

/// Only text inside a `<loc>` adds anything: a document without one advertises
/// nothing.
pub proof fn only_locations_count(s: ScanView, events: Seq<XmlEventView>)
    requires
        !s.in_loc,
        forall|i: int|
            0 <= i < events.len() ==> !(#[trigger] events[i] matches XmlEventView::Start(name)
                && tag_named(name) is Loc),
    ensures
        s.run(events).found == s.found,
    decreases events.len(),
{
    if events.len() > 0 {
        let rest = events.drop_first();
        assert forall|i: int| 0 <= i < rest.len() implies !(#[trigger] rest[i] matches
        XmlEventView::Start(name) && tag_named(name) is Loc) by {
            assert(rest[i] == events[i + 1]);
        }
        assert(!(events[0] matches XmlEventView::Start(name) && tag_named(name) is Loc));
        only_locations_count(s.after(events[0]), rest);
    }
}

/// Whether the bytes of a tag's name spell `name`.
pub open spec fn spells(bytes: Seq<u8>, name: Seq<char>) -> bool {
    bytes.len() == name.len() && forall|i: int|
        0 <= i < name.len() ==> #[trigger] bytes[i] as int == name[i] as int
}

/// The tags that matter are `loc`, `sitemap` and `url`, spelled just so.
pub proof fn tags_go_by_their_names(name: Seq<u8>)
    ensures
        tag_named(name) is Loc <==> spells(name, "loc"@),
        tag_named(name) is Sitemap <==> spells(name, "sitemap"@),
        tag_named(name) is Url <==> spells(name, "url"@),
{
    reveal_strlit("loc");
    reveal_strlit("sitemap");
    reveal_strlit("url");
    let loc = seq![0x6cu8, 0x6f, 0x63];
    let sitemap = seq![0x73u8, 0x69, 0x74, 0x65, 0x6d, 0x61, 0x70];
    let url = seq![0x75u8, 0x72, 0x6c];
    assert(spells(loc, "loc"@));
    assert(spells(sitemap, "sitemap"@));
    assert(spells(url, "url"@));
    if spells(name, "loc"@) {
        assert(name =~= loc);
    }
    if spells(name, "sitemap"@) {
        assert(name =~= sitemap);
        assert(sitemap.len() == 7 && loc.len() == 3);
    }
    if spells(name, "url"@) {
        assert(name =~= url);
        assert(url[0] != loc[0]);
        assert(sitemap.len() == 7 && url.len() == 3);
    }
}

/// Whether `e` opens a tag called `name`.
pub open spec fn opens(e: XmlEventView, name: Seq<char>) -> bool {
    e matches XmlEventView::Start(n) && spells(n, name)
}

/// Whether `e` closes a tag called `name`.
pub open spec fn closes(e: XmlEventView, name: Seq<char>) -> bool {
    e matches XmlEventView::End(n) && spells(n, name)
}

/// Whether event `j` opened a `<loc>` that is open at `i`.
pub open spec fn within_loc(events: Seq<XmlEventView>, j: int, i: int) -> bool {
    &&& 0 <= j < i
    &&& opens(events[j], "loc"@)
    &&& forall|k: int| j < k < i ==> !closes(#[trigger] events[k], "loc"@)
}

/// Whether event `j` opened a `<sitemap>` that is the nearest container at `i`:
/// neither was it closed since, nor did a `<url>` open.
pub open spec fn within_sitemap(events: Seq<XmlEventView>, j: int, i: int) -> bool {
    &&& 0 <= j < i
    &&& opens(events[j], "sitemap"@)
    &&& forall|k: int|
        j < k < i ==> !closes(#[trigger] events[k], "sitemap"@) && !opens(events[k], "url"@)
}

/// Whether event `i` is a location in a sitemap or an index, and which.
pub open spec fn locates(events: Seq<XmlEventView>, i: int, nested: bool, u: UrlView) -> bool {
    &&& 0 <= i < events.len()
    &&& exists|j: int| #[trigger] within_loc(events, j, i)
    &&& nested <==> exists|j: int| #[trigger] within_sitemap(events, j, i)
    &&& events[i] matches XmlEventView::Text(Some(t))
    &&& weburl::url_resolved(None, text::trimmed(t)) == Ok::<UrlView, Seq<char>>(u)
}

/// A run ends with its last event.
proof fn run_ends_with_the_last(s: ScanView, events: Seq<XmlEventView>)
    requires
        events.len() > 0,
    ensures
        s.run(events) == s.run(events.drop_last()).after(events.last()),
    decreases events.len(),
{
    if events.len() == 1 {
        assert(events.drop_last() =~= Seq::<XmlEventView>::empty());
        assert(events.drop_first() =~= Seq::<XmlEventView>::empty());
        assert(s.run(events) == s.after(events[0]).run(events.drop_first()));
    } else {
        run_ends_with_the_last(s.after(events[0]), events.drop_first());
        assert(events.drop_first().drop_last() =~= events.drop_last().drop_first());
    }
}

/// What a scan from the start knows of where it stands.
proof fn place_is_known(events: Seq<XmlEventView>, i: int)
    requires
        0 <= i <= events.len(),
    ensures
        ScanView::fresh().run(events.take(i)).in_loc <==> exists|j: int| #[trigger]
            within_loc(events, j, i),
        ScanView::fresh().run(events.take(i)).in_sitemap_entry <==> exists|j: int| #[trigger]
            within_sitemap(events, j, i),
        i < events.len() ==> ScanView::fresh().run(events.take(i + 1)) == ScanView::fresh().run(
            events.take(i),
        ).after(events[i]),
    decreases i,
{
    if i < events.len() {
        run_ends_with_the_last(ScanView::fresh(), events.take(i + 1));
        assert(events.take(i + 1).drop_last() =~= events.take(i));
    }
    if i > 0 {
        place_is_known(events, i - 1);
        let e = events[i - 1];
        let was = ScanView::fresh().run(events.take(i - 1));
        if let XmlEventView::Start(n) = e {
            tags_go_by_their_names(n);
        }
        if let XmlEventView::End(n) = e {
            tags_go_by_their_names(n);
        }
        if opens(e, "loc"@) {
            assert(within_loc(events, i - 1, i));
        } else if !closes(e, "loc"@) && was.in_loc {
            let j = choose|j: int| #[trigger] within_loc(events, j, i - 1);
            assert(within_loc(events, j, i));
        }
        assert forall|j: int| #[trigger] within_loc(events, j, i) && j < i - 1 implies within_loc(
            events,
            j,
            i - 1,
        ) && !closes(e, "loc"@) by {}
        if opens(e, "sitemap"@) {
            assert(within_sitemap(events, i - 1, i));
        } else if !closes(e, "sitemap"@) && !opens(e, "url"@) && was.in_sitemap_entry {
            let j = choose|j: int| #[trigger] within_sitemap(events, j, i - 1);
            assert(within_sitemap(events, j, i));
        }
        assert forall|j: int| #[trigger]
            within_sitemap(events, j, i) && j < i - 1 implies within_sitemap(events, j, i - 1)
            && !closes(e, "sitemap"@) && !opens(e, "url"@) by {}
    } else {
        assert(events.take(0) =~= Seq::<XmlEventView>::empty());
    }
}

/// What was filed stays filed.
proof fn filed_stays(events: Seq<XmlEventView>, i: int, n: int)
    requires
        0 <= i <= n <= events.len(),
    ensures
        ({
            let a = ScanView::fresh().run(events.take(i)).found;
            let b = ScanView::fresh().run(events.take(n)).found;
            &&& a.pages.len() <= b.pages.len()
            &&& a.sitemaps.len() <= b.sitemaps.len()
            &&& forall|k: int| 0 <= k < a.pages.len() ==> #[trigger] b.pages[k] == a.pages[k]
            &&& forall|k: int|
                0 <= k < a.sitemaps.len() ==> #[trigger] b.sitemaps[k] == a.sitemaps[k]
        }),
    decreases n,
{
    if i < n {
        filed_stays(events, i, n - 1);
        place_is_known(events, n - 1);
    }
}

/// No location is lost: every text inside a `<loc>` that is a URL is filed, under
/// the sitemaps where the nearest container is a `<sitemap>`, and else under the
/// pages.
pub proof fn every_location_is_filed(document: Seq<u8>, i: int, nested: bool, u: UrlView)
    requires
        locates(xml_events(document), i, nested, u),
    ensures
        nested ==> sitemap_of(document).sitemaps.contains(u),
        !nested ==> sitemap_of(document).pages.contains(u),
{
    let events = xml_events(document);
    let n = events.len() as int;
    place_is_known(events, i);
    filed_stays(events, i + 1, n);
    assert(events.take(n) =~= events);
    let a = ScanView::fresh().run(events.take(i + 1)).found;
    let b = sitemap_of(document);
    if nested {
        assert(a.sitemaps[a.sitemaps.len() - 1] == u);
        assert(b.sitemaps[a.sitemaps.len() - 1] == u);
    } else {
        assert(a.pages[a.pages.len() - 1] == u);
        assert(b.pages[a.pages.len() - 1] == u);
    }
}

proof fn filed_was_located(events: Seq<XmlEventView>, n: int, nested: bool, k: int) -> (i: int)
    requires
        0 <= n <= events.len(),
        nested ==> 0 <= k < ScanView::fresh().run(events.take(n)).found.sitemaps.len(),
        !nested ==> 0 <= k < ScanView::fresh().run(events.take(n)).found.pages.len(),
    ensures
        i < n,
        nested ==> locates(
            events,
            i,
            true,
            ScanView::fresh().run(events.take(n)).found.sitemaps[k],
        ),
        !nested ==> locates(
            events,
            i,
            false,
            ScanView::fresh().run(events.take(n)).found.pages[k],
        ),
    decreases n,
{
    if n == 0 {
        assert(events.take(0) =~= Seq::<XmlEventView>::empty());
        0
    } else {
        place_is_known(events, n - 1);
        filed_stays(events, n - 1, n);
        let was = ScanView::fresh().run(events.take(n - 1)).found;
        if (nested && k < was.sitemaps.len()) || (!nested && k < was.pages.len()) {
            filed_was_located(events, n - 1, nested, k)
        } else {
            n - 1
        }
    }
}

/// Nothing is filed but locations: every page, and every nested sitemap, is the
/// URL in some `<loc>` of the document with such a container.
pub proof fn only_locations_are_filed(document: Seq<u8>, nested: bool, k: int)
    requires
        nested ==> 0 <= k < sitemap_of(document).sitemaps.len(),
        !nested ==> 0 <= k < sitemap_of(document).pages.len(),
    ensures
        nested ==> exists|i: int| #[trigger]
            locates(xml_events(document), i, true, sitemap_of(document).sitemaps[k]),
        !nested ==> exists|i: int| #[trigger]
            locates(xml_events(document), i, false, sitemap_of(document).pages[k]),
{
    let events = xml_events(document);
    assert(events.take(events.len() as int) =~= events);
    let i = filed_was_located(events, events.len() as int, nested, k);
    if nested {
        assert(locates(events, i, true, sitemap_of(document).sitemaps[k]));
    } else {
        assert(locates(events, i, false, sitemap_of(document).pages[k]));
    }
}

/// The pages of all children that could be read are advertised, and no others:
/// one child adds its pages behind those of the children before it.
pub proof fn every_child_is_read(children: Seq<Option<Sitemap>>, child: Option<Sitemap>)
    ensures
        pages_of(Seq::empty()).len() == 0,
        child matches Some(s) ==> pages_of(children.push(child)) == pages_of(children) + s@.pages,
        child is None ==> pages_of(children.push(child)) == pages_of(children),
{
    assert(children.push(child).drop_last() =~= children);
    assert(children.push(child).last() == child);
}

/// Success is a status from 200 to 299.
pub proof fn success_goes_by_status(status: u16)
    ensures
        succeeded(status) <==> 200 <= status <= 299,
{
}

} // verus!
