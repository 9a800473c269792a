//! Data types that flow through the crawl pipeline.

use vstd::prelude::*;

use crate::weburl::{Url, UrlView};

verus! {

/// A unit of work in the frontier: a URL to fetch plus the bookkeeping needed
/// to enforce depth limits and trace provenance.
#[derive(Debug)]
pub struct CrawlTask {
    /// The URL to fetch.
    pub url: Url,
    /// Distance from the nearest seed. Seeds have depth `0`.
    pub depth: u32,
    /// The page this URL was discovered on, if any.
    pub referrer: Option<Url>,
}

/// The content of a [`CrawlTask`].
pub struct TaskView {
    pub url: UrlView,
    pub depth: u32,
    pub referrer: Option<UrlView>,
}

/// The view of an optional URL.
pub open spec fn opt_url(u: Option<Url>) -> Option<UrlView> {
    match u {
        Some(v) => Some(v@),
        None => None,
    }
}

impl View for CrawlTask {
    type V = TaskView;

    open spec fn view(&self) -> TaskView {
        TaskView { url: self.url@, depth: self.depth, referrer: opt_url(self.referrer) }
    }
}

impl TaskView {
    /// A seed task: depth `0`, no referrer.
    pub open spec fn seed(url: UrlView) -> TaskView {
        TaskView { url, depth: 0, referrer: None }
    }

    /// A task discovered while crawling `referrer`.
    pub open spec fn child(url: UrlView, depth: u32, referrer: UrlView) -> TaskView {
        TaskView { url, depth, referrer: Some(referrer) }
    }

    /// The text of the referrer, if there is one.
    pub open spec fn referrer_text(self) -> Option<Seq<char>> {
        match self.referrer {
            Some(u) => Some(u.text()),
            None => None,
        }
    }
}

impl CrawlTask {
    /// Create a seed task (depth `0`, no referrer).
    pub fn seed(url: Url) -> (r: Self)
        ensures
            r@ == TaskView::seed(url@),
    {
        CrawlTask { url, depth: 0, referrer: None }
    }

    /// Create a child task discovered while crawling `referrer`.
    pub fn child(url: Url, depth: u32, referrer: Url) -> (r: Self)
        ensures
            r@ == TaskView::child(url@, depth, referrer@),
    {
        CrawlTask { url, depth, referrer: Some(referrer) }
    }

    /// The text of the referrer, if there is one.
    pub fn referrer_text(&self) -> (r: Option<String>)
        ensures
            crate::text::opt_view(r) == self@.referrer_text(),
    {
        match &self.referrer {
            Some(u) => Some(u.text()),
            None => None,
        }
    }
}

/// A page that was successfully fetched: the record handed to a sink.
#[derive(Debug, Clone)]
pub struct CrawledPage {
    /// The URL that was requested.
    pub url: String,
    /// The final URL after following redirects.
    pub final_url: String,
    /// HTTP status code of the final response.
    pub status: u16,
    /// Depth at which this page was crawled.
    pub depth: u32,
    /// The page that linked here, if any.
    pub referrer: Option<String>,
    /// `Content-Type` header, if present.
    pub content_type: Option<String>,
    /// Document `<title>`, if the body was HTML and a title was found.
    pub title: Option<String>,
    /// Size of the response body in bytes.
    pub content_length: usize,
    /// Absolute, in-scope links discovered on the page.
    pub links: Vec<String>,
    /// When the response finished downloading (RFC 3339, UTC).
    pub fetched_at: String,
    /// Wall-clock time spent fetching the page, in milliseconds.
    pub elapsed_ms: u64,
}

/// A per-page failure. Recorded and counted, but never aborts the crawl.
#[derive(Debug, Clone)]
pub struct PageError {
    /// The URL that failed.
    pub url: String,
    /// The page that linked here, if any.
    pub referrer: Option<String>,
    /// A human-readable description of what went wrong.
    pub error: String,
    /// A coarse classification useful for metrics and retry decisions.
    pub kind: PageErrorKind,
}

/// Coarse classification of a [`PageError`].
#[derive(Debug, Clone, Copy, PartialEq, Eq, Structural)]
pub enum PageErrorKind {
    /// Blocked by `robots.txt`.
    RobotsDenied,
    /// Connection/timeout/transport-level failure.
    Transport,
    /// Server responded with a 4xx/5xx status.
    HttpStatus,
    /// Response was larger than the configured limit.
    TooLarge,
    /// Content type was not crawlable (e.g. a binary download).
    UnsupportedContentType,
    /// Anything else.
    Other,
}

/// A seed task is for its URL, at depth `0`, without a referrer; a child task is
/// for its URL, at its depth, with the page it was found on.
pub proof fn tasks_hold_what_they_are_made_of(u: UrlView, depth: u32, page: UrlView)
    ensures
        TaskView::seed(u).url == u,
        TaskView::seed(u).depth == 0,
        TaskView::seed(u).referrer is None,
        TaskView::seed(u).referrer_text() is None,
        TaskView::child(u, depth, page).url == u,
        TaskView::child(u, depth, page).depth == depth,
        TaskView::child(u, depth, page).referrer == Some(page),
        TaskView::child(u, depth, page).referrer_text() == Some(page.text()),
{
}

/// A task shows what stands in it.
pub proof fn tasks_show_what_they_hold(t: CrawlTask)
    ensures
        t@.url == t.url@,
        t@.depth == t.depth,
        t@.referrer is Some <==> t.referrer is Some,
        t.referrer matches Some(u) ==> t@.referrer == Some(u@),
{
}

} // verus!
