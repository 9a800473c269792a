//! Errors that affect a crawl as a whole.

use vstd::prelude::*;

use crate::text::{join2, join3};

verus! {

/// Errors that can occur while configuring or running a crawl.
///
/// A single URL that timed out or returned a 500 is not represented here: that
/// is a [`crate::page::PageError`], and the crawl goes on.
#[derive(Debug, Clone)]
#[non_exhaustive]
pub enum CrawlError {
    /// The configuration was rejected (e.g. no seeds, zero concurrency).
    Config(String),
    /// A seed could not be parsed.
    Url {
        /// The offending input.
        url: String,
        /// What the URL parser says of it.
        source: String,
    },
    /// An invalid include/exclude regular expression was supplied.
    Pattern {
        /// The offending pattern.
        pattern: String,
        /// What the pattern compiler says of it.
        source: String,
    },
    /// The HTTP client could not be constructed.
    Client(String),
    /// A sink failed in a way that should abort the crawl.
    Sink(String),
    /// An I/O error not tied to a specific page.
    Io(String),
}

/// The content of a [`CrawlError`].
pub enum ErrorView {
    Config(Seq<char>),
    Url { url: Seq<char>, source: Seq<char> },
    Pattern { pattern: Seq<char>, source: Seq<char> },
    Client(Seq<char>),
    Sink(Seq<char>),
    Io(Seq<char>),
}

impl View for CrawlError {
    type V = ErrorView;

    open spec fn view(&self) -> ErrorView {
        match *self {
            CrawlError::Config(m) => ErrorView::Config(m@),
            CrawlError::Url { url, source } => ErrorView::Url { url: url@, source: source@ },
            CrawlError::Pattern { pattern, source } => ErrorView::Pattern {
                pattern: pattern@,
                source: source@,
            },
            CrawlError::Client(m) => ErrorView::Client(m@),
            CrawlError::Sink(m) => ErrorView::Sink(m@),
            CrawlError::Io(m) => ErrorView::Io(m@),
        }
    }
}

/// A text in quotes, with quotes and unprintable characters escaped, as `{:?}`
/// writes it.
pub uninterp spec fn quoted(s: Seq<char>) -> Seq<char>;

/// `format!("{:?}", s)`: the quoted form of a string is a function of the
/// string.
#[verifier::external_body]
pub(crate) fn quote(s: &str) -> (r: String)
    ensures
        r@ == quoted(s@),
{
    format!("{:?}", s)
}

impl ErrorView {
    /// The error in words.
    pub open spec fn message(self) -> Seq<char> {
        match self {
            ErrorView::Config(m) => "invalid configuration: "@ + m,
            ErrorView::Url { url, source } => "invalid URL "@ + quoted(url) + ": "@ + source,
            ErrorView::Pattern { pattern, source } => "invalid pattern "@ + quoted(pattern) + ": "@
                + source,
            ErrorView::Client(m) => "failed to build HTTP client: "@ + m,
            ErrorView::Sink(m) => "output sink error: "@ + m,
            ErrorView::Io(m) => m,
        }
    }

    /// What the error was caused by, where that is known.
    pub open spec fn cause(self) -> Option<Seq<char>> {
        match self {
            ErrorView::Url { source, .. } => Some(source),
            ErrorView::Pattern { source, .. } => Some(source),
            ErrorView::Client(source) => Some(source),
            ErrorView::Sink(source) => Some(source),
            _ => None,
        }
    }

    /// The error in words, followed by its cause.
    pub open spec fn report(self) -> Seq<char> {
        match self.cause() {
            Some(source) => self.message() + ": "@ + source,
            None => self.message(),
        }
    }
}

impl CrawlError {
    /// Wrap the message of a sink's own error.
    pub fn sink(message: String) -> (r: Self)
        ensures
            r@ == ErrorView::Sink(message@),
    {
        CrawlError::Sink(message)
    }

    /// The error in words.
    pub fn message(&self) -> (r: String)
        ensures
            r@ == self@.message(),
    {
        match self {
            CrawlError::Config(m) => join2("invalid configuration: ", m.as_str()),
            CrawlError::Url { url, source } => {
                let head = join2("invalid URL ", quote(url.as_str()).as_str());
                join3(head.as_str(), ": ", source.as_str())
            },
            CrawlError::Pattern { pattern, source } => {
                let head = join2("invalid pattern ", quote(pattern.as_str()).as_str());
                join3(head.as_str(), ": ", source.as_str())
            },
            CrawlError::Client(m) => join2("failed to build HTTP client: ", m.as_str()),
            CrawlError::Sink(m) => join2("output sink error: ", m.as_str()),
            CrawlError::Io(m) => m.clone(),
        }
    }

    /// The error in words, followed by its cause.
    pub fn report(&self) -> (r: String)
        ensures
            r@ == self@.report(),
    {
        let message = self.message();
        match self {
            CrawlError::Url { source, .. } => join3(message.as_str(), ": ", source.as_str()),
            CrawlError::Pattern { source, .. } => join3(message.as_str(), ": ", source.as_str()),
            CrawlError::Client(source) => join3(message.as_str(), ": ", source.as_str()),
            CrawlError::Sink(source) => join3(message.as_str(), ": ", source.as_str()),
            _ => message,
        }
    }
}

/// An error says all that it holds, behind what went wrong; a cause follows
/// once more in the report.
pub proof fn errors_say_all_they_hold(a: Seq<char>, b: Seq<char>)
    ensures
        ErrorView::Config(a).message() == "invalid configuration: "@ + a,
        (ErrorView::Url { url: a, source: b }).message() == "invalid URL "@ + quoted(a) + ": "@ + b,
        (ErrorView::Pattern { pattern: a, source: b }).message() == "invalid pattern "@ + quoted(a)
            + ": "@ + b,
        ErrorView::Client(a).message() == "failed to build HTTP client: "@ + a,
        ErrorView::Sink(a).message() == "output sink error: "@ + a,
        ErrorView::Io(a).message() == a,
        ErrorView::Config(a).report() == ErrorView::Config(a).message(),
        ErrorView::Io(a).report() == a,
        (ErrorView::Url { url: a, source: b }).report() == "invalid URL "@ + quoted(a) + ": "@ + b
            + ": "@ + b,
        (ErrorView::Pattern { pattern: a, source: b }).report() == "invalid pattern "@ + quoted(a)
            + ": "@ + b + ": "@ + b,
        ErrorView::Client(a).report() == "failed to build HTTP client: "@ + a + ": "@ + a,
        ErrorView::Sink(a).report() == "output sink error: "@ + a + ": "@ + a,
{
}

} // verus!
