//! HTTP fetching with retries and a response-size ceiling: what to make of a
//! response, when to try again, and when to give up.

use vstd::prelude::*;

use crate::config::CrawlConfig;
use crate::page::PageErrorKind;
use crate::text::{self, join2, join3, parse_number, to_decimal};
use crate::time::Duration;
use crate::weburl::Url;

verus! {

/// The pause before the first retry, in milliseconds.
pub const BASE_BACKOFF_MILLIS: u64 = 200;

/// The longest pause before a retry, in milliseconds.
pub const MAX_BACKOFF_MILLIS: u64 = 10_000;

/// The longest pause that a server can ask for, in seconds.
pub const MAX_RETRY_AFTER_SECS: u64 = 30;

/// A successful HTTP response with its body fully (and boundedly) buffered.
#[derive(Debug)]
pub struct FetchResponse {
    /// The URL after following any redirects.
    pub final_url: Url,
    /// HTTP status of the final response.
    pub status: u16,
    /// `Content-Type` header, if present.
    pub content_type: Option<String>,
    /// The response body.
    pub body: Vec<u8>,
}

/// A recoverable, per-request failure. Carries a classification so the engine
/// can decide whether to retry and how to report it.
#[derive(Debug)]
pub struct FetchError {
    /// Coarse category of the failure.
    pub kind: PageErrorKind,
    /// Human-readable detail.
    pub message: String,
    /// Whether the failure is worth another attempt whatever its category.
    pub retryable: bool,
    /// How long the server asked to be left alone.
    pub retry_after: Option<Duration>,
}

/// The content of a [`FetchError`].
pub struct FetchErrorView {
    pub kind: PageErrorKind,
    pub message: Seq<char>,
    pub retryable: bool,
    pub retry_after: Option<Duration>,
}

impl View for FetchError {
    type V = FetchErrorView;

    open spec fn view(&self) -> FetchErrorView {
        FetchErrorView {
            kind: self.kind,
            message: self.message@,
            retryable: self.retryable,
            retry_after: self.retry_after,
        }
    }
}

impl FetchErrorView {
    /// A failure that nothing more is known about.
    pub open spec fn plain(kind: PageErrorKind, message: Seq<char>) -> FetchErrorView {
        FetchErrorView { kind, message, retryable: false, retry_after: None }
    }

    /// Whether the failure is worth another attempt.
    pub open spec fn worth_retrying(self) -> bool {
        self.kind is Transport || self.retryable
    }
}

impl FetchError {
    fn new(kind: PageErrorKind, message: String) -> (r: Self)
        ensures
            r@ == FetchErrorView::plain(kind, message@),
    {
        FetchError { kind, message, retryable: false, retry_after: None }
    }

    /// Whether the failure is worth another attempt.
    pub fn is_retryable(&self) -> (r: bool)
        ensures
            r == self@.worth_retrying(),
    {
        self.kind == PageErrorKind::Transport || self.retryable
    }
}

/// Whether a status is one that may go away by itself.
pub open spec fn transient(status: u16) -> bool {
    status == 408 || status == 429 || status == 500 || status == 502 || status == 503 || status
        == 504
}

/// Whether a status is one that may go away by itself: request timeout, too
/// many requests, internal server error, bad gateway, service unavailable, or
/// gateway timeout.
pub fn is_retryable_status(status: u16) -> (r: bool)
    ensures
        r == transient(status),
        r <==> (status == 408 || status == 429 || status == 500 || status == 502 || status == 503
            || status == 504),
{
    status == 408 || status == 429 || status == 500 || status == 502 || status == 503 || status
        == 504
}

/// Two to the power of `n`.
pub open spec fn power_of_two(n: nat) -> nat
    decreases n,
{
    if n == 0 {
        1
    } else {
        2 * power_of_two((n - 1) as nat)
    }
}

/// The pause before retry number `attempt`, in milliseconds: it starts at the
/// base and doubles with every attempt, up to the longest pause.
pub open spec fn backoff_millis(attempt: u32) -> nat {
    let doublings = if attempt <= 1 {
        0
    } else {
        (attempt - 1) as nat
    };
    let millis = BASE_BACKOFF_MILLIS as nat * power_of_two(doublings);
    if millis < MAX_BACKOFF_MILLIS {
        millis
    } else {
        MAX_BACKOFF_MILLIS as nat
    }
}

proof fn power_of_two_grows(a: nat, b: nat)
    requires
        a <= b,
    ensures
        1 <= power_of_two(a) <= power_of_two(b),
    decreases b,
{
    if a == b {
        if a > 0 {
            power_of_two_grows((a - 1) as nat, (b - 1) as nat);
        }
    } else {
        power_of_two_grows(a, (b - 1) as nat);
    }
}

/// The pause before retry number `attempt`.
pub fn backoff_for_attempt(attempt: u32) -> (r: Duration)
    ensures
        r.nanos == backoff_millis(attempt) * 1_000_000,
{
    let mut millis: u64 = BASE_BACKOFF_MILLIS;
    let mut n: u32 = 1;
    proof {
        assert(power_of_two(0) == 1);
    }
    while n < attempt && millis < MAX_BACKOFF_MILLIS
        invariant
            1 <= n,
            n <= attempt || n == 1,
            millis == BASE_BACKOFF_MILLIS as nat * power_of_two((n - 1) as nat),
            millis <= 2 * MAX_BACKOFF_MILLIS,
        decreases attempt - n,
    {
        millis = millis * 2;
        n += 1;
    }
    if millis < MAX_BACKOFF_MILLIS {
        Duration::from_millis(millis)
    } else {
        proof {
            if attempt > 1 {
                power_of_two_grows((n - 1) as nat, (attempt - 1) as nat);
            }
            assert(BASE_BACKOFF_MILLIS * power_of_two((n - 1) as nat) >= MAX_BACKOFF_MILLIS);
        }
        Duration::from_millis(MAX_BACKOFF_MILLIS)
    }
}

/// The pause that a `Retry-After` header asks for, in seconds: a plain number,
/// up to the longest that is granted. A date, or any other text, asks for none.
pub open spec fn retry_after_secs(header: Option<Seq<char>>) -> Option<nat> {
    match header {
        Some(h) => match text::number_up_to(h, u64::MAX as nat) {
            Some(secs) => Some(
                if secs < MAX_RETRY_AFTER_SECS {
                    secs
                } else {
                    MAX_RETRY_AFTER_SECS as nat
                },
            ),
            None => None,
        },
        None => None,
    }
}

/// The same pause as a span of time.
pub open spec fn retry_after(header: Option<Seq<char>>) -> Option<Duration> {
    match retry_after_secs(header) {
        Some(secs) => Some(Duration { nanos: (secs * 1_000_000_000) as u128 }),
        None => None,
    }
}

/// Read the text of a `Retry-After` header.
pub fn parse_retry_after(header: &Option<String>) -> (r: Option<Duration>)
    ensures
        r == retry_after(text::opt_view(*header)),
{
    match header {
        Some(h) => match parse_number(h.as_str(), u64::MAX) {
            Some(secs) => Some(
                Duration::from_secs(
                    if secs < MAX_RETRY_AFTER_SECS {
                        secs
                    } else {
                        MAX_RETRY_AFTER_SECS
                    },
                ),
            ),
            None => None,
        },
        None => None,
    }
}

/// What went wrong while a request was under way, as the HTTP client reports
/// it.
pub struct ClientFailure {
    pub is_timeout: bool,
    pub is_connect: bool,
    pub is_request: bool,
    pub is_body: bool,
    pub message: String,
}

/// Classify a failure of the HTTP client: what happened on the way to the
/// server and back is a transport failure.
pub fn classify_failure(failure: ClientFailure) -> (r: FetchError)
    ensures
        r@ == FetchErrorView::plain(
            if failure.is_timeout || failure.is_connect || failure.is_request || failure.is_body {
                PageErrorKind::Transport
            } else {
                PageErrorKind::Other
            },
            failure.message@,
        ),
{
    let kind = if failure.is_timeout || failure.is_connect || failure.is_request
        || failure.is_body {
        PageErrorKind::Transport
    } else {
        PageErrorKind::Other
    };
    FetchError::new(kind, failure.message)
}

/// A status as text, with its customary name: what the `http` crate, which
/// `reqwest` hands on, displays for it.
pub uninterp spec fn status_text(status: u16) -> Seq<char>;

/// `reqwest::StatusCode::from_u16` and the `Display` of a `StatusCode`.
/// Claimed: a number of three digits is a status, and what is displayed for it
/// is a function of the number.
#[verifier::external_body]
fn display_status(status: u16) -> (r: Option<String>)
    ensures
        r is Some <==> 100 <= status < 1000,
        r matches Some(s) ==> s@ == status_text(status),
{
    reqwest::StatusCode::from_u16(status).ok().map(|s| s.to_string())
}

/// The start of a response: everything but its body.
#[derive(Debug)]
pub struct ResponseHead {
    /// The URL after following any redirects.
    pub final_url: Url,
    pub status: u16,
    /// `Content-Type` header, if present.
    pub content_type: Option<String>,
    /// The length of the body, if the server declared it.
    pub content_length: Option<u64>,
    /// `Retry-After` header, if present.
    pub retry_after: Option<String>,
}

/// Whether a status reports a failure of the client or the server.
pub open spec fn refused(status: u16) -> bool {
    400 <= status < 600
}

/// What is wrong with a response that was refused, by the text of its status.
pub open spec fn refusal(
    status: u16,
    shown: Seq<char>,
    header: Option<Seq<char>>,
) -> FetchErrorView {
    FetchErrorView {
        kind: PageErrorKind::HttpStatus,
        message: "server returned "@ + shown,
        retryable: transient(status),
        retry_after: retry_after(header),
    }
}

/// Report a response that was refused; `shown` is its status as text.
pub fn report_refusal(status: u16, shown: &str, header: &Option<String>) -> (r: FetchError)
    ensures
        r@ == refusal(status, shown@, text::opt_view(*header)),
{
    FetchError {
        kind: PageErrorKind::HttpStatus,
        message: join2("server returned ", shown),
        retryable: is_retryable_status(status),
        retry_after: parse_retry_after(header),
    }
}

/// What is wrong with the start of a response, if anything: a body that is
/// declared too long, or else a status that reports a failure.
pub open spec fn head_error(head: ResponseHead, max_body_bytes: usize) -> Option<FetchErrorView> {
    if head.content_length matches Some(len) && len > max_body_bytes {
        Some(
            FetchErrorView::plain(
                PageErrorKind::TooLarge,
                "declared body of "@ + text::decimal(head.content_length->0 as nat)
                    + " bytes exceeds limit"@,
            ),
        )
    } else if refused(head.status) {
        Some(refusal(head.status, status_text(head.status), text::opt_view(head.retry_after)))
    } else {
        None
    }
}

/// A response whose body is being read.
#[derive(Debug)]
pub struct Receiving {
    final_url: Url,
    status: u16,
    content_type: Option<String>,
    body: Vec<u8>,
    max_body_bytes: usize,
}

/// The state of a [`Receiving`].
pub struct ReceivingView {
    pub final_url: crate::weburl::UrlView,
    pub status: u16,
    pub content_type: Option<Seq<char>>,
    pub body: Seq<u8>,
    pub max_body_bytes: usize,
}

/// The content of a [`FetchResponse`].
pub struct ResponseView {
    pub final_url: crate::weburl::UrlView,
    pub status: u16,
    pub content_type: Option<Seq<char>>,
    pub body: Seq<u8>,
}

impl View for FetchResponse {
    type V = ResponseView;

    open spec fn view(&self) -> ResponseView {
        ResponseView {
            final_url: self.final_url@,
            status: self.status,
            content_type: text::opt_view(self.content_type),
            body: self.body@,
        }
    }
}

impl View for Receiving {
    type V = ReceivingView;

    closed spec fn view(&self) -> ReceivingView {
        ReceivingView {
            final_url: self.final_url@,
            status: self.status,
            content_type: text::opt_view(self.content_type),
            body: self.body@,
            max_body_bytes: self.max_body_bytes,
        }
    }
}

impl Receiving {
    /// No more was read than the limit allows.
    pub closed spec fn wf(&self) -> bool {
        self.body@.len() <= self.max_body_bytes
    }

    /// Add a piece of the body, refusing it if the body grows past the limit.
    pub fn push(&mut self, chunk: &[u8]) -> (r: Result<(), FetchError>)
        requires
            old(self).wf(),
        ensures
            final(self).wf(),
            r is Ok <==> old(self)@.body.len() + chunk@.len() <= old(self)@.max_body_bytes,
            match r {
                Ok(_) => final(self)@ == (ReceivingView {
                    body: old(self)@.body + chunk@,
                    ..old(self)@
                }),
                Err(e) => {
                    &&& final(self)@ == old(self)@
                    &&& e@ == FetchErrorView::plain(
                        PageErrorKind::TooLarge,
                        "body exceeded "@ + text::decimal(old(self)@.max_body_bytes as nat)
                            + " byte limit"@,
                    )
                },
            },
    {
        if chunk.len() > self.max_body_bytes - self.body.len() {
            let limit = to_decimal(self.max_body_bytes as u64);
            return Err(
                FetchError::new(
                    PageErrorKind::TooLarge,
                    join3("body exceeded ", limit.as_str(), " byte limit"),
                ),
            );
        }
        self.body.extend_from_slice(chunk);
        proof {
            assert(self.body@ =~= old(self).body@ + chunk@);
        }
        Ok(())
    }

    /// The response, once its body has come to an end.
    pub fn finish(self) -> (r: FetchResponse)
        requires
            self.wf(),
        ensures
            r@ == (ResponseView {
                final_url: self@.final_url,
                status: self@.status,
                content_type: self@.content_type,
                body: self@.body,
            }),
            r@.body.len() <= self@.max_body_bytes,
    {
        FetchResponse {
            final_url: self.final_url,
            status: self.status,
            content_type: self.content_type,
            body: self.body,
        }
    }
}

/// What to do once an attempt to fetch has come to its end.
pub enum FetchStep {
    /// The fetch is over.
    Finished(Result<FetchResponse, FetchError>),
    /// Pause, and try again.
    RetryAfter(Duration),
}

/// One fetch: how often it was retried, and how often it may be.
#[derive(Debug)]
pub struct Attempts {
    retries: u32,
    max_retries: u32,
}

/// The state of [`Attempts`].
pub struct AttemptsView {
    pub retries: u32,
    pub max_retries: u32,
}

impl View for Attempts {
    type V = AttemptsView;

    closed spec fn view(&self) -> AttemptsView {
        AttemptsView { retries: self.retries, max_retries: self.max_retries }
    }
}

impl AttemptsView {
    /// Whether another attempt follows a failure.
    pub open spec fn goes_on(self, e: FetchErrorView) -> bool {
        e.worth_retrying() && self.retries < self.max_retries
    }

    /// The state after one more retry.
    pub open spec fn retried(self) -> AttemptsView {
        AttemptsView { retries: (self.retries + 1) as u32, ..self }
    }

    /// The pause before the next retry, after `e`: what the server asked for,
    /// or else the usual one.
    pub open spec fn pause(self, e: FetchErrorView) -> nat {
        match e.retry_after {
            Some(d) => d.nanos as nat,
            None => backoff_millis((self.retries + 1) as u32) * 1_000_000,
        }
    }
}

impl Attempts {
    /// Decide what follows an attempt: a success ends the fetch, and so does a
    /// failure that is not worth another attempt or comes when no retry is
    /// left.
    pub fn next(&mut self, outcome: Result<FetchResponse, FetchError>) -> (r: FetchStep)
        ensures
            match outcome {
                Ok(_) => r == FetchStep::Finished(outcome) && final(self)@ == old(self)@,
                Err(e) => if old(self)@.goes_on(e@) {
                    &&& r matches FetchStep::RetryAfter(d) && d.nanos == old(self)@.pause(e@)
                    &&& final(self)@ == old(self)@.retried()
                } else {
                    r == FetchStep::Finished(outcome) && final(self)@ == old(self)@
                },
            },
    {
        match outcome {
            Ok(response) => FetchStep::Finished(Ok(response)),
            Err(e) => {
                if e.is_retryable() && self.retries < self.max_retries {
                    self.retries += 1;
                    let delay = match e.retry_after {
                        Some(d) => d,
                        None => backoff_for_attempt(self.retries),
                    };
                    FetchStep::RetryAfter(delay)
                } else {
                    FetchStep::Finished(Err(e))
                }
            },
        }
    }
}

/// The limits of a crawl's requests.
#[derive(Debug, Clone, Copy, PartialEq, Eq, Structural)]
pub struct Fetcher {
    /// How often a failed request is retried.
    pub max_retries: u32,
    /// The longest body that is read.
    pub max_body_bytes: usize,
}

impl Fetcher {
    /// The limits that a crawl configuration sets.
    pub fn from_config(config: &CrawlConfig) -> (r: Self)
        ensures
            r.max_retries == config@.settings.max_retries,
            r.max_body_bytes == config@.settings.max_body_bytes,
    {
        Fetcher { max_retries: config.max_retries, max_body_bytes: config.max_body_bytes }
    }

    /// Start a fetch.
    pub fn fetch(&self) -> (r: Attempts)
        ensures
            r@ == (AttemptsView { retries: 0, max_retries: self.max_retries }),
    {
        Attempts { retries: 0, max_retries: self.max_retries }
    }

    /// Judge the start of a response: a body that is declared too long and a
    /// status that reports a failure are errors; otherwise the body is read.
    pub fn receive(&self, head: ResponseHead) -> (r: Result<Receiving, FetchError>)
        ensures
            match r {
                Ok(b) => {
                    &&& head_error(head, self.max_body_bytes) is None
                    &&& b.wf()
                    &&& b@ == (ReceivingView {
                        final_url: head.final_url@,
                        status: head.status,
                        content_type: text::opt_view(head.content_type),
                        body: Seq::empty(),
                        max_body_bytes: self.max_body_bytes,
                    })
                },
                Err(e) => head_error(head, self.max_body_bytes) == Some(e@),
            },
            !(head.content_length matches Some(len) && len > self.max_body_bytes) ==> {
                &&& r is Err <==> 400 <= head.status <= 599
                &&& r matches Err(e) ==> (e@.worth_retrying() <==> head.status == 408 || head.status
                    == 429 || head.status == 500 || head.status == 502 || head.status == 503
                    || head.status == 504)
            },
    {
        if let Some(len) = head.content_length {
            if len > self.max_body_bytes as u64 {
                let shown = to_decimal(len);
                return Err(
                    FetchError::new(
                        PageErrorKind::TooLarge,
                        join3("declared body of ", shown.as_str(), " bytes exceeds limit"),
                    ),
                );
            }
        }
        if head.status >= 400 && head.status < 600 {
            if let Some(shown) = display_status(head.status) {
                return Err(report_refusal(head.status, shown.as_str(), &head.retry_after));
            }
        }
        Ok(
            Receiving {
                final_url: head.final_url,
                status: head.status,
                content_type: head.content_type,
                body: Vec::new(),
                max_body_bytes: self.max_body_bytes,
            },
        )
    }
}

/// The pauses between attempts never shrink, start at the base, and are never
/// longer than the longest pause.
pub proof fn backoff_grows_to_its_cap(a: u32, b: u32)
    requires
        a <= b,
    ensures
        backoff_millis(a) <= backoff_millis(b),
        BASE_BACKOFF_MILLIS <= backoff_millis(a) <= MAX_BACKOFF_MILLIS,
{
    let da = if a <= 1 {
        0
    } else {
        (a - 1) as nat
    };
    let db = if b <= 1 {
        0
    } else {
        (b - 1) as nat
    };
    power_of_two_grows(da, db);
    power_of_two_grows(0, da);
}

/// Retries are bounded: a fetch that was retried as often as allowed ends with
/// its next attempt, whatever comes of it, and every retry uses one up.
pub proof fn retries_are_bounded(a: AttemptsView, e: FetchErrorView)
    ensures
        a.retries >= a.max_retries ==> !a.goes_on(e),
        a.goes_on(e) ==> a.retried().retries == a.retries + 1 && a.retried().max_retries
            == a.max_retries && a.retried().retries <= a.max_retries,
{
}

/// No server can hold up a fetch for long: a pause it asks for is granted up to
/// the longest that is granted, and no longer.
pub proof fn servers_cannot_stall(header: Option<Seq<char>>)
    ensures
        retry_after(header) matches Some(d) ==> d.nanos <= MAX_RETRY_AFTER_SECS * 1_000_000_000,
        retry_after(header) is Some <==> (header matches Some(h) && text::number_up_to(
            h,
            u64::MAX as nat,
        ) is Some),
{
}

/// What becomes of the start of a response, by its status. A status from 400 to
/// 599 is refused, with the status in the message, and is worth another attempt
/// exactly where it is 408, 429, 500, 502, 503 or 504; every other status goes
/// on to its body.
pub proof fn statuses_decide(head: ResponseHead, max_body_bytes: usize)
    requires
        head.content_length matches Some(len) ==> len <= max_body_bytes,
    ensures
        400 <= head.status <= 599 <==> head_error(head, max_body_bytes) is Some,
        head_error(head, max_body_bytes) matches Some(e) ==> {
            &&& e.worth_retrying() <==> (head.status == 408 || head.status == 429 || head.status
                == 500 || head.status == 502 || head.status == 503 || head.status == 504)
            &&& e.kind is HttpStatus
            &&& e.message == "server returned "@ + status_text(head.status)
            &&& e.retry_after == retry_after(text::opt_view(head.retry_after))
        },
{
}

/// A body that is declared longer than the limit is refused whatever the status
/// is, and is not worth another attempt.
pub proof fn declared_lengths_decide(head: ResponseHead, max_body_bytes: usize)
    requires
        head.content_length matches Some(len) && len > max_body_bytes,
    ensures
        head_error(head, max_body_bytes) matches Some(e) && e.kind is TooLarge
            && !e.worth_retrying() && e.retry_after is None && e.message == "declared body of "@
            + text::decimal(head.content_length->0 as nat) + " bytes exceeds limit"@,
{
}

/// A refused response says so in its message, and passes on what the server
/// asked for.
pub proof fn refusals_are_explained(status: u16, shown: Seq<char>, header: Option<Seq<char>>)
    ensures
        refusal(status, shown, header).message == "server returned "@ + shown,
        refusal(status, shown, header).kind is HttpStatus,
        refusal(status, shown, header).retry_after == retry_after(header),
        refusal(status, shown, header).worth_retrying() <==> (status == 408 || status == 429
            || status == 500 || status == 502 || status == 503 || status == 504),
{
}

/// A failure on the way to the server and back is worth another attempt, and
/// any other is where it is marked so; another attempt follows as long as a
/// retry is left.
pub proof fn what_is_tried_again(a: AttemptsView, e: FetchErrorView)
    ensures
        e.kind is Transport ==> e.worth_retrying(),
        e.kind !is Transport ==> (e.worth_retrying() <==> e.retryable),
        a.goes_on(e) <==> (e.kind is Transport || e.retryable) && a.retries < a.max_retries,
        e.retry_after matches Some(d) ==> a.pause(e) == d.nanos,
        e.retry_after is None && a.retries < u32::MAX ==> a.pause(e) == backoff_millis(
            (a.retries + 1) as u32,
        ) * 1_000_000,
        FetchErrorView::plain(e.kind, e.message).kind == e.kind,
        FetchErrorView::plain(e.kind, e.message).message == e.message,
        !FetchErrorView::plain(e.kind, e.message).retryable,
        FetchErrorView::plain(e.kind, e.message).retry_after is None,
{
}

/// The pause before the first retry is 200 ms, and each further one is twice the
/// one before, up to 10 s.
pub proof fn backoff_doubles(attempt: u32)
    requires
        attempt < u32::MAX,
    ensures
        attempt <= 1 ==> backoff_millis(attempt) == 200,
        attempt >= 1 ==> backoff_millis((attempt + 1) as u32) == (if 2 * backoff_millis(attempt)
            < 10_000 {
            2 * backoff_millis(attempt)
        } else {
            10_000
        }),
{
    assert(power_of_two(0) == 1);
    if attempt >= 1 {
        assert(power_of_two(attempt as nat) == 2 * power_of_two((attempt - 1) as nat));
    }
}

/// A server may ask for a pause in whole seconds, and gets it up to 30 s. Without
/// a header there is no such pause.
pub proof fn pauses_are_granted(n: nat)
    requires
        n <= u64::MAX,
    ensures
        retry_after(Some(text::decimal(n))) matches Some(d) && d.nanos == (if n < 30 {
            n
        } else {
            30
        }) * 1_000_000_000,
        retry_after(None) is None,
{
    text::decimal_round_trip(n);
}

/// A response shows what it holds.
pub proof fn responses_show_what_they_hold(r: FetchResponse, e: FetchError)
    ensures
        r@.final_url == r.final_url@,
        r@.status == r.status,
        r@.content_type == text::opt_view(r.content_type),
        r@.body == r.body@,
        e@.kind == e.kind,
        e@.message == e.message@,
        e@.retryable == e.retryable,
        e@.retry_after == e.retry_after,
{
}

} // verus!
