use rustcrawl::fetcher::{
    backoff_for_attempt, classify_failure, is_retryable_status, parse_retry_after, report_refusal,
    ClientFailure, FetchError, FetchStep, Fetcher, ResponseHead, MAX_BACKOFF_MILLIS,
    MAX_RETRY_AFTER_SECS,
};
use rustcrawl::page::PageErrorKind;
use rustcrawl::time::Duration;
use rustcrawl::weburl::Url;
use rustcrawl::CrawlConfig;

#[test]
fn retries_transient_http_statuses() {
    assert!(is_retryable_status(reqwest::StatusCode::TOO_MANY_REQUESTS.as_u16()));
    assert!(is_retryable_status(reqwest::StatusCode::SERVICE_UNAVAILABLE.as_u16()));
    assert!(is_retryable_status(reqwest::StatusCode::GATEWAY_TIMEOUT.as_u16()));
    assert!(!is_retryable_status(reqwest::StatusCode::FORBIDDEN.as_u16()));
    assert!(!is_retryable_status(reqwest::StatusCode::NOT_FOUND.as_u16()));
}

#[test]
fn backoff_is_exponential_and_capped() {
    assert_eq!(backoff_for_attempt(1), Duration::from_millis(200));
    assert_eq!(backoff_for_attempt(2), Duration::from_millis(400));
    assert_eq!(backoff_for_attempt(3), Duration::from_millis(800));
    assert_eq!(backoff_for_attempt(100), Duration::from_millis(MAX_BACKOFF_MILLIS));
}

#[test]
fn retry_after_seconds_are_capped() {
    let mut headers = reqwest::header::HeaderMap::new();
    headers.insert(
        reqwest::header::RETRY_AFTER,
        reqwest::header::HeaderValue::from_static("120"),
    );
    let header = headers
        .get(reqwest::header::RETRY_AFTER)
        .and_then(|v| v.to_str().ok())
        .map(str::to_owned);
    assert_eq!(parse_retry_after(&header), Some(Duration::from_secs(MAX_RETRY_AFTER_SECS)));
}

#[test]
fn backoff_has_no_gaps() {
    let millis: Vec<u128> = (0..9).map(|a| backoff_for_attempt(a).as_millis()).collect();
    assert_eq!(millis, vec![200, 200, 400, 800, 1600, 3200, 6400, 10000, 10000]);
    assert_eq!(backoff_for_attempt(u32::MAX), Duration::from_secs(10));
}

#[test]
fn retry_after_is_read_strictly() {
    let read = |s: &str| parse_retry_after(&Some(s.to_string()));
    assert_eq!(read("5"), Some(Duration::from_secs(5)));
    assert_eq!(read("+7"), Some(Duration::from_secs(7)));
    assert_eq!(read("30"), Some(Duration::from_secs(30)));
    assert_eq!(read("31"), Some(Duration::from_secs(30)));
    assert_eq!(read("18446744073709551615"), Some(Duration::from_secs(30)));
    for bad in ["", "-1", " 5", "5 ", "1.5", "18446744073709551616", "Wed, 21 Oct 2015 07:28:00 GMT"]
    {
        assert_eq!(read(bad), None);
    }
    assert_eq!(parse_retry_after(&None), None);
}

fn fetcher(max_retries: u32, max_body_bytes: usize) -> Fetcher {
    let config = CrawlConfig::builder()
        .add_seed("https://e.com/")
        .unwrap()
        .max_retries(max_retries)
        .max_body_bytes(max_body_bytes)
        .build()
        .unwrap();
    Fetcher::from_config(&config)
}

fn head(status: u16, content_length: Option<u64>, retry_after: Option<&str>) -> ResponseHead {
    ResponseHead {
        final_url: Url::parse("https://e.com/x").unwrap(),
        status,
        content_type: Some("text/html".to_string()),
        content_length,
        retry_after: retry_after.map(str::to_owned),
    }
}

#[test]
fn bodies_are_read_up_to_the_limit() {
    let mut body = fetcher(2, 5).receive(head(200, Some(5), None)).unwrap();
    body.push(b"abc").unwrap();
    body.push(b"").unwrap();
    body.push(b"de").unwrap();
    let err = body.push(b"f").unwrap_err();
    assert_eq!(err.kind, PageErrorKind::TooLarge);
    assert_eq!(err.message, "body exceeded 5 byte limit");
    assert!(!err.is_retryable());
    let response = body.finish();
    assert_eq!(response.body, b"abcde".to_vec());
    assert_eq!(response.status, 200);
    assert_eq!(response.content_type.as_deref(), Some("text/html"));
    assert_eq!(response.final_url.text(), "https://e.com/x");
}

#[test]
fn declared_lengths_are_believed() {
    let err = fetcher(2, 5).receive(head(503, Some(6), Some("1"))).unwrap_err();
    assert_eq!(err.kind, PageErrorKind::TooLarge);
    assert_eq!(err.message, "declared body of 6 bytes exceeds limit");
    assert!(!err.is_retryable());
    assert_eq!(err.retry_after, None);
}

#[test]
fn failure_statuses_are_errors() {
    let err = fetcher(2, 5).receive(head(404, None, None)).unwrap_err();
    assert_eq!(err.kind, PageErrorKind::HttpStatus);
    assert_eq!(err.message, "server returned 404 Not Found");
    assert!(!err.is_retryable());
    let err = fetcher(2, 5).receive(head(503, None, Some("7"))).unwrap_err();
    assert_eq!(err.message, "server returned 503 Service Unavailable");
    assert!(err.is_retryable());
    assert_eq!(err.retry_after, Some(Duration::from_secs(7)));
    let err = fetcher(2, 5).receive(head(599, None, None)).unwrap_err();
    assert_eq!(err.message, "server returned 599 <unknown status code>");
    for status in [200, 204, 304, 399, 600, 999] {
        assert!(fetcher(2, 5).receive(head(status, None, None)).is_ok());
    }
    let err = report_refusal(429, "429 X", &Some("2".to_string()));
    assert_eq!(err.message, "server returned 429 X");
    assert!(err.is_retryable());
}

#[test]
fn client_failures_are_classified() {
    let failure = |n: usize| ClientFailure {
        is_timeout: n == 0,
        is_connect: n == 1,
        is_request: n == 2,
        is_body: n == 3,
        message: "m".to_string(),
    };
    for n in 0..4 {
        let err = classify_failure(failure(n));
        assert_eq!(err.kind, PageErrorKind::Transport);
        assert!(err.is_retryable());
        assert_eq!(err.message, "m");
    }
    let err = classify_failure(failure(4));
    assert_eq!(err.kind, PageErrorKind::Other);
    assert!(!err.is_retryable());
}

fn transport() -> FetchError {
    classify_failure(ClientFailure {
        is_timeout: true,
        is_connect: false,
        is_request: false,
        is_body: false,
        message: "timed out".to_string(),
    })
}

#[test]
fn transient_failures_are_retried_and_then_given_up() {
    let mut attempts = fetcher(2, 5).fetch();
    assert!(matches!(attempts.next(Err(transport())), FetchStep::RetryAfter(d) if d == Duration::from_millis(200)));
    let busy = fetcher(2, 5).receive(head(429, None, Some("9"))).unwrap_err();
    assert!(matches!(attempts.next(Err(busy)), FetchStep::RetryAfter(d) if d == Duration::from_secs(9)));
    assert!(matches!(attempts.next(Err(transport())), FetchStep::Finished(Err(_))));
}

#[test]
fn successes_and_lasting_failures_end_a_fetch() {
    let mut attempts = fetcher(2, 5).fetch();
    let gone = fetcher(2, 5).receive(head(404, None, None)).unwrap_err();
    assert!(matches!(attempts.next(Err(gone)), FetchStep::Finished(Err(_))));
    let response = fetcher(2, 5).receive(head(200, None, None)).unwrap().finish();
    assert!(matches!(attempts.next(Ok(response)), FetchStep::Finished(Ok(_))));
    let mut none = fetcher(0, 5).fetch();
    assert!(matches!(none.next(Err(transport())), FetchStep::Finished(Err(_))));
}
