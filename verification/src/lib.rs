//! A polite, embeddable web crawler: its rules and data structures, verified.
//!
//! - [`frontier`] decides what is fetched next: it removes duplicates, keeps
//!   requests to one host apart, and minds the depth limit and the page budget.
//! - [`fetcher`] decides what to make of a response and when to try again.
//! - [`robots`] remembers what the `robots.txt` of each origin allows.
//! - [`parser`] and [`sitemap`] find links.
//! - [`filter`] decides which of them are in scope.
//! - [`engine`] and [`worker`] put these together: every decision that a worker
//!   takes.
//! - [`history`] states what holds of a crawl as a whole.
//! - [`sink`] frames the records that a crawl writes.
//! - [`cli`], [`session`], [`jobs`], [`form`] and [`dashboard`] are the command
//!   line tool around the engine.

pub mod cli;
pub mod config;
pub mod dashboard;
pub mod delay;
pub mod display;
pub mod engine;
pub mod error;
pub mod fetcher;
pub mod filter;
pub mod form;
pub mod frontier;
pub mod history;
pub mod jobs;
pub mod normalize;
pub mod page;
pub mod parser;
pub mod pattern;
pub mod robots;
pub mod session;
pub mod sink;
pub mod sitemap;
pub mod stats;
pub mod text;
pub mod text_map;
pub mod time;
pub mod weburl;
pub mod worker;

pub use config::{CrawlConfig, CrawlConfigBuilder, Scope, DEFAULT_CONCURRENCY, MAX_CONCURRENCY};
pub use engine::{CrawlControl, CrawlEvent, CrawlSummary, Engine};
pub use error::CrawlError;
pub use fetcher::{FetchResponse, Fetcher};
pub use filter::UrlFilter;
pub use frontier::Frontier;
pub use page::{CrawlTask, CrawledPage, PageError};
pub use robots::RobotsCache;
pub use stats::{Stats, StatsSnapshot};
