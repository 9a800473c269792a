//! Local crawl job history: what is kept of a run, and what is made of it.

use vstd::prelude::*;

use crate::cli::{Cli, CliView};
use crate::delay::{self, format_duration};
use crate::engine::CrawlSummary;
use crate::form::{NewJobSpec, SpecView};
use crate::stats;
use crate::text::{self, copy_opt, copy_texts};
use crate::time::Duration;

verus! {

/// How many jobs are kept at hand for the dashboard.
pub const RECENT_LIMIT: usize = 25;

/// The settings of a run, captured before it starts.
#[derive(Debug)]
pub struct JobTemplate {
    /// Seeds of the run.
    pub seeds: Vec<String>,
    /// Sitemap seeds of the run.
    pub sitemaps: Vec<String>,
    /// Max page limit for the run.
    pub max_pages: Option<usize>,
    /// Max depth for the run.
    pub max_depth: Option<u32>,
    /// Configured concurrency.
    pub concurrency: usize,
    /// Crawl scope used for this run.
    pub scope: Option<String>,
    /// Per host delay used for this run.
    pub delay: Option<String>,
    /// Whether robots.txt Crawl-delay could raise the configured delay.
    pub respect_crawl_delay: bool,
    /// Output file path, if any.
    pub output: Option<String>,
}

/// The content of a [`JobTemplate`].
pub struct TemplateView {
    pub seeds: Seq<Seq<char>>,
    pub sitemaps: Seq<Seq<char>>,
    pub max_pages: Option<usize>,
    pub max_depth: Option<u32>,
    pub concurrency: usize,
    pub scope: Option<Seq<char>>,
    pub delay: Option<Seq<char>>,
    pub respect_crawl_delay: bool,
    pub output: Option<Seq<char>>,
}

impl View for JobTemplate {
    type V = TemplateView;

    open spec fn view(&self) -> TemplateView {
        TemplateView {
            seeds: text::texts(self.seeds@),
            sitemaps: text::texts(self.sitemaps@),
            max_pages: self.max_pages,
            max_depth: self.max_depth,
            concurrency: self.concurrency,
            scope: text::opt_view(self.scope),
            delay: text::opt_view(self.delay),
            respect_crawl_delay: self.respect_crawl_delay,
            output: text::opt_view(self.output),
        }
    }
}

impl TemplateView {
    /// The settings of a run that the command line asks for.
    pub open spec fn of_cli(c: CliView) -> TemplateView {
        TemplateView {
            seeds: c.seeds,
            sitemaps: c.sitemap,
            max_pages: c.max_pages,
            max_depth: c.depth,
            concurrency: c.concurrency,
            scope: Some(c.scope.written()),
            delay: Some(delay::written(c.delay)),
            respect_crawl_delay: !c.ignore_robots && !c.ignore_crawl_delay,
            output: c.output,
        }
    }

    /// The settings of a run that the dashboard asks for. Such a run always
    /// respects a crawl-delay.
    pub open spec fn of_form(s: SpecView) -> TemplateView {
        TemplateView {
            seeds: seq![s.target],
            sitemaps: Seq::empty(),
            max_pages: s.max_pages,
            max_depth: s.depth,
            concurrency: s.concurrency,
            scope: Some(s.scope),
            delay: Some(s.delay),
            respect_crawl_delay: true,
            output: s.output,
        }
    }

    /// What the run crawls: the first seed, or else the first sitemap.
    pub open spec fn target(self) -> Seq<char> {
        if self.seeds.len() > 0 {
            self.seeds[0]
        } else if self.sitemaps.len() > 0 {
            self.sitemaps[0]
        } else {
            "(no target)"@
        }
    }

    /// The settings as the form has them, with the usual scope and delay where
    /// none is known.
    pub open spec fn editable(self) -> SpecView {
        SpecView {
            target: self.target(),
            max_pages: self.max_pages,
            depth: self.max_depth,
            concurrency: self.concurrency,
            scope: match self.scope {
                Some(s) => s,
                None => "domain"@,
            },
            delay: match self.delay {
                Some(d) => d,
                None => "250ms"@,
            },
            output: self.output,
            save: true,
        }
    }
}

impl JobTemplate {
    /// Capture job settings from CLI arguments.
    pub fn from_cli(cli: &Cli) -> (r: Self)
        requires
            delay::writable(cli.delay),
        ensures
            r@ == TemplateView::of_cli(cli@),
    {
        JobTemplate {
            seeds: copy_texts(&cli.seeds),
            sitemaps: copy_texts(&cli.sitemap),
            max_pages: cli.max_pages,
            max_depth: cli.depth,
            concurrency: cli.concurrency,
            scope: Some(cli.scope.name()),
            delay: Some(format_duration(cli.delay)),
            respect_crawl_delay: !cli.ignore_robots && !cli.ignore_crawl_delay,
            output: copy_opt(&cli.output),
        }
    }

    /// Capture job settings from a dashboard form.
    pub fn from_new_job(spec: &NewJobSpec) -> (r: Self)
        ensures
            r@ == TemplateView::of_form(spec@),
    {
        let seeds: Vec<String> = vec![spec.target.clone()];
        let sitemaps: Vec<String> = Vec::new();
        proof {
            assert(text::texts(seeds@) =~= seq![spec.target@]);
            assert(text::texts(sitemaps@) =~= Seq::empty());
        }
        JobTemplate {
            seeds,
            sitemaps,
            max_pages: spec.max_pages,
            max_depth: spec.depth,
            concurrency: spec.concurrency,
            scope: Some(spec.scope.clone()),
            delay: Some(spec.delay.clone()),
            respect_crawl_delay: true,
            output: copy_opt(&spec.output),
        }
    }

    /// A copy of the settings.
    pub fn copy(&self) -> (r: Self)
        ensures
            r@ == self@,
    {
        JobTemplate {
            seeds: copy_texts(&self.seeds),
            sitemaps: copy_texts(&self.sitemaps),
            max_pages: self.max_pages,
            max_depth: self.max_depth,
            concurrency: self.concurrency,
            scope: copy_opt(&self.scope),
            delay: copy_opt(&self.delay),
            respect_crawl_delay: self.respect_crawl_delay,
            output: copy_opt(&self.output),
        }
    }

    /// Add completion stats and produce a job record. `id` and `finished_at`
    /// tell when the run completed.
    pub fn into_record(self, summary: &CrawlSummary, id: String, finished_at: String) -> (r:
        JobRecord)
        ensures
            r@ == (RecordView {
                id: id@,
                finished_at: finished_at@,
                settings: self@,
                pages_fetched: summary.pages_fetched,
                pages_failed: summary.pages_failed,
                urls_discovered: summary.urls_discovered,
                bytes_downloaded: summary.bytes_downloaded,
                duration: summary.duration,
            }),
    {
        JobRecord {
            id,
            finished_at,
            settings: self,
            pages_fetched: summary.pages_fetched,
            pages_failed: summary.pages_failed,
            urls_discovered: summary.urls_discovered,
            bytes_downloaded: summary.bytes_downloaded,
            duration: summary.duration,
        }
    }
}

/// A completed crawl run.
#[derive(Debug)]
pub struct JobRecord {
    /// Monotonic-ish local identifier.
    pub id: String,
    /// When the run completed (RFC 3339, UTC).
    pub finished_at: String,
    /// What the run was asked to do.
    pub settings: JobTemplate,
    /// Pages fetched successfully.
    pub pages_fetched: u64,
    /// Pages that failed.
    pub pages_failed: u64,
    /// URLs accepted into the crawl frontier.
    pub urls_discovered: u64,
    /// Bytes downloaded.
    pub bytes_downloaded: u64,
    /// Wall-clock runtime.
    pub duration: Duration,
}

/// The content of a [`JobRecord`].
pub struct RecordView {
    pub id: Seq<char>,
    pub finished_at: Seq<char>,
    pub settings: TemplateView,
    pub pages_fetched: u64,
    pub pages_failed: u64,
    pub urls_discovered: u64,
    pub bytes_downloaded: u64,
    pub duration: Duration,
}

impl View for JobRecord {
    type V = RecordView;

    open spec fn view(&self) -> RecordView {
        RecordView {
            id: self.id@,
            finished_at: self.finished_at@,
            settings: self.settings@,
            pages_fetched: self.pages_fetched,
            pages_failed: self.pages_failed,
            urls_discovered: self.urls_discovered,
            bytes_downloaded: self.bytes_downloaded,
            duration: self.duration,
        }
    }
}

impl JobRecord {
    /// Short target label for terminal display.
    pub fn target_label(&self) -> (r: String)
        ensures
            r@ == self@.settings.target(),
    {
        if self.settings.seeds.len() > 0 {
            proof {
                assert(self@.settings.seeds[0] == self.settings.seeds@[0]@);
            }
            self.settings.seeds[0].clone()
        } else if self.settings.sitemaps.len() > 0 {
            proof {
                assert(self@.settings.sitemaps[0] == self.settings.sitemaps@[0]@);
            }
            self.settings.sitemaps[0].clone()
        } else {
            "(no target)".to_owned()
        }
    }
}

impl NewJobSpec {
    /// The settings of a recorded job, to be edited and run again.
    pub fn from_job(job: &JobRecord) -> (r: Self)
        ensures
            r@ == job@.settings.editable(),
    {
        NewJobSpec {
            target: job.target_label(),
            max_pages: job.settings.max_pages,
            depth: job.settings.max_depth,
            concurrency: job.settings.concurrency,
            scope: match &job.settings.scope {
                Some(s) => s.clone(),
                None => "domain".to_owned(),
            },
            delay: match &job.settings.delay {
                Some(d) => d.clone(),
                None => "250ms".to_owned(),
            },
            output: copy_opt(&job.settings.output),
            save: true,
        }
    }
}

/// Sums across saved jobs. Counters wrap around at the end of their range.
#[derive(Debug, Clone, Copy, PartialEq, Eq, Structural)]
pub struct JobTotals {
    /// Number of saved jobs.
    pub total_jobs: u64,
    /// Total successfully fetched pages.
    pub total_pages_fetched: u64,
    /// Total failed pages.
    pub total_pages_failed: u64,
}

/// The sums across `records`.
pub open spec fn totals_of(records: Seq<JobRecord>) -> JobTotals
    decreases records.len(),
{
    if records.len() == 0 {
        JobTotals { total_jobs: 0, total_pages_fetched: 0, total_pages_failed: 0 }
    } else {
        let before = totals_of(records.drop_last());
        let last = records.last();
        JobTotals {
            total_jobs: stats::wrapped_sum(before.total_jobs, 1),
            total_pages_fetched: stats::wrapped_sum(before.total_pages_fetched, last.pages_fetched),
            total_pages_failed: stats::wrapped_sum(before.total_pages_failed, last.pages_failed),
        }
    }
}

/// In-memory snapshot used by the dashboard.
#[derive(Debug)]
pub struct JobHistory {
    /// Most recent jobs, oldest to newest.
    pub recent: Vec<JobRecord>,
    /// Sums across all saved jobs.
    pub totals: JobTotals,
}

/// The content of a [`JobHistory`].
pub struct HistoryView {
    pub recent: Seq<RecordView>,
    pub totals: JobTotals,
}

impl View for JobHistory {
    type V = HistoryView;

    open spec fn view(&self) -> HistoryView {
        HistoryView { recent: record_views(self.recent@), totals: self.totals }
    }
}

/// The views of a list of records.
pub open spec fn record_views(records: Seq<JobRecord>) -> Seq<RecordView> {
    records.map_values(|r: JobRecord| r@)
}

/// The newest of `records`, at most as many as are kept at hand.
pub open spec fn newest<A>(records: Seq<A>) -> Seq<A> {
    if records.len() <= RECENT_LIMIT {
        records
    } else {
        records.skip(records.len() - RECENT_LIMIT)
    }
}

impl JobHistory {
    /// Make a history of all saved records, oldest first.
    pub fn from_records(all: Vec<JobRecord>) -> (r: Self)
        ensures
            r.recent@ == newest(all@),
            r.totals == totals_of(all@),
    {
        let mut totals = JobTotals {
            total_jobs: 0,
            total_pages_fetched: 0,
            total_pages_failed: 0,
        };
        let mut i: usize = 0;
        while i < all.len()
            invariant
                i <= all@.len(),
                totals == totals_of(all@.take(i as int)),
            decreases all.len() - i,
        {
            proof {
                assert(all@.take(i + 1).drop_last() =~= all@.take(i as int));
            }
            totals = JobTotals {
                total_jobs: totals.total_jobs.wrapping_add(1),
                total_pages_fetched: totals.total_pages_fetched.wrapping_add(all[i].pages_fetched),
                total_pages_failed: totals.total_pages_failed.wrapping_add(all[i].pages_failed),
            };
            i += 1;
        }
        proof {
            assert(all@.take(i as int) =~= all@);
        }
        let mut all = all;
        let recent = if all.len() <= RECENT_LIMIT {
            all
        } else {
            let start: usize = all.len() - RECENT_LIMIT;
            let ghost whole = all@;
            let tail = all.split_off(start);
            proof {
                assert(tail@ =~= whole.skip(start as int));
            }
            tail
        };
        JobHistory { recent, totals }
    }
}

/// A job that the dashboard ran can be edited into itself: its record gives
/// back the settings it was started with, but that the next run is saved.
pub proof fn dashboard_jobs_can_be_run_again(s: SpecView)
    ensures
        TemplateView::of_form(s).editable() == (SpecView { save: true, ..s }),
{
}

/// Of many jobs the newest are kept, and of few jobs all of them.
pub proof fn the_newest_jobs_are_kept(records: Seq<RecordView>, i: int)
    requires
        0 <= i < newest(records).len(),
    ensures
        newest(records).len() <= RECENT_LIMIT,
        newest(records)[newest(records).len() - 1 - i] == records[records.len() - 1 - i],
        records.len() <= RECENT_LIMIT ==> newest(records) == records,
{
}

/// What is kept of a command line is what it asks for: the limits, the scope by
/// its name, the delay as it is written, and that a crawl-delay counts only where
/// neither it nor `robots.txt` is ignored.
pub proof fn runs_are_recorded_as_asked(c: CliView)
    ensures
        ({
            let t = TemplateView::of_cli(c);
            &&& t.seeds == c.seeds
            &&& t.sitemaps == c.sitemap
            &&& t.max_pages == c.max_pages
            &&& t.max_depth == c.depth
            &&& t.concurrency == c.concurrency
            &&& t.scope == Some(c.scope.written())
            &&& t.delay == Some(delay::written(c.delay))
            &&& t.output == c.output
            &&& t.respect_crawl_delay <==> !c.ignore_robots && !c.ignore_crawl_delay
        }),
{
}

/// What is kept of a form is what stands in it.
pub proof fn forms_are_recorded_as_filled_in(s: SpecView)
    ensures
        ({
            let t = TemplateView::of_form(s);
            &&& t.seeds.len() == 1
            &&& t.seeds[0] == s.target
            &&& t.sitemaps.len() == 0
            &&& t.max_pages == s.max_pages
            &&& t.max_depth == s.depth
            &&& t.concurrency == s.concurrency
            &&& t.scope == Some(s.scope)
            &&& t.delay == Some(s.delay)
            &&& t.output == s.output
            &&& t.respect_crawl_delay
        }),
{
}

/// A job is called by its first seed, or else by its first sitemap, and is opened
/// for editing under that name with all of its settings.
pub proof fn jobs_are_opened_as_recorded(t: TemplateView)
    ensures
        t.seeds.len() > 0 ==> t.target() == t.seeds[0],
        t.seeds.len() == 0 && t.sitemaps.len() > 0 ==> t.target() == t.sitemaps[0],
        t.seeds.len() == 0 && t.sitemaps.len() == 0 ==> t.target() == "(no target)"@,
        t.editable().target == t.target(),
        t.editable().max_pages == t.max_pages,
        t.editable().depth == t.max_depth,
        t.editable().concurrency == t.concurrency,
        t.scope matches Some(s) ==> t.editable().scope == s,
        t.scope is None ==> t.editable().scope == "domain"@,
        t.delay matches Some(d) ==> t.editable().delay == d,
        t.delay is None ==> t.editable().delay == "250ms"@,
        t.editable().output == t.output,
        t.editable().save,
{
}

/// The totals count every job once, with all of its pages.
pub proof fn totals_count_every_job(records: Seq<JobRecord>, job: JobRecord)
    requires
        totals_of(records).total_jobs < u64::MAX,
        totals_of(records).total_pages_fetched + job.pages_fetched <= u64::MAX,
        totals_of(records).total_pages_failed + job.pages_failed <= u64::MAX,
    ensures
        ({
            let before = totals_of(records);
            let after = totals_of(records.push(job));
            &&& after.total_jobs == before.total_jobs + 1
            &&& after.total_pages_fetched == before.total_pages_fetched + job.pages_fetched
            &&& after.total_pages_failed == before.total_pages_failed + job.pages_failed
        }),
        totals_of(Seq::empty()) == (JobTotals {
            total_jobs: 0,
            total_pages_fetched: 0,
            total_pages_failed: 0,
        }),
{
    assert(records.push(job).drop_last() =~= records);
    assert(records.push(job).last() == job);
}

/// The last 25 jobs are at hand, in their order.
pub proof fn the_last_jobs_are_at_hand<A>(records: Seq<A>, i: int)
    ensures
        records.len() <= 25 ==> newest(records) == records,
        records.len() > 25 ==> newest(records).len() == 25,
        records.len() > 25 && 0 <= i < 25 ==> newest(records)[i] == records[records.len() - 25 + i],
{
}

} // verus!
