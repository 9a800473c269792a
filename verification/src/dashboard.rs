//! Crawl Deck: the state behind the terminal dashboard, and what each key does
//! to it.

use std::collections::VecDeque;

use vstd::prelude::*;

use crate::display::{self, human_bytes, pad_left, pad_right, truncate, LogLine, LogView};
use crate::engine::{CrawlControl, CrawlEvent, CrawlSummary};
use crate::form::{self, field_help, field_label, FormStep, FormStepView, FormView, Key};
use crate::form::{NewJobForm, NewJobSpec, SpecView};
use crate::jobs::{self, HistoryView, JobHistory, JobRecord};
use crate::stats::StatsSnapshot;
use crate::text::{self, join2, to_decimal};
use crate::time::{Duration, Instant};

verus! {

/// How many lines of the request log are kept.
pub const MAX_LOG_LINES: usize = 300;

/// How many samples of the request rate are kept.
pub const MAX_SAMPLES: usize = 120;

/// What the dashboard shows a crawl to be doing.
#[derive(Debug, Clone, Copy, PartialEq, Eq, Structural)]
pub enum Status {
    Idle,
    Running,
    Paused,
    Stopping,
    Finished,
}

impl Status {
    /// The status as it is shown.
    pub fn as_str(self) -> (r: &'static str)
        ensures
            r@ == match self {
                Status::Idle => "CONTROL CENTER"@,
                Status::Running => "RUNNING"@,
                Status::Paused => "PAUSED"@,
                Status::Stopping => "STOPPING"@,
                Status::Finished => "FINISHED"@,
            },
    {
        match self {
            Status::Idle => "CONTROL CENTER",
            Status::Running => "RUNNING",
            Status::Paused => "PAUSED",
            Status::Stopping => "STOPPING",
            Status::Finished => "FINISHED",
        }
    }
}

/// What fills the middle of the screen.
#[derive(Debug, Clone, Copy, PartialEq, Eq, Structural)]
pub enum ViewMode {
    Dashboard,
    NewJob,
}

/// What the user wants to do from the dashboard.
#[derive(Debug)]
pub enum DashboardAction {
    /// Close the dashboard and return to the shell.
    Exit,
    /// Clear saved job history.
    ClearJobs,
    /// Start a fresh crawl with the same options.
    Rerun,
    /// Start a crawl from the dashboard form.
    Start(NewJobSpec),
}

/// The content of a [`DashboardAction`].
pub enum ActionView {
    Exit,
    ClearJobs,
    Rerun,
    Start(SpecView),
}

impl View for DashboardAction {
    type V = ActionView;

    open spec fn view(&self) -> ActionView {
        match self {
            DashboardAction::Exit => ActionView::Exit,
            DashboardAction::ClearJobs => ActionView::ClearJobs,
            DashboardAction::Rerun => ActionView::Rerun,
            DashboardAction::Start(spec) => ActionView::Start(spec@),
        }
    }
}

/// One sample of the request rate: when it was taken, since the crawl started,
/// and how many pages were fetched over which time.
#[derive(Debug, Clone, Copy, PartialEq, Eq, Structural)]
pub struct Sample {
    pub elapsed: Duration,
    pub pages: u64,
    pub over: Duration,
}

/// The state of the dashboard.
pub struct Dashboard {
    logs: VecDeque<LogLine>,
    samples: VecDeque<Sample>,
    last_snapshot: StatsSnapshot,
    last_sample: Option<(Instant, u64)>,
    status: Status,
    hint: Option<String>,
    summary: Option<CrawlSummary>,
    jobs: JobHistory,
    last_run_spec: Option<NewJobSpec>,
    mode: ViewMode,
    form: NewJobForm,
    selected_job: usize,
}

/// The content of a [`Dashboard`].
pub struct DashboardView {
    pub logs: Seq<LogView>,
    pub samples: Seq<Sample>,
    pub last_snapshot: StatsSnapshot,
    pub last_sample: Option<(Instant, u64)>,
    pub status: Status,
    /// What the bottom line says, where it does not say the usual.
    pub hint: Option<Seq<char>>,
    /// The totals of the crawl, once it has finished.
    pub summary: Option<CrawlSummary>,
    pub jobs: HistoryView,
    pub last_run_spec: Option<SpecView>,
    pub mode: ViewMode,
    pub form: FormView,
    /// The position of the selected job, counted from the newest.
    pub selected_job: usize,
}

/// The views of a list of log lines.
pub open spec fn log_views(logs: Seq<LogLine>) -> Seq<LogView> {
    logs.map_values(|l: LogLine| l@)
}

/// The view of optional settings.
pub open spec fn opt_spec(s: Option<NewJobSpec>) -> Option<SpecView> {
    match s {
        Some(v) => Some(v@),
        None => None,
    }
}

/// The view of an optional action.
pub open spec fn opt_action(a: Option<DashboardAction>) -> Option<ActionView> {
    match a {
        Some(v) => Some(v@),
        None => None,
    }
}

impl View for Dashboard {
    type V = DashboardView;

    closed spec fn view(&self) -> DashboardView {
        DashboardView {
            logs: log_views(self.logs@),
            samples: self.samples@,
            last_snapshot: self.last_snapshot,
            last_sample: self.last_sample,
            status: self.status,
            hint: text::opt_view(self.hint),
            summary: self.summary,
            jobs: self.jobs@,
            last_run_spec: opt_spec(self.last_run_spec),
            mode: self.mode,
            form: self.form@,
            selected_job: self.selected_job,
        }
    }
}

/// `s` with `x` at its end, and without its start where it would grow past
/// `max`.
pub open spec fn capped<A>(s: Seq<A>, x: A, max: nat) -> Seq<A> {
    if s.len() == max {
        s.drop_first().push(x)
    } else {
        s.push(x)
    }
}

/// The crawl control after a request to stop, where there is a crawl.
pub open spec fn stopped(control: Option<CrawlControl>) -> Option<CrawlControl> {
    match control {
        Some(c) => Some(CrawlControl { stopping: true, ..c }),
        None => None,
    }
}

impl DashboardView {
    /// The logs and samples are bounded, the form is whole, and the selected
    /// job exists where there are jobs.
    pub open spec fn wf(self) -> bool {
        &&& self.logs.len() <= MAX_LOG_LINES
        &&& self.samples.len() <= MAX_SAMPLES
        &&& self.form.wf()
        &&& self.selected_job == 0 || self.selected_job < self.jobs.recent.len()
    }

    /// The dashboard of a crawl that has just been started.
    pub open spec fn running(jobs: HistoryView, last_run_spec: Option<SpecView>) -> DashboardView {
        DashboardView {
            logs: Seq::empty(),
            samples: Seq::empty(),
            last_snapshot: StatsSnapshot {
                fetched: 0,
                failed: 0,
                discovered: 0,
                in_flight: 0,
                bytes: 0,
                elapsed: Duration { nanos: 0 },
            },
            last_sample: None,
            status: Status::Running,
            hint: None,
            summary: None,
            jobs,
            last_run_spec,
            mode: ViewMode::Dashboard,
            form: FormView::fresh(),
            selected_job: 0,
        }
    }

    /// The dashboard without a crawl.
    pub open spec fn idle(jobs: HistoryView) -> DashboardView {
        DashboardView {
            status: Status::Idle,
            hint: Some("control center: n new job, c clear jobs, q/Esc exits"@),
            ..DashboardView::running(jobs, None)
        }
    }

    /// The dashboard with something to say at the bottom.
    pub open spec fn hinting(self, hint: Seq<char>) -> DashboardView {
        DashboardView { hint: Some(hint), ..self }
    }

    /// The state after a look at the crawl: what it is doing, and one more
    /// sample of its rate. A finished crawl is not looked at any more.
    pub open spec fn ticked(
        self,
        snapshot: StatsSnapshot,
        control: CrawlControl,
        now: Instant,
    ) -> DashboardView {
        if self.summary is Some {
            DashboardView { status: Status::Finished, ..self }
        } else {
            let sample = match self.last_sample {
                Some((at, fetched)) => Sample {
                    elapsed: snapshot.elapsed,
                    pages: if snapshot.fetched >= fetched {
                        (snapshot.fetched - fetched) as u64
                    } else {
                        0
                    },
                    over: Duration {
                        nanos: if now.nanos >= at.nanos {
                            (now.nanos - at.nanos) as u128
                        } else {
                            0
                        },
                    },
                },
                None => Sample {
                    elapsed: snapshot.elapsed,
                    pages: 0,
                    over: Duration { nanos: 0 },
                },
            };
            DashboardView {
                status: if control.stopping {
                    Status::Stopping
                } else if control.paused {
                    Status::Paused
                } else {
                    Status::Running
                },
                samples: capped(self.samples, sample, MAX_SAMPLES as nat),
                last_sample: Some((now, snapshot.fetched)),
                last_snapshot: snapshot,
                ..self
            }
        }
    }

    /// The state after the crawl has finished.
    pub open spec fn finished(self, summary: CrawlSummary, jobs: HistoryView) -> DashboardView {
        DashboardView {
            status: Status::Finished,
            last_snapshot: StatsSnapshot {
                fetched: summary.pages_fetched,
                failed: summary.pages_failed,
                discovered: summary.urls_discovered,
                in_flight: 0,
                bytes: summary.bytes_downloaded,
                elapsed: summary.duration,
            },
            hint: Some("finished: r rerun, e edit settings, q/Esc exit"@),
            summary: Some(summary),
            jobs,
            selected_job: if jobs.recent.len() == 0 {
                0
            } else if self.selected_job < jobs.recent.len() {
                self.selected_job
            } else {
                (jobs.recent.len() - 1) as usize
            },
            ..self
        }
    }

    /// Whether no crawl is under way, so that jobs can be picked and started.
    pub open spec fn settled(self) -> bool {
        self.summary is Some || self.status is Idle
    }

    /// The settings of the selected job.
    pub open spec fn selected_settings(self) -> Option<SpecView> {
        let n = self.jobs.recent.len();
        if self.selected_job < n {
            Some(self.jobs.recent[n - 1 - self.selected_job].settings.editable())
        } else {
            None
        }
    }

    /// The settings that are opened for editing: those of the selected job, or,
    /// where no job is saved, those of the run that has just finished.
    pub open spec fn settings_to_edit(self) -> Option<SpecView> {
        match self.selected_settings() {
            Some(spec) => Some(spec),
            None => if self.summary is Some {
                self.last_run_spec
            } else {
                None
            },
        }
    }

    /// The dashboard with the form open.
    pub open spec fn editing(self, form: FormView, hint: Seq<char>) -> DashboardView {
        DashboardView { mode: ViewMode::NewJob, form, ..self }.hinting(hint)
    }

    /// The dashboard with an older job selected, where there is one.
    pub open spec fn with_next_job(self) -> DashboardView {
        let n = self.jobs.recent.len();
        if n > 0 && self.selected_job + 1 < n {
            DashboardView { selected_job: (self.selected_job + 1) as usize, ..self }
        } else {
            self
        }
    }

    /// The dashboard with a newer job selected, where there is one.
    pub open spec fn with_prev_job(self) -> DashboardView {
        if self.selected_job > 0 {
            DashboardView { selected_job: (self.selected_job - 1) as usize, ..self }
        } else {
            self
        }
    }

    /// What a key does while the form is open: it goes to the form.
    pub open spec fn typed(self, key: Key) -> (DashboardView, Option<ActionView>) {
        let (form, step) = self.form.pressed(key);
        let next = DashboardView { form, ..self };
        match step {
            FormStepView::Stay => (next, None),
            FormStepView::Cancel => (
                DashboardView { mode: ViewMode::Dashboard, ..next }.hinting(
                    "new job cancelled"@,
                ),
                None,
            ),
            FormStepView::Submit(spec) => (
                next.hinting("starting new job"@),
                Some(ActionView::Start(spec)),
            ),
        }
    }

    /// What a key does while the dashboard is shown: to the dashboard, to the
    /// crawl's controls, and to whoever opened the dashboard.
    pub open spec fn steered(self, key: Key, ctrl: bool, control: Option<CrawlControl>) -> (
        DashboardView,
        Option<CrawlControl>,
        Option<ActionView>,
    ) {
        let settled = self.settled();
        let unchanged = (self, control, None::<ActionView>);
        if (key == Key::Char('n') || key == Key::Char('N')) && settled {
            (
                self.editing(
                    FormView::fresh(),
                    "new job: fill settings, Enter starts, Esc cancels"@,
                ),
                control,
                None,
            )
        } else if (key == Key::Char('e') || key == Key::Char('E')) && settled {
            match self.settings_to_edit() {
                Some(spec) => (
                    self.editing(
                        FormView::of(spec),
                        "editing run settings: change values, Enter starts"@,
                    ),
                    control,
                    None,
                ),
                None => (self.hinting("no run settings available to edit"@), control, None),
            }
        } else if (key == Key::Down || key == Key::Char('j') || key == Key::Char('J')) && settled {
            (self.with_next_job(), control, None)
        } else if (key == Key::Up || key == Key::Char('k') || key == Key::Char('K')) && settled {
            (self.with_prev_job(), control, None)
        } else if (key == Key::Char('c') || key == Key::Char('C')) && self.status is Idle {
            (self.hinting("clearing saved jobs"@), control, Some(ActionView::ClearJobs))
        } else if (key == Key::Char('r') || key == Key::Char('R')) && self.summary is Some {
            (self.hinting("rerun requested"@), control, Some(ActionView::Rerun))
        } else if key == Key::Char('c') && ctrl {
            (self.hinting("stop requested"@), stopped(control), Some(ActionView::Exit))
        } else if key == Key::Char('p') || key == Key::Char('P') || key == Key::Char(' ') {
            match control {
                Some(c) => if self.summary is None {
                    (
                        self.hinting(
                            if c.paused {
                                "resumed"@
                            } else {
                                "paused: press p to resume, s/q to stop"@
                            },
                        ),
                        Some(CrawlControl { paused: !c.paused, ..c }),
                        None,
                    )
                } else {
                    unchanged
                },
                None => unchanged,
            }
        } else if key == Key::Char('s') || key == Key::Char('S') {
            if self.summary is None && control is Some {
                (
                    self.hinting("stopping gracefully after in-flight requests finish"@),
                    stopped(control),
                    None,
                )
            } else {
                unchanged
            }
        } else if key == Key::Char('q') || key == Key::Char('Q') || key == Key::Esc {
            (
                self.hinting(
                    if self.summary is Some {
                        "exiting"@
                    } else {
                        "quit requested; stopping gracefully"@
                    },
                ),
                stopped(control),
                Some(ActionView::Exit),
            )
        } else {
            unchanged
        }
    }

    /// What a key does.
    pub open spec fn pressed(self, key: Key, ctrl: bool, control: Option<CrawlControl>) -> (
        DashboardView,
        Option<CrawlControl>,
        Option<ActionView>,
    ) {
        if self.mode is NewJob {
            let (next, action) = self.typed(key);
            (next, control, action)
        } else {
            self.steered(key, ctrl, control)
        }
    }
}

/// A line of the list of recent jobs.
pub struct JobRow {
    /// The job's position in the history.
    pub index: usize,
    pub selected: bool,
    /// The pages it fetched, in a column of their own.
    pub pages: String,
    /// What it crawled, shortened.
    pub target: String,
}

/// A line of the form.
pub struct FormRow {
    pub active: bool,
    pub label: String,
    pub value: String,
    pub help: &'static str,
}

/// What a field shows: its text, or that it is blank.
pub open spec fn shown_value(value: Seq<char>) -> Seq<char> {
    if value.len() == 0 {
        "(blank)"@
    } else {
        value
    }
}

/// The totals at the top of the dashboard, as text.
pub struct StatCards {
    pub fetched: String,
    pub failed: String,
    pub discovered: String,
    pub in_flight: String,
    pub bytes: String,
}

impl Dashboard {
    /// The dashboard of a crawl that has just been started.
    pub fn running(jobs: JobHistory, last_run_spec: Option<NewJobSpec>) -> (r: Self)
        ensures
            r@ == DashboardView::running(jobs@, opt_spec(last_run_spec)),
            r@.wf(),
    {
        let r = Dashboard {
            logs: VecDeque::new(),
            samples: VecDeque::new(),
            last_snapshot: StatsSnapshot {
                fetched: 0,
                failed: 0,
                discovered: 0,
                in_flight: 0,
                bytes: 0,
                elapsed: Duration::zero(),
            },
            last_sample: None,
            status: Status::Running,
            hint: None,
            summary: None,
            jobs,
            last_run_spec,
            mode: ViewMode::Dashboard,
            form: NewJobForm::new(),
            selected_job: 0,
        };
        proof {
            assert(r@.logs =~= Seq::empty());
            assert(r@.samples =~= Seq::empty());
        }
        r
    }

    /// The dashboard as a job history and control center, without a crawl.
    pub fn idle(jobs: JobHistory) -> (r: Self)
        ensures
            r@ == DashboardView::idle(jobs@),
            r@.wf(),
    {
        let mut dashboard = Dashboard::running(jobs, None);
        dashboard.status = Status::Idle;
        dashboard.hint = Some("control center: n new job, c clear jobs, q/Esc exits".to_owned());
        dashboard
    }

    /// Log an event.
    pub fn push_event(&mut self, event: CrawlEvent)
        requires
            old(self)@.wf(),
        ensures
            final(self)@.wf(),
            final(self)@ == (DashboardView {
                logs: capped(old(self)@.logs, LogView::of(event), MAX_LOG_LINES as nat),
                ..old(self)@
            }),
    {
        let ghost before = self.logs@;
        if self.logs.len() == MAX_LOG_LINES {
            self.logs.pop_front();
        }
        let line = LogLine::from_event(event);
        let ghost l = line;
        self.logs.push_back(line);
        proof {
            assert(self@.logs =~= capped(log_views(before), l@, MAX_LOG_LINES as nat));
        }
    }

    /// Look at the crawl.
    pub fn tick(&mut self, snapshot: StatsSnapshot, control: CrawlControl, now: Instant)
        requires
            old(self)@.wf(),
        ensures
            final(self)@.wf(),
            final(self)@ == old(self)@.ticked(snapshot, control, now),
    {
        if self.summary.is_some() {
            self.status = Status::Finished;
            return;
        }
        self.status = if control.is_stopping() {
            Status::Stopping
        } else if control.is_paused() {
            Status::Paused
        } else {
            Status::Running
        };
        let sample = match self.last_sample {
            Some((at, fetched)) => Sample {
                elapsed: snapshot.elapsed,
                pages: snapshot.fetched.saturating_sub(fetched),
                over: now.since(at),
            },
            None => Sample { elapsed: snapshot.elapsed, pages: 0, over: Duration::zero() },
        };
        self.last_sample = Some((now, snapshot.fetched));
        if self.samples.len() == MAX_SAMPLES {
            self.samples.pop_front();
        }
        self.samples.push_back(sample);
        self.last_snapshot = snapshot;
        proof {
            assert(self@.samples =~= capped(old(self)@.samples, sample, MAX_SAMPLES as nat));
        }
    }

    /// Show that the crawl has finished.
    pub fn finish(&mut self, summary: CrawlSummary, jobs: JobHistory)
        requires
            old(self)@.wf(),
        ensures
            final(self)@.wf(),
            final(self)@ == old(self)@.finished(summary, jobs@),
    {
        self.status = Status::Finished;
        self.last_snapshot = StatsSnapshot {
            fetched: summary.pages_fetched,
            failed: summary.pages_failed,
            discovered: summary.urls_discovered,
            in_flight: 0,
            bytes: summary.bytes_downloaded,
            elapsed: summary.duration,
        };
        self.hint = Some("finished: r rerun, e edit settings, q/Esc exit".to_owned());
        self.summary = Some(summary);
        self.jobs = jobs;
        self.clamp_selected_job();
    }

    fn clamp_selected_job(&mut self)
        ensures
            *final(self) == (Dashboard {
                selected_job: if old(self).jobs.recent@.len() == 0 {
                    0
                } else if old(self).selected_job < old(self).jobs.recent@.len() {
                    old(self).selected_job
                } else {
                    (old(self).jobs.recent@.len() - 1) as usize
                },
                ..*old(self)
            }),
    {
        if self.jobs.recent.len() == 0 {
            self.selected_job = 0;
        } else if self.selected_job >= self.jobs.recent.len() {
            self.selected_job = self.jobs.recent.len() - 1;
        }
    }

    /// The selected job, counted from the newest.
    pub fn selected_job(&self) -> (r: Option<&JobRecord>)
        requires
            self@.wf(),
        ensures
            r is Some <==> self@.jobs.recent.len() > 0,
            r matches Some(job) ==> job@ == self@.jobs.recent[self@.jobs.recent.len() - 1
                - self@.selected_job],
    {
        let n: usize = self.jobs.recent.len();
        if self.selected_job < n {
            Some(&self.jobs.recent[n - 1 - self.selected_job])
        } else {
            None
        }
    }

    fn select_next_job(&mut self)
        requires
            old(self)@.wf(),
        ensures
            final(self)@.wf(),
            final(self)@ == old(self)@.with_next_job(),
    {
        let n: usize = self.jobs.recent.len();
        if n > 0 && self.selected_job < n - 1 {
            self.selected_job += 1;
        }
    }

    fn select_prev_job(&mut self)
        requires
            old(self)@.wf(),
        ensures
            final(self)@.wf(),
            final(self)@ == old(self)@.with_prev_job(),
    {
        if self.selected_job > 0 {
            self.selected_job -= 1;
        }
    }

    fn say(&mut self, hint: &str)
        ensures
            final(self)@ == old(self)@.hinting(hint@),
    {
        self.hint = Some(hint.to_owned());
    }

    /// The settings that are opened for editing.
    fn settings_to_edit(&self) -> (r: Option<NewJobSpec>)
        requires
            self@.wf(),
        ensures
            opt_spec(r) == self@.settings_to_edit(),
    {
        if let Some(job) = self.selected_job() {
            return Some(NewJobSpec::from_job(job));
        }
        if self.summary.is_some() {
            if let Some(spec) = &self.last_run_spec {
                return Some(spec.copy());
            }
        }
        None
    }

    /// Open the form on some settings.
    fn edit(&mut self, form: NewJobForm, hint: &str)
        requires
            old(self)@.wf(),
            form@.wf(),
        ensures
            final(self)@.wf(),
            final(self)@ == old(self)@.editing(form@, hint@),
    {
        self.mode = ViewMode::NewJob;
        self.form = form;
        self.say(hint);
    }

    /// React to a key while the form is open.
    fn press_in_form(&mut self, key: Key) -> (r: Option<DashboardAction>)
        requires
            old(self)@.wf(),
        ensures
            final(self)@.wf(),
            (final(self)@, opt_action(r)) == old(self)@.typed(key),
    {
        match self.form.press(key) {
            FormStep::Stay => None,
            FormStep::Cancel => {
                self.mode = ViewMode::Dashboard;
                self.say("new job cancelled");
                None
            },
            FormStep::Submit(spec) => {
                self.say("starting new job");
                Some(DashboardAction::Start(spec))
            },
        }
    }

    /// React to a key. `control` is how the controls of the crawl stand, if
    /// there is a crawl; returned is how they are to stand, and what the user
    /// wants to do beyond that.
    pub fn press(&mut self, key: Key, ctrl: bool, control: Option<CrawlControl>) -> (r: (
        Option<CrawlControl>,
        Option<DashboardAction>,
    ))
        requires
            old(self)@.wf(),
        ensures
            final(self)@.wf(),
            (final(self)@, r.0, opt_action(r.1)) == old(self)@.pressed(key, ctrl, control),
    {
        if self.mode == ViewMode::NewJob {
            let action = self.press_in_form(key);
            return (control, action);
        }
        let settled = self.summary.is_some() || self.status == Status::Idle;
        let finished = self.summary.is_some();
        if (key == Key::Char('n') || key == Key::Char('N')) && settled {
            self.edit(NewJobForm::new(), "new job: fill settings, Enter starts, Esc cancels");
            (control, None)
        } else if (key == Key::Char('e') || key == Key::Char('E')) && settled {
            match self.settings_to_edit() {
                Some(spec) => self.edit(
                    NewJobForm::from_spec(spec),
                    "editing run settings: change values, Enter starts",
                ),
                None => self.say("no run settings available to edit"),
            }
            (control, None)
        } else if (key == Key::Down || key == Key::Char('j') || key == Key::Char('J')) && settled {
            self.select_next_job();
            (control, None)
        } else if (key == Key::Up || key == Key::Char('k') || key == Key::Char('K')) && settled {
            self.select_prev_job();
            (control, None)
        } else if (key == Key::Char('c') || key == Key::Char('C')) && self.status == Status::Idle {
            self.say("clearing saved jobs");
            (control, Some(DashboardAction::ClearJobs))
        } else if (key == Key::Char('r') || key == Key::Char('R')) && finished {
            self.say("rerun requested");
            (control, Some(DashboardAction::Rerun))
        } else if key == Key::Char('c') && ctrl {
            self.say("stop requested");
            (stop(control), Some(DashboardAction::Exit))
        } else if key == Key::Char('p') || key == Key::Char('P') || key == Key::Char(' ') {
            if finished {
                return (control, None);
            }
            match control {
                Some(c) => {
                    let mut c = c;
                    c.toggle_pause();
                    if c.is_paused() {
                        self.say("paused: press p to resume, s/q to stop");
                    } else {
                        self.say("resumed");
                    }
                    (Some(c), None)
                },
                None => (control, None),
            }
        } else if key == Key::Char('s') || key == Key::Char('S') {
            if !finished && control.is_some() {
                self.say("stopping gracefully after in-flight requests finish");
                (stop(control), None)
            } else {
                (control, None)
            }
        } else if key == Key::Char('q') || key == Key::Char('Q') || key == Key::Esc {
            if finished {
                self.say("exiting");
            } else {
                self.say("quit requested; stopping gracefully");
            }
            (stop(control), Some(DashboardAction::Exit))
        } else {
            (control, None)
        }
    }

    /// What the crawl is shown to be doing.
    pub fn status(&self) -> (r: Status)
        ensures
            r == self@.status,
    {
        self.status
    }

    /// What fills the middle of the screen.
    pub fn mode(&self) -> (r: ViewMode)
        ensures
            r == self@.mode,
    {
        self.mode
    }

    /// The numbers that are shown.
    pub fn snapshot(&self) -> (r: StatsSnapshot)
        ensures
            r == self@.last_snapshot,
    {
        self.last_snapshot
    }

    /// The samples of the request rate, oldest first.
    pub fn samples(&self) -> (r: Vec<Sample>)
        ensures
            r@ == self@.samples,
    {
        let mut out: Vec<Sample> = Vec::new();
        let mut i: usize = 0;
        while i < self.samples.len()
            invariant
                i <= self.samples@.len(),
                out@ == self.samples@.take(i as int),
            decreases self.samples@.len() - i,
        {
            out.push(self.samples[i]);
            i += 1;
            proof {
                assert(out@ =~= self.samples@.take(i as int));
            }
        }
        proof {
            assert(self.samples@.take(i as int) =~= self.samples@);
        }
        out
    }

    /// What is wrong with the form, if that was found out.
    pub fn form_error(&self) -> (r: Option<String>)
        ensures
            text::opt_view(r) == self@.form.error,
    {
        crate::text::copy_opt(&self.form.error)
    }

    /// What the bottom line says.
    pub fn footer(&self) -> (r: String)
        ensures
            r@ == match self@.hint {
                Some(h) => h,
                None => "n new job | Up/Down select job | e edit selected | c clear jobs | q exit"@,
            },
    {
        match &self.hint {
            Some(h) => h.clone(),
            None => {
                "n new job | Up/Down select job | e edit selected | c clear jobs | q exit".to_owned()
            },
        }
    }

    /// The totals at the top of the dashboard, as text.
    pub fn stat_cards(&self) -> (r: StatCards)
        ensures
            r.fetched@ == text::decimal(self@.last_snapshot.fetched as nat),
            r.failed@ == text::decimal(self@.last_snapshot.failed as nat),
            r.discovered@ == text::decimal(self@.last_snapshot.discovered as nat),
            r.in_flight@ == text::decimal(self@.last_snapshot.in_flight as nat),
            r.bytes@ == display::bytes_shown(self@.last_snapshot.bytes as nat),
    {
        let s = self.last_snapshot;
        StatCards {
            fetched: to_decimal(s.fetched),
            failed: to_decimal(s.failed),
            discovered: to_decimal(s.discovered),
            in_flight: to_decimal(s.in_flight),
            bytes: human_bytes(s.bytes),
        }
    }

    /// Sums across the saved jobs.
    pub fn totals(&self) -> (r: jobs::JobTotals)
        ensures
            r == self@.jobs.totals,
    {
        self.jobs.totals
    }

    /// The job at a position of the history.
    pub fn job(&self, index: usize) -> (r: &JobRecord)
        requires
            index < self@.jobs.recent.len(),
        ensures
            r@ == self@.jobs.recent[index as int],
    {
        &self.jobs.recent[index]
    }

    /// The position of the first log line to show where `visible` lines fit:
    /// the newest lines are shown.
    pub fn first_visible_log(&self, visible: usize) -> (r: usize)
        ensures
            r == if self@.logs.len() <= visible {
                0
            } else {
                self@.logs.len() - visible
            },
    {
        let n: usize = self.logs.len();
        if n <= visible {
            0
        } else {
            n - visible
        }
    }

    /// How many log lines there are.
    pub fn log_count(&self) -> (r: usize)
        ensures
            r == self@.logs.len(),
    {
        self.logs.len()
    }

    /// The log line at a position, oldest first.
    pub fn log(&self, index: usize) -> (r: &LogLine)
        requires
            index < self@.logs.len(),
        ensures
            r@ == self@.logs[index as int],
    {
        &self.logs[index]
    }

    /// The lines of the list of recent jobs, newest first, where `visible` of
    /// them fit.
    pub fn recent_rows(&self, visible: usize) -> (r: Vec<JobRow>)
        ensures
            r@.len() == if self@.jobs.recent.len() < visible {
                self@.jobs.recent.len() as int
            } else {
                visible as int
            },
            forall|i: int|
                0 <= i < r@.len() ==> {
                    let row = #[trigger] r@[i];
                    let job = self@.jobs.recent[self@.jobs.recent.len() - 1 - i];
                    let pages = text::decimal(job.pages_fetched as nat);
                    &&& row.index == self@.jobs.recent.len() - 1 - i
                    &&& row.selected == (i == self@.selected_job)
                    &&& row.pages@ == display::blanks(4 - pages.len()) + pages + "p"@
                    &&& row.target@ == display::shortened(job.settings.target(), 80)
                },
    {
        let n: usize = self.jobs.recent.len();
        let mut rows: Vec<JobRow> = Vec::new();
        let mut i: usize = 0;
        while i < n && i < visible
            invariant
                n == self.jobs.recent@.len(),
                i <= n,
                i <= visible,
                rows@.len() == i,
                forall|k: int|
                    0 <= k < i ==> {
                        let row = #[trigger] rows@[k];
                        let job = self@.jobs.recent[n - 1 - k];
                        let pages = text::decimal(job.pages_fetched as nat);
                        &&& row.index == n - 1 - k
                        &&& row.selected == (k == self@.selected_job)
                        &&& row.pages@ == display::blanks(4 - pages.len()) + pages + "p"@
                        &&& row.target@ == display::shortened(job.settings.target(), 80)
                    },
            decreases n - i,
        {
            let index: usize = n - 1 - i;
            let job = &self.jobs.recent[index];
            proof {
                assert(self@.jobs.recent[index as int] == job@);
            }
            let count = to_decimal(job.pages_fetched);
            rows.push(
                JobRow {
                    index,
                    selected: i == self.selected_job,
                    pages: join2(pad_left(count.as_str(), 4).as_str(), "p"),
                    target: truncate(job.target_label().as_str(), 80),
                },
            );
            i += 1;
        }
        rows
    }

    /// The lines of the form.
    pub fn form_rows(&self) -> (r: Vec<FormRow>)
        requires
            self@.wf(),
        ensures
            r@.len() == form::FIELDS,
            forall|i: int|
                0 <= i < r@.len() ==> {
                    let row = #[trigger] r@[i];
                    &&& row.active == (i == self@.form.active)
                    &&& row.value@ == shown_value(self@.form.values[i])
                    &&& row.label@ == form::label_of(i as usize) + display::blanks(
                        12 - form::label_of(i as usize).len(),
                    )
                    &&& row.help@ == form::help_of(i as usize)
                },
    {
        let mut rows: Vec<FormRow> = Vec::new();
        let mut i: usize = 0;
        while i < form::FIELDS
            invariant
                self@.wf(),
                i <= form::FIELDS,
                rows@.len() == i,
                forall|k: int|
                    0 <= k < i ==> {
                        let row = #[trigger] rows@[k];
                        &&& row.active == (k == self@.form.active)
                        &&& row.value@ == shown_value(self@.form.values[k])
                        &&& row.label@ == form::label_of(k as usize) + display::blanks(
                            12 - form::label_of(k as usize).len(),
                        )
                        &&& row.help@ == form::help_of(k as usize)
                    },
            decreases form::FIELDS - i,
        {
            proof {
                assert(self@.form.values[i as int] == self.form.values@[i as int]@);
            }
            let value = if self.form.values[i].as_str().is_empty() {
                "(blank)".to_owned()
            } else {
                self.form.values[i].clone()
            };
            rows.push(
                FormRow {
                    active: i == self.form.active,
                    label: pad_right(field_label(i), 12),
                    value,
                    help: field_help(i),
                },
            );
            i += 1;
        }
        rows
    }
}

/// Request a stop of the crawl, where there is one.
fn stop(control: Option<CrawlControl>) -> (r: Option<CrawlControl>)
    ensures
        r == stopped(control),
{
    match control {
        Some(c) => {
            let mut c = c;
            c.stop();
            Some(c)
        },
        None => None,
    }
}

/// Typing into the form never touches the crawl: its controls stay as they
/// are, and the only action that can come of it is to start a job with valid
/// settings.
pub proof fn the_form_leaves_the_crawl_alone(
    d: DashboardView,
    key: Key,
    ctrl: bool,
    control: Option<CrawlControl>,
)
    requires
        d.mode is NewJob,
    ensures
        ({
            let (next, after, action) = d.pressed(key, ctrl, control);
            &&& after == control
            &&& action matches Some(a) ==> (a matches ActionView::Start(spec) && spec.valid())
            &&& next.jobs == d.jobs
            &&& next.status == d.status
        }),
{
    if d.form.read() is Ok {
        form::what_is_read_is_valid(d.form);
    }
}

/// While a crawl is under way, keys can pause, resume and stop it, or leave;
/// they cannot start, rerun or clear anything.
pub proof fn a_running_crawl_is_not_disturbed(
    d: DashboardView,
    key: Key,
    ctrl: bool,
    control: Option<CrawlControl>,
)
    requires
        d.mode is Dashboard,
        !d.settled(),
    ensures
        ({
            let (next, after, action) = d.pressed(key, ctrl, control);
            &&& action matches Some(a) ==> a is Exit
            &&& next == (DashboardView { hint: next.hint, ..d })
            &&& action is Some && control is Some ==> after->0.stopping
        }),
{
}

/// Pausing twice is resuming: the second press undoes the first.
pub proof fn pausing_can_be_undone(d: DashboardView, ctrl: bool, control: CrawlControl)
    requires
        d.mode is Dashboard,
        d.summary is None,
    ensures
        ({
            let (once, first, _) = d.pressed(Key::Char('p'), ctrl, Some(control));
            let (_, second, _) = once.pressed(Key::Char('p'), ctrl, first);
            &&& first == Some(CrawlControl { paused: !control.paused, ..control })
            &&& second == Some(control)
        }),
{
}

/// There is always a way out: from the dashboard `q` and `Esc` leave it, and
/// from the form `Esc` leads back to the dashboard.
pub proof fn there_is_a_way_out(d: DashboardView, ctrl: bool, control: Option<CrawlControl>)
    ensures
        d.mode is Dashboard ==> d.pressed(Key::Esc, ctrl, control).2 == Some(ActionView::Exit)
            && d.pressed(Key::Char('q'), ctrl, control).2 == Some(ActionView::Exit),
        d.mode is NewJob ==> d.pressed(Key::Esc, ctrl, control).0.mode is Dashboard,
{
}

/// While no crawl is under way, `e` opens the form on the selected job: the
/// form shows its settings, nothing is started, and the selection stays.
pub proof fn editing_goes_by_the_selection(
    d: DashboardView,
    ctrl: bool,
    control: Option<CrawlControl>,
)
    requires
        d.mode is Dashboard,
        d.settled(),
        d.selected_job < d.jobs.recent.len(),
    ensures
        ({
            let n = d.jobs.recent.len();
            let job = d.jobs.recent[n - 1 - d.selected_job];
            let (next, after, action) = d.pressed(Key::Char('e'), ctrl, control);
            &&& next.mode is NewJob
            &&& next.form == FormView::of(job.settings.editable())
            &&& next.jobs == d.jobs
            &&& next.selected_job == d.selected_job
            &&& after == control
            &&& action is None
        }),
{
}

/// Every key keeps the dashboard whole.
pub proof fn keys_keep_the_dashboard_whole(
    d: DashboardView,
    key: Key,
    ctrl: bool,
    control: Option<CrawlControl>,
)
    requires
        d.wf(),
    ensures
        d.pressed(key, ctrl, control).0.wf(),
{
}

/// The log keeps the last 300 lines and the chart the last 120 samples, in order,
/// the newest at the end.
pub proof fn the_newest_lines_are_kept<A>(s: Seq<A>, x: A, max: nat)
    requires
        s.len() <= max,
        max > 0,
    ensures
        MAX_LOG_LINES == 300,
        MAX_SAMPLES == 120,
        capped(s, x, max).len() <= max,
        capped(s, x, max).last() == x,
        s.len() < max ==> capped(s, x, max) == s.push(x),
        s.len() == max ==> capped(s, x, max) == s.skip(1).push(x),
{
    if s.len() == max {
        assert(s.drop_first() =~= s.skip(1));
    }
}

/// A look at a crawl under way shows what it is doing, its numbers, and how many
/// pages came since the last look and over which time.
pub proof fn looks_show_the_crawl(
    d: DashboardView,
    snapshot: StatsSnapshot,
    control: CrawlControl,
    now: Instant,
)
    requires
        d.wf(),
        d.summary is None,
    ensures
        ({
            let after = d.ticked(snapshot, control, now);
            let sample = after.samples.last();
            &&& control.stopping ==> after.status is Stopping
            &&& !control.stopping && control.paused ==> after.status is Paused
            &&& !control.stopping && !control.paused ==> after.status is Running
            &&& after.last_snapshot == snapshot
            &&& after.last_sample == Some((now, snapshot.fetched))
            &&& sample.elapsed == snapshot.elapsed
            &&& d.last_sample is None ==> sample.pages == 0 && sample.over.nanos == 0
            &&& d.last_sample matches Some((at, fetched)) ==> {
                &&& snapshot.fetched >= fetched ==> sample.pages == snapshot.fetched - fetched
                &&& snapshot.fetched < fetched ==> sample.pages == 0
                &&& now.nanos >= at.nanos ==> sample.over.nanos == now.nanos - at.nanos
                &&& now.nanos < at.nanos ==> sample.over.nanos == 0
            }
            &&& after == DashboardView {
                status: after.status,
                samples: after.samples,
                last_sample: after.last_sample,
                last_snapshot: after.last_snapshot,
                ..d
            }
        }),
{
    let after = d.ticked(snapshot, control, now);
    the_newest_lines_are_kept(d.samples, after.samples.last(), 120);
}

/// A finished crawl is not looked at any more.
pub proof fn finished_crawls_stay_finished(
    d: DashboardView,
    snapshot: StatsSnapshot,
    control: CrawlControl,
    now: Instant,
)
    requires
        d.summary is Some,
    ensures
        d.ticked(snapshot, control, now) == (DashboardView { status: Status::Finished, ..d }),
{
}

/// A crawl that has finished shows its totals, with nothing in flight, and what
/// can be done next; the selection stays where it can.
pub proof fn finished_crawls_show_their_totals(
    d: DashboardView,
    summary: CrawlSummary,
    jobs: HistoryView,
)
    ensures
        ({
            let after = d.finished(summary, jobs);
            &&& after.status is Finished
            &&& after.last_snapshot.fetched == summary.pages_fetched
            &&& after.last_snapshot.failed == summary.pages_failed
            &&& after.last_snapshot.discovered == summary.urls_discovered
            &&& after.last_snapshot.in_flight == 0
            &&& after.last_snapshot.bytes == summary.bytes_downloaded
            &&& after.last_snapshot.elapsed == summary.duration
            &&& after.hint == Some("finished: r rerun, e edit settings, q/Esc exit"@)
            &&& after.summary == Some(summary)
            &&& after.jobs == jobs
            &&& d.selected_job < jobs.recent.len() ==> after.selected_job == d.selected_job
            &&& jobs.recent.len() == 0 ==> after.selected_job == 0
            &&& 0 < jobs.recent.len() <= d.selected_job ==> after.selected_job == jobs.recent.len()
                - 1
            &&& after.logs == d.logs
            &&& after.samples == d.samples
            &&& after.last_sample == d.last_sample
            &&& after.last_run_spec == d.last_run_spec
            &&& after.mode == d.mode
            &&& after.form == d.form
        }),
{
}

/// How a dashboard opens: on a crawl that runs, or as a control center without
/// one, with nothing logged and the form as it is first shown.
pub proof fn dashboards_open_empty(jobs: HistoryView, spec: Option<SpecView>)
    ensures
        ({
            let r = DashboardView::running(jobs, spec);
            let i = DashboardView::idle(jobs);
            &&& r.logs.len() == 0 && r.samples.len() == 0
            &&& r.last_sample is None && r.summary is None
            &&& r.status is Running
            &&& r.hint is None
            &&& r.jobs == jobs
            &&& r.last_run_spec == spec
            &&& r.mode is Dashboard
            &&& r.form == FormView::fresh()
            &&& r.selected_job == 0
            &&& r.last_snapshot.fetched == 0 && r.last_snapshot.failed == 0
            &&& r.last_snapshot.discovered == 0 && r.last_snapshot.in_flight == 0
            &&& r.last_snapshot.bytes == 0 && r.last_snapshot.elapsed.nanos == 0
            &&& i == DashboardView {
                status: Status::Idle,
                hint: Some("control center: n new job, c clear jobs, q/Esc exits"@),
                last_run_spec: None,
                ..r
            }
        }),
{
}

/// Without a crawl under way, `n` opens a fresh form, `e` opens the form on the
/// settings of the selected job, or of the last run where no job is saved, and
/// the arrows and `j` and `k` go through the jobs, from the newest to the oldest
/// and no further.
pub proof fn settled_dashboards_pick_jobs(
    d: DashboardView,
    key: Key,
    ctrl: bool,
    control: Option<CrawlControl>,
)
    requires
        d.wf(),
        d.mode is Dashboard,
        d.summary is Some || d.status is Idle,
    ensures
        ({
            let (next, after, action) = d.pressed(key, ctrl, control);
            let n = d.jobs.recent.len() as int;
            let older = DashboardView {
                selected_job: (if d.selected_job + 1 < n {
                    d.selected_job + 1
                } else {
                    d.selected_job as int
                }) as usize,
                ..d
            };
            let newer = DashboardView {
                selected_job: (if d.selected_job > 0 {
                    d.selected_job - 1
                } else {
                    0
                }) as usize,
                ..d
            };
            &&& key == Key::Char('n') || key == Key::Char('N') ==> next == (DashboardView {
                mode: ViewMode::NewJob,
                form: FormView::fresh(),
                hint: Some("new job: fill settings, Enter starts, Esc cancels"@),
                ..d
            }) && after == control && action is None
            &&& (key == Key::Char('e') || key == Key::Char('E')) && n > 0 ==> next == (
            DashboardView {
                mode: ViewMode::NewJob,
                form: FormView::of(d.jobs.recent[n - 1 - d.selected_job].settings.editable()),
                hint: Some("editing run settings: change values, Enter starts"@),
                ..d
            }) && after == control && action is None
            &&& (key == Key::Char('e') || key == Key::Char('E')) && n == 0 && d.summary is Some
                && d.last_run_spec is Some ==> next == (DashboardView {
                mode: ViewMode::NewJob,
                form: FormView::of(d.last_run_spec->0),
                hint: Some("editing run settings: change values, Enter starts"@),
                ..d
            }) && after == control && action is None
            &&& (key == Key::Char('e') || key == Key::Char('E')) && n == 0 && (d.summary is None
                || d.last_run_spec is None) ==> next == (DashboardView {
                hint: Some("no run settings available to edit"@),
                ..d
            }) && after == control && action is None
            &&& key == Key::Down || key == Key::Char('j') || key == Key::Char('J') ==> next == older
                && after == control && action is None
            &&& key == Key::Up || key == Key::Char('k') || key == Key::Char('K') ==> next == newer
                && after == control && action is None
        }),
{
}

/// `c` clears the jobs of an idle dashboard, `r` runs a finished crawl again, and
/// `c` with the control key stops and leaves wherever else it is pressed.
pub proof fn jobs_are_cleared_and_rerun(
    d: DashboardView,
    ctrl: bool,
    control: Option<CrawlControl>,
)
    requires
        d.mode is Dashboard,
    ensures
        d.status is Idle ==> d.pressed(Key::Char('c'), ctrl, control) == (
            DashboardView { hint: Some("clearing saved jobs"@), ..d },
            control,
            Some(ActionView::ClearJobs),
        ),
        d.status is Idle ==> d.pressed(Key::Char('C'), ctrl, control) == d.pressed(
            Key::Char('c'),
            ctrl,
            control,
        ),
        d.summary is Some ==> d.pressed(Key::Char('r'), ctrl, control) == (
            DashboardView { hint: Some("rerun requested"@), ..d },
            control,
            Some(ActionView::Rerun),
        ),
        d.summary is Some ==> d.pressed(Key::Char('R'), ctrl, control) == d.pressed(
            Key::Char('r'),
            ctrl,
            control,
        ),
        d.status !is Idle ==> {
            let (next, after, action) = d.pressed(Key::Char('c'), true, control);
            &&& next == DashboardView { hint: Some("stop requested"@), ..d }
            &&& action == Some(ActionView::Exit)
            &&& after is Some <==> control is Some
            &&& control matches Some(c) ==> after == Some(CrawlControl { stopping: true, ..c })
        },
        d.status !is Idle ==> d.pressed(Key::Char('c'), false, control) == (
            d,
            control,
            None::<ActionView>,
        ),
        d.summary is None ==> d.pressed(Key::Char('r'), ctrl, control) == (
            d,
            control,
            None::<ActionView>,
        ),
{
}

/// `p` and the space bar pause and resume a crawl under way, `s` stops it, and
/// `q` and `Esc` stop it and leave; each says what it does, and none changes
/// anything else.
pub proof fn keys_steer_the_crawl(d: DashboardView, ctrl: bool, c: CrawlControl)
    requires
        d.mode is Dashboard,
        d.summary is None,
    ensures
        ({
            let paused = (
                DashboardView {
                    hint: Some(
                        if c.paused {
                            "resumed"@
                        } else {
                            "paused: press p to resume, s/q to stop"@
                        },
                    ),
                    ..d
                },
                Some(CrawlControl { paused: !c.paused, stopping: c.stopping }),
                None::<ActionView>,
            );
            let stopped = (
                DashboardView {
                    hint: Some("stopping gracefully after in-flight requests finish"@),
                    ..d
                },
                Some(CrawlControl { paused: c.paused, stopping: true }),
                None::<ActionView>,
            );
            let left = (
                DashboardView { hint: Some("quit requested; stopping gracefully"@), ..d },
                Some(CrawlControl { paused: c.paused, stopping: true }),
                Some(ActionView::Exit),
            );
            &&& d.pressed(Key::Char('p'), ctrl, Some(c)) == paused
            &&& d.pressed(Key::Char('P'), ctrl, Some(c)) == paused
            &&& d.pressed(Key::Char(' '), ctrl, Some(c)) == paused
            &&& d.pressed(Key::Char('s'), ctrl, Some(c)) == stopped
            &&& d.pressed(Key::Char('S'), ctrl, Some(c)) == stopped
            &&& d.pressed(Key::Char('q'), ctrl, Some(c)) == left
            &&& d.pressed(Key::Char('Q'), ctrl, Some(c)) == left
            &&& d.pressed(Key::Esc, ctrl, Some(c)) == left
        }),
{
}

/// A finished crawl is neither paused nor stopped any more, and `q` and `Esc`
/// leave its dashboard.
pub proof fn finished_crawls_can_only_be_left(
    d: DashboardView,
    ctrl: bool,
    control: Option<CrawlControl>,
)
    requires
        d.mode is Dashboard,
        d.summary is Some,
    ensures
        d.pressed(Key::Char('p'), ctrl, control) == (d, control, None::<ActionView>),
        d.pressed(Key::Char(' '), ctrl, control) == (d, control, None::<ActionView>),
        d.pressed(Key::Char('s'), ctrl, control) == (d, control, None::<ActionView>),
        d.pressed(Key::Char('q'), ctrl, control).0 == (DashboardView {
            hint: Some("exiting"@),
            ..d
        }),
        d.pressed(Key::Esc, ctrl, control) == d.pressed(Key::Char('q'), ctrl, control),
        d.pressed(Key::Char('q'), ctrl, control).2 == Some(ActionView::Exit),
{
}

/// Every key that is not listed does nothing.
pub proof fn other_keys_do_nothing(
    d: DashboardView,
    key: Key,
    ctrl: bool,
    control: Option<CrawlControl>,
)
    requires
        d.mode is Dashboard,
        key is Tab || key is BackTab || key is Enter || key is Backspace || key is Other || (
        key matches Key::Char(c) && c != 'n' && c != 'N' && c != 'e' && c != 'E' && c != 'j' && c
            != 'J' && c != 'k' && c != 'K' && c != 'c' && c != 'C' && c != 'r' && c != 'R' && c
            != 'p' && c != 'P' && c != ' ' && c != 's' && c != 'S' && c != 'q' && c != 'Q'),
    ensures
        d.pressed(key, ctrl, control) == (d, control, None::<ActionView>),
{
}

/// While the form is open every key goes to it: leaving it says so and leads back
/// to the dashboard, and starting a job hands its settings on.
pub proof fn the_form_gets_every_key(
    d: DashboardView,
    key: Key,
    ctrl: bool,
    control: Option<CrawlControl>,
)
    requires
        d.mode is NewJob,
    ensures
        ({
            let (form, step) = d.form.pressed(key);
            let (next, after, action) = d.pressed(key, ctrl, control);
            &&& after == control
            &&& next.form == form
            &&& step is Stay ==> next == (DashboardView { form, ..d }) && action is None
            &&& step is Cancel ==> next == (DashboardView {
                form,
                mode: ViewMode::Dashboard,
                hint: Some("new job cancelled"@),
                ..d
            }) && action is None
            &&& step matches FormStepView::Submit(spec) ==> next == (DashboardView {
                form,
                hint: Some("starting new job"@),
                ..d
            }) && action == Some(ActionView::Start(spec))
        }),
{
}

/// A blank field says so, and any other shows its text.
pub proof fn blanks_are_shown(value: Seq<char>)
    ensures
        value.len() == 0 ==> shown_value(value) == "(blank)"@,
        value.len() > 0 ==> shown_value(value) == value,
{
}

} // verus!
