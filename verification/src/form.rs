//! The new-job form: settings as the user types them, and what they mean.

use vstd::prelude::*;

use crate::config::{DEFAULT_CONCURRENCY, MAX_CONCURRENCY};
use crate::text::{self, copy_opt, drop_last_char, join2, parse_number, to_decimal, to_lower};
use crate::text::{to_lower_char, trim};

verus! {

/// A key that was pressed.
#[derive(Debug, Clone, Copy, PartialEq, Eq, Structural)]
pub enum Key {
    Char(char),
    Up,
    Down,
    Tab,
    BackTab,
    Enter,
    Backspace,
    Esc,
    Other,
}

/// User-entered crawl settings from the dashboard form.
#[derive(Debug)]
pub struct NewJobSpec {
    pub target: String,
    pub max_pages: Option<usize>,
    pub depth: Option<u32>,
    pub concurrency: usize,
    pub scope: String,
    pub delay: String,
    pub output: Option<String>,
    pub save: bool,
}

/// The content of a [`NewJobSpec`].
pub struct SpecView {
    pub target: Seq<char>,
    pub max_pages: Option<usize>,
    pub depth: Option<u32>,
    pub concurrency: usize,
    pub scope: Seq<char>,
    pub delay: Seq<char>,
    pub output: Option<Seq<char>>,
    pub save: bool,
}

impl View for NewJobSpec {
    type V = SpecView;

    open spec fn view(&self) -> SpecView {
        SpecView {
            target: self.target@,
            max_pages: self.max_pages,
            depth: self.depth,
            concurrency: self.concurrency,
            scope: self.scope@,
            delay: self.delay@,
            output: text::opt_view(self.output),
            save: self.save,
        }
    }
}

impl NewJobSpec {
    /// A copy of the settings.
    pub fn copy(&self) -> (r: NewJobSpec)
        ensures
            r@ == self@,
    {
        NewJobSpec {
            target: self.target.clone(),
            max_pages: self.max_pages,
            depth: self.depth,
            concurrency: self.concurrency,
            scope: self.scope.clone(),
            delay: self.delay.clone(),
            output: copy_opt(&self.output),
            save: self.save,
        }
    }
}

/// Whether a text is a crawl scope.
pub open spec fn names_scope(s: Seq<char>) -> bool {
    s == "host"@ || s == "domain"@ || s == "any"@
}

/// Whether a text has something in it and no white space around it.
pub open spec fn tight(s: Seq<char>) -> bool {
    s.len() > 0 && text::trimmed(s) == s
}

impl SpecView {
    /// Whether the settings are ones that a form can stand for.
    pub open spec fn valid(self) -> bool {
        &&& tight(self.target)
        &&& 1 <= self.concurrency <= MAX_CONCURRENCY
        &&& names_scope(self.scope)
        &&& tight(self.delay)
        &&& self.output matches Some(o) ==> tight(o)
    }
}

/// The number of fields of the form.
pub const FIELDS: usize = 8;

/// The position of the field that says whether the job is saved.
pub const SAVE_JOB_FIELD_INDEX: usize = 7;

/// The label of a field.
pub open spec fn label_of(index: usize) -> Seq<char> {
    match index {
        0 => "Target URL"@,
        1 => "Max pages"@,
        2 => "Depth"@,
        3 => "Concurrency"@,
        4 => "Scope"@,
        5 => "Delay"@,
        6 => "Output"@,
        _ => "Save job"@,
    }
}

/// What can be typed into a field.
pub open spec fn help_of(index: usize) -> Seq<char> {
    match index {
        0 => "required; http(s) URL or sitemap URL"@,
        1 => "blank = unlimited"@,
        2 => "blank = unlimited"@,
        3 => "parallel requests, 1..1024"@,
        4 => "host | domain | any"@,
        5 => "per-host delay, e.g. 250ms or 1s"@,
        6 => "blank = do not write JSONL from dashboard-created job"@,
        _ => "(blank) | y | n (default y)"@,
    }
}

/// The label of a field.
pub fn field_label(index: usize) -> (r: &'static str)
    requires
        index < FIELDS,
    ensures
        r@ == label_of(index),
{
    match index {
        0 => "Target URL",
        1 => "Max pages",
        2 => "Depth",
        3 => "Concurrency",
        4 => "Scope",
        5 => "Delay",
        6 => "Output",
        _ => "Save job",
    }
}

/// What can be typed into a field.
pub fn field_help(index: usize) -> (r: &'static str)
    requires
        index < FIELDS,
    ensures
        r@ == help_of(index),
{
    match index {
        0 => "required; http(s) URL or sitemap URL",
        1 => "blank = unlimited",
        2 => "blank = unlimited",
        3 => "parallel requests, 1..1024",
        4 => "host | domain | any",
        5 => "per-host delay, e.g. 250ms or 1s",
        6 => "blank = do not write JSONL from dashboard-created job",
        _ => "(blank) | y | n (default y)",
    }
}

/// The form: what stands in each field, which field is active, and what is
/// wrong with the input, once that was asked for.
#[derive(Debug)]
pub struct NewJobForm {
    pub values: Vec<String>,
    pub active: usize,
    pub error: Option<String>,
}

/// The content of a [`NewJobForm`].
pub struct FormView {
    pub values: Seq<Seq<char>>,
    pub active: usize,
    pub error: Option<Seq<char>>,
}

impl View for NewJobForm {
    type V = FormView;

    open spec fn view(&self) -> FormView {
        FormView {
            values: text::texts(self.values@),
            active: self.active,
            error: text::opt_view(self.error),
        }
    }
}

/// What a key does to the form as a whole.
#[derive(Debug)]
pub enum FormStep {
    /// The form stays open.
    Stay,
    /// The form is closed without effect.
    Cancel,
    /// The job is started.
    Submit(NewJobSpec),
}

/// The content of a [`FormStep`].
pub enum FormStepView {
    Stay,
    Cancel,
    Submit(SpecView),
}

impl View for FormStep {
    type V = FormStepView;

    open spec fn view(&self) -> FormStepView {
        match self {
            FormStep::Stay => FormStepView::Stay,
            FormStep::Cancel => FormStepView::Cancel,
            FormStep::Submit(spec) => FormStepView::Submit(spec@),
        }
    }
}

/// A number of at most `max`, or nothing for a blank.
pub open spec fn optional_read(
    value: Seq<char>,
    label: Seq<char>,
    max: nat,
) -> Result<Option<nat>, Seq<char>> {
    if text::trimmed(value).len() == 0 {
        Ok(None)
    } else {
        match text::number_up_to(value, max) {
            Some(n) => Ok(Some(n)),
            None => Err(label + " must be a number or blank"@),
        }
    }
}

/// Read a number of at most `max`, or nothing from a blank.
pub fn parse_optional(value: &str, label: &str, max: u64) -> (r: Result<Option<u64>, String>)
    ensures
        match (optional_read(value@, label@, max as nat), r) {
            (Ok(None), Ok(None)) => true,
            (Ok(Some(n)), Ok(Some(v))) => v == n,
            (Err(m), Err(e)) => e@ == m,
            _ => false,
        },
{
    let bare = trim(value);
    if bare.as_str().is_empty() {
        return Ok(None);
    }
    match parse_number(value, max) {
        Some(n) => Ok(Some(n)),
        None => Err(join2(label, " must be a number or blank")),
    }
}

/// Whether the job is saved, by what stands in the field for it in lower case.
pub open spec fn save_read(s: Seq<char>) -> Option<bool> {
    if s == ""@ || s == "yes"@ || s == "y"@ || s == "true"@ || s == "1"@ {
        Some(true)
    } else if s == "no"@ || s == "n"@ || s == "false"@ || s == "0"@ {
        Some(false)
    } else {
        None
    }
}

/// Read whether the job is saved.
pub fn parse_save(s: &str) -> (r: Option<bool>)
    ensures
        r == save_read(s@),
{
    if *s == *"" || *s == *"yes" || *s == *"y" || *s == *"true" || *s == *"1" {
        Some(true)
    } else if *s == *"no" || *s == *"n" || *s == *"false" || *s == *"0" {
        Some(false)
    } else {
        None
    }
}

/// An optional number as it is typed.
pub open spec fn optional_written(n: Option<nat>) -> Seq<char> {
    match n {
        Some(v) => text::decimal(v),
        None => Seq::empty(),
    }
}

impl FormView {
    /// Every field has its text, and one of them is active.
    pub open spec fn wf(self) -> bool {
        self.values.len() == FIELDS && self.active < FIELDS
    }

    /// The form as it is first shown.
    pub open spec fn fresh() -> FormView {
        FormView {
            values: seq![
                Seq::empty(),
                "100"@,
                "1"@,
                text::decimal(DEFAULT_CONCURRENCY as nat),
                "domain"@,
                "250ms"@,
                Seq::empty(),
                "y"@,
            ],
            active: 0,
            error: None,
        }
    }

    /// The form that stands for `spec`.
    pub open spec fn of(spec: SpecView) -> FormView {
        FormView {
            values: seq![
                spec.target,
                optional_written(
                    match spec.max_pages {
                        Some(v) => Some(v as nat),
                        None => None,
                    },
                ),
                optional_written(
                    match spec.depth {
                        Some(v) => Some(v as nat),
                        None => None,
                    },
                ),
                text::decimal(spec.concurrency as nat),
                spec.scope,
                spec.delay,
                match spec.output {
                    Some(o) => o,
                    None => Seq::empty(),
                },
                if spec.save {
                    "y"@
                } else {
                    "n"@
                },
            ],
            active: 0,
            error: None,
        }
    }

    /// What stands in a field, without the white space around it.
    pub open spec fn field(self, i: int) -> Seq<char> {
        text::trimmed(self.values[i])
    }

    /// The settings that the form stands for, or what is wrong with the first
    /// field that is wrong.
    pub open spec fn read(self) -> Result<SpecView, Seq<char>> {
        let max_pages = optional_read(self.field(1), "max pages"@, usize::MAX as nat);
        let depth = optional_read(self.field(2), "depth"@, u32::MAX as nat);
        let concurrency = text::number_up_to(self.field(3), usize::MAX as nat);
        let scope = text::lowered(self.field(4));
        let save = save_read(text::lowered(self.field(7)));
        if self.field(0).len() == 0 {
            Err("target URL is required"@)
        } else if max_pages is Err {
            Err(max_pages->Err_0)
        } else if depth is Err {
            Err(depth->Err_0)
        } else if concurrency is None {
            Err("concurrency must be a number"@)
        } else if concurrency->0 == 0 {
            Err("concurrency must be at least 1"@)
        } else if concurrency->0 > MAX_CONCURRENCY {
            Err("concurrency must be at most "@ + text::decimal(MAX_CONCURRENCY as nat))
        } else if !names_scope(scope) {
            Err("scope must be host, domain, or any"@)
        } else if self.field(5).len() == 0 {
            Err("delay is required (try 250ms)"@)
        } else if save is None {
            Err("save job must be y/n (default y)"@)
        } else {
            Ok(
                SpecView {
                    target: self.field(0),
                    max_pages: match max_pages->Ok_0 {
                        Some(n) => Some(n as usize),
                        None => None,
                    },
                    depth: match depth->Ok_0 {
                        Some(n) => Some(n as u32),
                        None => None,
                    },
                    concurrency: concurrency->0 as usize,
                    scope,
                    delay: self.field(5),
                    output: if self.field(6).len() == 0 {
                        None
                    } else {
                        Some(self.field(6))
                    },
                    save: save->0,
                },
            )
        }
    }

    /// The form with another field active, wrapping around at the ends.
    pub open spec fn moved(self, forward: bool) -> FormView {
        let active = if forward {
            (self.active as int + 1) % FIELDS as int
        } else if self.active == 0 {
            FIELDS - 1
        } else {
            self.active - 1
        };
        FormView { active: active as usize, ..self }
    }

    /// The form with another text in the active field.
    pub open spec fn typed(self, value: Seq<char>) -> FormView {
        FormView {
            values: self.values.update(self.active as int, value),
            error: None,
            ..self
        }
    }

    /// The text of the active field after `c` was typed. In the field for
    /// saving, `y` and `n` replace what stands there.
    pub open spec fn with_char(self, c: char) -> Seq<char> {
        if self.active == SAVE_JOB_FIELD_INDEX && text::lower_char(c) == 'y' {
            "y"@
        } else if self.active == SAVE_JOB_FIELD_INDEX && text::lower_char(c) == 'n' {
            "n"@
        } else {
            self.values[self.active as int].push(c)
        }
    }

    /// What a key does.
    pub open spec fn pressed(self, key: Key) -> (FormView, FormStepView) {
        match key {
            Key::Esc => (self, FormStepView::Cancel),
            Key::Tab => (self.moved(true), FormStepView::Stay),
            Key::Down => (self.moved(true), FormStepView::Stay),
            Key::BackTab => (self.moved(false), FormStepView::Stay),
            Key::Up => (self.moved(false), FormStepView::Stay),
            Key::Enter => match self.read() {
                Ok(spec) => (self, FormStepView::Submit(spec)),
                Err(e) => (FormView { error: Some(e), ..self }, FormStepView::Stay),
            },
            Key::Backspace => (
                self.typed(text::shorter(self.values[self.active as int])),
                FormStepView::Stay,
            ),
            Key::Char(c) => (self.typed(self.with_char(c)), FormStepView::Stay),
            Key::Other => (self, FormStepView::Stay),
        }
    }
}

impl NewJobForm {
    /// The form as it is first shown.
    pub fn new() -> (r: Self)
        ensures
            r@ == FormView::fresh(),
            r@.wf(),
    {
        let values: Vec<String> = vec![
            "".to_owned(),
            "100".to_owned(),
            "1".to_owned(),
            to_decimal(DEFAULT_CONCURRENCY as u64),
            "domain".to_owned(),
            "250ms".to_owned(),
            "".to_owned(),
            "y".to_owned(),
        ];
        let r = NewJobForm { values, active: 0, error: None };
        proof {
            reveal_strlit("");
            assert(""@ =~= Seq::empty());
            assert(r@.values =~= FormView::fresh().values);
        }
        r
    }

    /// The form that stands for `spec`.
    pub fn from_spec(spec: NewJobSpec) -> (r: Self)
        ensures
            r@ == FormView::of(spec@),
            r@.wf(),
    {
        let ghost view = spec@;
        let max_pages = match spec.max_pages {
            Some(v) => to_decimal(v as u64),
            None => "".to_owned(),
        };
        let depth = match spec.depth {
            Some(v) => to_decimal(v as u64),
            None => "".to_owned(),
        };
        let output = match spec.output {
            Some(o) => o,
            None => "".to_owned(),
        };
        let save = if spec.save {
            "y".to_owned()
        } else {
            "n".to_owned()
        };
        let values: Vec<String> = vec![
            spec.target,
            max_pages,
            depth,
            to_decimal(spec.concurrency as u64),
            spec.scope,
            spec.delay,
            output,
            save,
        ];
        let r = NewJobForm { values, active: 0, error: None };
        proof {
            reveal_strlit("");
            assert(""@ =~= Seq::empty());
            assert(r@.values =~= FormView::of(view).values);
        }
        r
    }

    /// What stands in a field, without the white space around it.
    fn field(&self, i: usize) -> (r: String)
        requires
            self@.wf(),
            i < FIELDS,
        ensures
            r@ == self@.field(i as int),
    {
        proof {
            assert(self@.values[i as int] == self.values@[i as int]@);
        }
        trim(self.values[i].as_str())
    }

    /// The settings that the form stands for, or what is wrong with it.
    pub fn to_spec(&self) -> (r: Result<NewJobSpec, String>)
        requires
            self@.wf(),
        ensures
            match (self@.read(), r) {
                (Ok(s), Ok(spec)) => spec@ == s,
                (Err(m), Err(e)) => e@ == m,
                _ => false,
            },
    {
        let target = self.field(0);
        if target.as_str().is_empty() {
            return Err("target URL is required".to_owned());
        }
        let max_pages = match parse_optional(
            self.field(1).as_str(),
            "max pages",
            usize::MAX as u64,
        ) {
            Ok(Some(n)) => Some(n as usize),
            Ok(None) => None,
            Err(e) => {
                return Err(e);
            },
        };
        let depth = match parse_optional(self.field(2).as_str(), "depth", u32::MAX as u64) {
            Ok(Some(n)) => Some(n as u32),
            Ok(None) => None,
            Err(e) => {
                return Err(e);
            },
        };
        let concurrency: usize = match parse_number(self.field(3).as_str(), usize::MAX as u64) {
            Some(n) => n as usize,
            None => {
                return Err("concurrency must be a number".to_owned());
            },
        };
        if concurrency == 0 {
            return Err("concurrency must be at least 1".to_owned());
        }
        if concurrency > MAX_CONCURRENCY {
            let limit = to_decimal(MAX_CONCURRENCY as u64);
            return Err(join2("concurrency must be at most ", limit.as_str()));
        }
        let scope = to_lower(self.field(4).as_str());
        if !(*scope.as_str() == *"host" || *scope.as_str() == *"domain" || *scope.as_str()
            == *"any") {
            return Err("scope must be host, domain, or any".to_owned());
        }
        let delay = self.field(5);
        if delay.as_str().is_empty() {
            return Err("delay is required (try 250ms)".to_owned());
        }
        let written = self.field(6);
        let output = if written.as_str().is_empty() {
            None
        } else {
            Some(written)
        };
        let save_raw = to_lower(self.field(7).as_str());
        match parse_save(save_raw.as_str()) {
            Some(save) => Ok(
                NewJobSpec {
                    target,
                    max_pages,
                    depth,
                    concurrency,
                    scope,
                    delay,
                    output,
                    save,
                },
            ),
            None => Err("save job must be y/n (default y)".to_owned()),
        }
    }

    /// Make the next field active.
    pub fn next(&mut self)
        requires
            old(self)@.wf(),
        ensures
            final(self)@ == old(self)@.moved(true),
            final(self)@.wf(),
    {
        self.active = (self.active + 1) % FIELDS;
    }

    /// Make the previous field active.
    pub fn prev(&mut self)
        requires
            old(self)@.wf(),
        ensures
            final(self)@ == old(self)@.moved(false),
            final(self)@.wf(),
    {
        self.active = if self.active == 0 {
            FIELDS - 1
        } else {
            self.active - 1
        };
    }

    /// Put a text into the active field.
    fn set_active(&mut self, value: String)
        requires
            old(self)@.wf(),
        ensures
            final(self)@ == old(self)@.typed(value@),
            final(self)@.wf(),
    {
        let ghost v = value@;
        self.values.set(self.active, value);
        self.error = None;
        proof {
            assert(self@.values =~= old(self)@.values.update(old(self)@.active as int, v));
        }
    }

    /// React to a key.
    pub fn press(&mut self, key: Key) -> (r: FormStep)
        requires
            old(self)@.wf(),
        ensures
            final(self)@.wf(),
            (final(self)@, r@) == old(self)@.pressed(key),
    {
        match key {
            Key::Esc => FormStep::Cancel,
            Key::Tab => {
                self.next();
                FormStep::Stay
            },
            Key::Down => {
                self.next();
                FormStep::Stay
            },
            Key::BackTab => {
                self.prev();
                FormStep::Stay
            },
            Key::Up => {
                self.prev();
                FormStep::Stay
            },
            Key::Enter => match self.to_spec() {
                Ok(spec) => FormStep::Submit(spec),
                Err(e) => {
                    self.error = Some(e);
                    FormStep::Stay
                },
            },
            Key::Backspace => {
                proof {
                    assert(self@.values[self.active as int] == self.values@[self.active as int]@);
                }
                let value = drop_last_char(self.values[self.active].as_str());
                self.set_active(value);
                FormStep::Stay
            },
            Key::Char(c) => {
                proof {
                    assert(self@.values[self.active as int] == self.values@[self.active as int]@);
                }
                let low = to_lower_char(c);
                let value = if self.active == SAVE_JOB_FIELD_INDEX && low == 'y' {
                    "y".to_owned()
                } else if self.active == SAVE_JOB_FIELD_INDEX && low == 'n' {
                    "n".to_owned()
                } else {
                    let mut longer = self.values[self.active].clone();
                    longer.push(c);
                    longer
                };
                self.set_active(value);
                FormStep::Stay
            },
            Key::Other => FormStep::Stay,
        }
    }
}

/// What a form is read as is something that a form can stand for.
pub proof fn what_is_read_is_valid(f: FormView)
    requires
        f.read() is Ok,
    ensures
        f.read()->Ok_0.valid(),
{
    text::trimmed_twice(f.values[0]);
    text::trimmed_twice(f.values[5]);
    text::trimmed_twice(f.values[6]);
}

/// Editing a job starts from the job's own settings: the form that stands for
/// valid settings is read as those settings.
pub proof fn editing_starts_from_the_settings(s: SpecView)
    requires
        s.valid(),
    ensures
        FormView::of(s).read() == Ok::<SpecView, Seq<char>>(s),
{
    let f = FormView::of(s);
    reveal_strlit("host");
    reveal_strlit("domain");
    reveal_strlit("any");
    reveal_strlit("y");
    reveal_strlit("n");
    assert(f.field(0) == s.target);
    if s.max_pages is Some {
        let n = s.max_pages->0 as nat;
        text::decimal_round_trip(n);
        text::decimal_is_tight(n);
        assert(text::decimal(n).len() > 0);
    }
    if s.depth is Some {
        let n = s.depth->0 as nat;
        text::decimal_round_trip(n);
        text::decimal_is_tight(n);
        assert(text::decimal(n).len() > 0);
    }
    let c = s.concurrency as nat;
    text::decimal_round_trip(c);
    text::decimal_is_tight(c);
    assert(text::lowered("host"@) =~= "host"@);
    assert(text::lowered("domain"@) =~= "domain"@);
    assert(text::lowered("any"@) =~= "any"@);
    assert(text::lowered("y"@) =~= "y"@);
    assert(text::lowered("n"@) =~= "n"@);
    text::trimmed_of_tight("host"@);
    text::trimmed_of_tight("domain"@);
    text::trimmed_of_tight("any"@);
    text::trimmed_of_tight("y"@);
    text::trimmed_of_tight("n"@);
    text::trimmed_of_tight(Seq::empty());
    assert(f.field(4) == s.scope);
    assert(save_read(text::lowered(f.field(7))) == Some(s.save)) by {
        reveal_strlit("");
        reveal_strlit("yes");
        reveal_strlit("true");
        reveal_strlit("1");
        assert("n"@ != ""@ && "n"@ != "yes"@ && "n"@ != "true"@) by {
            assert("n"@.len() == 1);
        }
        assert("n"@[0] != "1"@[0]);
        assert("n"@[0] != "y"@[0]);
    }
}

/// The form as it is first shown lacks only its target: with one typed in, it
/// stands for a small, polite crawl of the target's domain.
pub proof fn a_fresh_form_needs_only_a_target(target: Seq<char>)
    requires
        tight(target),
    ensures
        FormView::fresh().read() is Err,
        FormView::fresh().typed(target).read() == Ok::<SpecView, Seq<char>>(
            SpecView {
                target,
                max_pages: Some(100),
                depth: Some(1),
                concurrency: DEFAULT_CONCURRENCY,
                scope: "domain"@,
                delay: "250ms"@,
                output: None,
                save: true,
            },
        ),
{
    let s = SpecView {
        target,
        max_pages: Some(100),
        depth: Some(1),
        concurrency: DEFAULT_CONCURRENCY,
        scope: "domain"@,
        delay: "250ms"@,
        output: None,
        save: true,
    };
    text::trimmed_of_tight(Seq::empty());
    reveal_strlit("250ms");
    text::trimmed_of_tight("250ms"@);
    editing_starts_from_the_settings(s);
    reveal_strlit("100");
    reveal_strlit("1");
    reveal_with_fuel(text::decimal, 4);
    assert(text::decimal(100) =~= "100"@);
    assert(text::decimal(1) =~= "1"@);
    assert(FormView::fresh().typed(target).values =~= FormView::of(s).values);
}

/// Going on and going back undo each other.
pub proof fn moving_back_undoes_moving_on(f: FormView)
    requires
        f.wf(),
    ensures
        f.moved(true).moved(false) == f,
        f.moved(false).moved(true) == f,
{
}

/// The form has eight fields, each with its label; the last one says whether the
/// job is saved.
pub proof fn fields_are_labelled()
    ensures
        FIELDS == 8,
        SAVE_JOB_FIELD_INDEX == 7,
        label_of(0) == "Target URL"@,
        label_of(1) == "Max pages"@,
        label_of(2) == "Depth"@,
        label_of(3) == "Concurrency"@,
        label_of(4) == "Scope"@,
        label_of(5) == "Delay"@,
        label_of(6) == "Output"@,
        label_of(7) == "Save job"@,
        help_of(0) == "required; http(s) URL or sitemap URL"@,
        help_of(1) == "blank = unlimited"@,
        help_of(2) == "blank = unlimited"@,
        help_of(3) == "parallel requests, 1..1024"@,
        help_of(4) == "host | domain | any"@,
        help_of(5) == "per-host delay, e.g. 250ms or 1s"@,
        help_of(6) == "blank = do not write JSONL from dashboard-created job"@,
        help_of(7) == "(blank) | y | n (default y)"@,
{
}

/// A number may be left out, and else has to be one.
pub proof fn numbers_may_be_left_out(value: Seq<char>, label: Seq<char>, max: nat)
    ensures
        text::trimmed(value).len() == 0 ==> optional_read(value, label, max) == Ok::<
            Option<nat>,
            Seq<char>,
        >(None),
        text::trimmed(value).len() > 0 && (text::number(value) is None || text::number(value)->0
            > max) ==> optional_read(value, label, max) == Err::<Option<nat>, Seq<char>>(
            label + " must be a number or blank"@,
        ),
        text::trimmed(value).len() > 0 && (text::number(value) matches Some(n) && n <= max)
            ==> optional_read(value, label, max) == Ok::<Option<nat>, Seq<char>>(
            text::number(value),
        ),
{
    text::small_numbers_are_digits(' ', value, max);
}

/// A job is saved where the field is blank or says yes, and not where it says no.
pub proof fn saving_goes_by_the_word(s: Seq<char>)
    ensures
        save_read(s) == Some(true) <==> s == ""@ || s == "yes"@ || s == "y"@ || s == "true"@ || s
            == "1"@,
        save_read(s) == Some(false) <==> s == "no"@ || s == "n"@ || s == "false"@ || s == "0"@,
        names_scope(s) <==> s == "host"@ || s == "domain"@ || s == "any"@,
{
    reveal_strlit("");
    reveal_strlit("yes");
    reveal_strlit("y");
    reveal_strlit("true");
    reveal_strlit("1");
    reveal_strlit("no");
    reveal_strlit("n");
    reveal_strlit("false");
    reveal_strlit("0");
    assert("no"@.len() == 2 && "n"@.len() == 1 && "false"@.len() == 5 && "0"@.len() == 1);
    assert(""@.len() == 0 && "yes"@.len() == 3 && "y"@.len() == 1 && "true"@.len() == 4 && "1"@.len()
        == 1);
    assert("n"@[0] == 'n' && "0"@[0] == '0' && "y"@[0] == 'y' && "1"@[0] == '1');
}

/// When a form can be started, field by field, and what its settings then are.
/// White space around what stands in a field does not count, and neither do
/// capitals in the scope and in the word for saving.
pub proof fn what_a_form_stands_for(f: FormView)
    ensures
        ({
            let pages = optional_read(text::trimmed(f.values[1]), "max pages"@, usize::MAX as nat);
            let depth = optional_read(text::trimmed(f.values[2]), "depth"@, u32::MAX as nat);
            let n = text::number_up_to(text::trimmed(f.values[3]), usize::MAX as nat);
            let scope = text::lowered(text::trimmed(f.values[4]));
            let save = save_read(text::lowered(text::trimmed(f.values[7])));
            &&& f.read() is Ok <==> {
                &&& text::trimmed(f.values[0]).len() > 0
                &&& pages is Ok
                &&& depth is Ok
                &&& n matches Some(c) && 1 <= c <= 1024
                &&& scope == "host"@ || scope == "domain"@ || scope == "any"@
                &&& text::trimmed(f.values[5]).len() > 0
                &&& save is Some
            }
            &&& f.read() matches Ok(s) ==> {
                &&& s.target == text::trimmed(f.values[0])
                &&& s.max_pages is Some <==> pages->Ok_0 is Some
                &&& s.max_pages matches Some(v) ==> v == pages->Ok_0->0
                &&& s.depth is Some <==> depth->Ok_0 is Some
                &&& s.depth matches Some(v) ==> v == depth->Ok_0->0
                &&& s.concurrency == n->0
                &&& s.scope == scope
                &&& s.delay == text::trimmed(f.values[5])
                &&& text::trimmed(f.values[6]).len() == 0 ==> s.output is None
                &&& text::trimmed(f.values[6]).len() > 0 ==> s.output == Some(
                    text::trimmed(f.values[6]),
                )
                &&& s.save == save->0
            }
        }),
{
    text::small_numbers_are_digits(' ', text::trimmed(f.values[1]), usize::MAX as nat);
    text::small_numbers_are_digits(' ', text::trimmed(f.values[2]), u32::MAX as nat);
    text::small_numbers_are_digits(' ', text::trimmed(f.values[3]), usize::MAX as nat);
}

/// What is wrong with a form is said of the first field that is wrong.
pub proof fn what_is_wrong_with_a_form(f: FormView)
    requires
        f.read() is Err,
    ensures
        ({
            let pages = optional_read(text::trimmed(f.values[1]), "max pages"@, usize::MAX as nat);
            let depth = optional_read(text::trimmed(f.values[2]), "depth"@, u32::MAX as nat);
            let n = text::number_up_to(text::trimmed(f.values[3]), usize::MAX as nat);
            let scope = text::lowered(text::trimmed(f.values[4]));
            let e = f.read()->Err_0;
            if text::trimmed(f.values[0]).len() == 0 {
                e == "target URL is required"@
            } else if pages is Err {
                e == "max pages must be a number or blank"@
            } else if depth is Err {
                e == "depth must be a number or blank"@
            } else if n is None {
                e == "concurrency must be a number"@
            } else if n->0 == 0 {
                e == "concurrency must be at least 1"@
            } else if n->0 > 1024 {
                e == "concurrency must be at most 1024"@
            } else if scope != "host"@ && scope != "domain"@ && scope != "any"@ {
                e == "scope must be host, domain, or any"@
            } else if text::trimmed(f.values[5]).len() == 0 {
                e == "delay is required (try 250ms)"@
            } else {
                e == "save job must be y/n (default y)"@
            }
        }),
{
    reveal_strlit("max pages");
    reveal_strlit("depth");
    reveal_strlit(" must be a number or blank");
    reveal_strlit("max pages must be a number or blank");
    reveal_strlit("depth must be a number or blank");
    assert("max pages"@ + " must be a number or blank"@ =~= "max pages must be a number or blank"@);
    assert("depth"@ + " must be a number or blank"@ =~= "depth must be a number or blank"@);
    reveal_strlit("concurrency must be at most ");
    reveal_strlit("concurrency must be at most 1024");
    reveal_with_fuel(text::decimal, 5);
    assert("concurrency must be at most "@ + text::decimal(1024)
        =~= "concurrency must be at most 1024"@);
}

/// A fresh form holds its defaults: 100 pages, depth 1, 16 requests at a time,
/// the domain, 250 ms, no output, saved; its target is blank and active.
pub proof fn fresh_forms_hold_the_defaults()
    ensures
        ({
            let f = FormView::fresh();
            &&& f.values.len() == 8
            &&& f.values[0].len() == 0
            &&& f.values[1] == "100"@
            &&& f.values[2] == "1"@
            &&& f.values[3] == "16"@
            &&& f.values[4] == "domain"@
            &&& f.values[5] == "250ms"@
            &&& f.values[6].len() == 0
            &&& f.values[7] == "y"@
            &&& f.active == 0
            &&& f.error is None
        }),
{
    reveal_strlit("16");
    reveal_with_fuel(text::decimal, 3);
    assert(text::decimal(16) =~= "16"@);
}

/// A form that is opened on settings shows them, field by field.
pub proof fn forms_show_their_settings(s: SpecView)
    ensures
        ({
            let f = FormView::of(s);
            &&& f.values.len() == 8
            &&& f.values[0] == s.target
            &&& s.max_pages matches Some(n) ==> f.values[1] == text::decimal(n as nat)
            &&& s.max_pages is None ==> f.values[1].len() == 0
            &&& s.depth matches Some(n) ==> f.values[2] == text::decimal(n as nat)
            &&& s.depth is None ==> f.values[2].len() == 0
            &&& f.values[3] == text::decimal(s.concurrency as nat)
            &&& f.values[4] == s.scope
            &&& f.values[5] == s.delay
            &&& s.output matches Some(o) ==> f.values[6] == o
            &&& s.output is None ==> f.values[6].len() == 0
            &&& s.save ==> f.values[7] == "y"@
            &&& !s.save ==> f.values[7] == "n"@
            &&& f.active == 0
            &&& f.error is None
        }),
{
}

/// Tab and Down go on to the next field and Up and back-tab to the one before,
/// around the ends; they change nothing else.
pub proof fn keys_move_between_fields(f: FormView)
    requires
        f.wf(),
    ensures
        ({
            let on = FormView {
                active: (if f.active == 7 {
                    0
                } else {
                    f.active + 1
                }) as usize,
                ..f
            };
            let back = FormView {
                active: (if f.active == 0 {
                    7
                } else {
                    f.active - 1
                }) as usize,
                ..f
            };
            &&& f.pressed(Key::Tab) == (on, FormStepView::Stay)
            &&& f.pressed(Key::Down) == (on, FormStepView::Stay)
            &&& f.pressed(Key::BackTab) == (back, FormStepView::Stay)
            &&& f.pressed(Key::Up) == (back, FormStepView::Stay)
            &&& f.pressed(Key::Esc) == (f, FormStepView::Cancel)
            &&& f.pressed(Key::Other) == (f, FormStepView::Stay)
        }),
{
}

/// Enter starts the job where the form can be read, and else says what is wrong;
/// the fields stay as they are.
pub proof fn enter_starts_or_complains(f: FormView)
    ensures
        f.read() matches Ok(s) ==> f.pressed(Key::Enter) == (f, FormStepView::Submit(s)),
        f.read() matches Err(e) ==> f.pressed(Key::Enter) == (
            FormView { error: Some(e), ..f },
            FormStepView::Stay,
        ),
{
}

/// A typed character goes behind what stands in the active field, and backspace
/// takes the last one away again; no other field changes. In the field for
/// saving, a `y` or an `n` of either case takes the place of what stands there.
pub proof fn typing_goes_into_the_active_field(f: FormView, c: char, i: int)
    requires
        f.wf(),
        0 <= i < 8,
    ensures
        ({
            let typed = f.pressed(Key::Char(c)).0;
            let erased = f.pressed(Key::Backspace).0;
            let a = f.active as int;
            let answer = f.active == 7 && (c == 'y' || c == 'Y' || c == 'n' || c == 'N');
            &&& typed.values.len() == 8 && erased.values.len() == 8
            &&& typed.active == f.active && erased.active == f.active
            &&& typed.error is None && erased.error is None
            &&& i != a ==> typed.values[i] == f.values[i] && erased.values[i] == f.values[i]
            &&& !answer ==> typed.values[a] == f.values[a].push(c)
            &&& !answer ==> typed.pressed(Key::Backspace).0.values == f.values
            &&& f.active == 7 && (c == 'y' || c == 'Y') ==> typed.values[7] == "y"@
            &&& f.active == 7 && (c == 'n' || c == 'N') ==> typed.values[7] == "n"@
            &&& f.values[a].len() == 0 ==> erased.values[a].len() == 0
            &&& f.values[a].len() > 0 ==> erased.values[a] == f.values[a].drop_last()
            &&& f.pressed(Key::Char(c)).1 is Stay
            &&& f.pressed(Key::Backspace).1 is Stay
        }),
{
    let typed = f.pressed(Key::Char(c)).0;
    let a = f.active as int;
    assert('Y' as u32 == 89 && 'N' as u32 == 78 && 'y' as u32 == 121 && 'n' as u32 == 110);
    let answer = f.active == 7 && (c == 'y' || c == 'Y' || c == 'n' || c == 'N');
    if !answer {
        assert(f.values[a].push(c).drop_last() =~= f.values[a]);
        assert(typed.pressed(Key::Backspace).0.values =~= f.values);
    }
}

} // verus!
