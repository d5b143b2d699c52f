//! The application state machine. A single `App` value owns every piece of
//! mutable state; background workers reach it only as `AppEvent` values
//! applied through `handle_event`, and key strokes reach it through the
//! per-mode handlers. Each transition is specified against `AppView`, the
//! mathematical image of the state, by the spec functions `event_step` and
//! the per-mode key steps.

use vstd::prelude::*;
use vstd::pervasive::VecAdditionalExecFns;

use crate::brew::{Brew, FormulaInfo, FormulaInfoView};
use crate::strutil::{contains_seq, contains_str, seq_find, spec_dec, usize_to_string};

verus! {

/// What an input prompt is collecting: a package name to install, or a
/// search query.
#[derive(Clone, Copy, PartialEq, Eq, Structural, Debug)]
pub enum InputAction {
    Install,
    Search,
}

/// The action a confirmation dialog is about.
#[derive(Clone, Debug)]
pub enum ConfirmAction {
    Install,
    Uninstall,
    Upgrade,
    BulkUpgrade(Vec<String>),
    InstallBrew,
}

/// `ConfirmAction` in mathematical terms.
pub enum ConfirmActionView {
    Install,
    Uninstall,
    Upgrade,
    BulkUpgrade(Seq<Seq<char>>),
    InstallBrew,
}

impl View for ConfirmAction {
    type V = ConfirmActionView;

    open spec fn view(&self) -> ConfirmActionView {
        match self {
            ConfirmAction::Install => ConfirmActionView::Install,
            ConfirmAction::Uninstall => ConfirmActionView::Uninstall,
            ConfirmAction::Upgrade => ConfirmActionView::Upgrade,
            ConfirmAction::BulkUpgrade(v) => ConfirmActionView::BulkUpgrade(v.deep_view()),
            ConfirmAction::InstallBrew => ConfirmActionView::InstallBrew,
        }
    }
}

/// The one active screen and its private state.
#[derive(Clone, Debug)]
pub enum Mode {
    Normal,
    Help,
    Input { action: InputAction, buffer: String },
    Confirm { action: ConfirmAction, name: String, idx: Option<usize> },
    SearchResults { results: Vec<String>, selected: usize },
    Outdated { packages: Vec<String>, cursor: usize, checked: Vec<bool>, scroll: usize },
    Operation { title: String, logs: Vec<String>, scroll: usize },
}

/// `Mode` in mathematical terms.
#[verifier::ext_equal]
pub enum ModeView {
    Normal,
    Help,
    Input { action: InputAction, buffer: Seq<char> },
    Confirm { action: ConfirmActionView, name: Seq<char>, idx: Option<int> },
    SearchResults { results: Seq<Seq<char>>, selected: int },
    Outdated { packages: Seq<Seq<char>>, cursor: int, checked: Seq<bool>, scroll: int },
    Operation { title: Seq<char>, logs: Seq<Seq<char>>, scroll: int },
}

/// The index payload of a confirmation, as a mathematical integer.
pub open spec fn opt_idx_view(i: Option<usize>) -> Option<int> {
    match i {
        Some(x) => Some(x as int),
        None => None,
    }
}

/// A sequence of machine indices as mathematical integers.
pub open spec fn usize_views(v: Seq<usize>) -> Seq<int> {
    v.map_values(|x: usize| x as int)
}

/// The identity index sequence 0, 1, ..., n-1.
pub open spec fn identity_seq(n: int) -> Seq<int> {
    Seq::new(n as nat, |i: int| i)
}

/// A cursor clamped into a collection of length `n` (zero for an empty one).
pub open spec fn clamp_index(i: int, n: int) -> int {
    if i < n {
        i
    } else if n > 0 {
        n - 1
    } else {
        0
    }
}

impl View for Mode {
    type V = ModeView;

    open spec fn view(&self) -> ModeView {
        match self {
            Mode::Normal => ModeView::Normal,
            Mode::Help => ModeView::Help,
            Mode::Input { action, buffer } => ModeView::Input {
                action: *action,
                buffer: buffer@,
            },
            Mode::Confirm { action, name, idx } => ModeView::Confirm {
                action: action@,
                name: name@,
                idx: opt_idx_view(*idx),
            },
            Mode::SearchResults { results, selected } => ModeView::SearchResults {
                results: results.deep_view(),
                selected: *selected as int,
            },
            Mode::Outdated { packages, cursor, checked, scroll } => ModeView::Outdated {
                packages: packages.deep_view(),
                cursor: *cursor as int,
                checked: checked@,
                scroll: *scroll as int,
            },
            Mode::Operation { title, logs, scroll } => ModeView::Operation {
                title: title@,
                logs: logs.deep_view(),
                scroll: *scroll as int,
            },
        }
    }
}

/// Which column receives navigation keys.
#[derive(Clone, Copy, PartialEq, Eq, Structural, Debug)]
pub enum Focus {
    Installed,
    Available,
}

/// A typed message from a background worker to the state machine.
pub enum AppEvent {
    Status(String),
    BrewList(Vec<FormulaInfo>),
    BrewInfo(FormulaInfo, usize),
    BrewInfoAvailable(FormulaInfo, usize),
    Log(String),
    OpStart(String),
    OpLog(String),
    OpEnd(String),
    ShowConfirm(ConfirmAction, String, Option<usize>),
    SearchResults(Vec<String>),
    OutdatedList(Vec<String>),
    AvailableList(Vec<String>),
}

/// `AppEvent` in mathematical terms.
pub enum AppEventView {
    Status(Seq<char>),
    BrewList(Seq<FormulaInfoView>),
    BrewInfo(FormulaInfoView, int),
    BrewInfoAvailable(FormulaInfoView, int),
    Log(Seq<char>),
    OpStart(Seq<char>),
    OpLog(Seq<char>),
    OpEnd(Seq<char>),
    ShowConfirm(ConfirmActionView, Seq<char>, Option<int>),
    SearchResults(Seq<Seq<char>>),
    OutdatedList(Seq<Seq<char>>),
    AvailableList(Seq<Seq<char>>),
}

impl View for AppEvent {
    type V = AppEventView;

    open spec fn view(&self) -> AppEventView {
        match self {
            AppEvent::Status(t) => AppEventView::Status(t@),
            AppEvent::BrewList(l) => AppEventView::BrewList(l.deep_view()),
            AppEvent::BrewInfo(f, i) => AppEventView::BrewInfo(f@, *i as int),
            AppEvent::BrewInfoAvailable(f, i) => AppEventView::BrewInfoAvailable(f@, *i as int),
            AppEvent::Log(t) => AppEventView::Log(t@),
            AppEvent::OpStart(t) => AppEventView::OpStart(t@),
            AppEvent::OpLog(t) => AppEventView::OpLog(t@),
            AppEvent::OpEnd(t) => AppEventView::OpEnd(t@),
            AppEvent::ShowConfirm(a, n, i) => AppEventView::ShowConfirm(a@, n@, opt_idx_view(*i)),
            AppEvent::SearchResults(r) => AppEventView::SearchResults(r.deep_view()),
            AppEvent::OutdatedList(r) => AppEventView::OutdatedList(r.deep_view()),
            AppEvent::AvailableList(r) => AppEventView::AvailableList(r.deep_view()),
        }
    }
}

/// What the caller must do right after an event is applied: nothing, or kick
/// off a fresh outdated check (a reloaded installed list always demands one).
#[derive(Clone, Copy, PartialEq, Eq, Structural, Debug)]
pub enum EventEffect {
    Idle,
    RefreshOutdated,
}

/// The whole mutable state of the interface.
pub struct App {
    pub brew: Brew,
    pub items: Vec<FormulaInfo>,
    pub available_items: Vec<String>,
    pub outdated_items: Vec<String>,
    pub selected: usize,
    pub available_selected: usize,
    pub last_selected: Option<(Focus, usize)>,
    pub available_details: Option<FormulaInfo>,
    pub available_filter: String,
    pub available_filtered: Vec<usize>,
    pub operation_status: Option<String>,
    pub operation_percent: Option<u16>,
    pub spinner_idx: usize,
    pub loading_installed: bool,
    pub loading_available: bool,
    pub operating: bool,
    pub status: String,
    pub logs: Vec<String>,
    pub mode: Mode,
    pub focus: Focus,
}

/// `App` in mathematical terms; the contracts of every transition speak of
/// this image.
#[verifier::ext_equal]
pub struct AppView {
    pub items: Seq<FormulaInfoView>,
    pub available_items: Seq<Seq<char>>,
    pub outdated_items: Seq<Seq<char>>,
    pub selected: int,
    pub available_selected: int,
    pub last_selected: Option<(Focus, int)>,
    pub available_details: Option<FormulaInfoView>,
    pub available_filter: Seq<char>,
    pub available_filtered: Seq<int>,
    pub operation_status: Option<Seq<char>>,
    pub operation_percent: Option<u16>,
    pub spinner_idx: int,
    pub loading_installed: bool,
    pub loading_available: bool,
    pub operating: bool,
    pub status: Seq<char>,
    pub logs: Seq<Seq<char>>,
    pub mode: ModeView,
    pub focus: Focus,
}

impl View for App {
    type V = AppView;

    open spec fn view(&self) -> AppView {
        AppView {
            items: self.items.deep_view(),
            available_items: self.available_items.deep_view(),
            outdated_items: self.outdated_items.deep_view(),
            selected: self.selected as int,
            available_selected: self.available_selected as int,
            last_selected: match self.last_selected {
                Some((f, i)) => Some((f, i as int)),
                None => None,
            },
            available_details: self.available_details.deep_view(),
            available_filter: self.available_filter@,
            available_filtered: usize_views(self.available_filtered@),
            operation_status: self.operation_status.deep_view(),
            operation_percent: self.operation_percent,
            spinner_idx: self.spinner_idx as int,
            loading_installed: self.loading_installed,
            loading_available: self.loading_available,
            operating: self.operating,
            status: self.status@,
            logs: self.logs.deep_view(),
            mode: self.mode@,
            focus: self.focus,
        }
    }
}

/// Capacity of the rolling log tail, and how many of its oldest lines leave
/// in one batch once it is exceeded.
pub const LOG_CAP: usize = 300;

pub const LOG_EVICT: usize = 100;

/// Capacity of an operation's own log, and its batch eviction count.
pub const OP_LOG_CAP: usize = 2000;

pub const OP_LOG_EVICT: usize = 500;

/// The log tail after appending `line`: the hundred oldest lines leave when
/// the tail would exceed three hundred.
pub open spec fn push_log_spec(logs: Seq<Seq<char>>, line: Seq<char>) -> Seq<Seq<char>> {
    let grown = logs.push(line);
    if grown.len() > LOG_CAP {
        grown.skip(LOG_EVICT as int)
    } else {
        grown
    }
}

/// An operation log and its scroll offset after appending `line`: the five
/// hundred oldest lines leave when the log would exceed two thousand, and the
/// offset is clamped to the shortened length.
pub open spec fn push_op_log_spec(logs: Seq<Seq<char>>, scroll: int, line: Seq<char>) -> (
    Seq<Seq<char>>,
    int,
) {
    let grown = logs.push(line);
    if grown.len() > OP_LOG_CAP {
        let evicted = grown.skip(OP_LOG_EVICT as int);
        (evicted, if scroll > evicted.len() { evicted.len() as int } else { scroll })
    } else {
        (grown, scroll)
    }
}

/// A decimal digit.
pub open spec fn is_digit(c: char) -> bool {
    ('0' as int) <= (c as int) <= ('9' as int)
}

/// The value of a run of decimal digits, most significant first.
pub open spec fn digits_value(s: Seq<char>) -> int
    decreases s.len(),
{
    if s.len() == 0 {
        0
    } else {
        digits_value(s.drop_last()) * 10 + ((s.last() as int) - ('0' as int))
    }
}

pub open spec fn percent_pred() -> spec_fn(char) -> bool {
    |c: char| c == '%'
}

/// Start of the maximal run of digits ending just before position `p`.
pub open spec fn digit_run_start(s: Seq<char>, p: int) -> int
    decreases p,
{
    if p <= 0 {
        0
    } else if is_digit(s[p - 1]) {
        digit_run_start(s, p - 1)
    } else {
        p
    }
}

/// The percentage a streamed line reports: the maximal run of digits
/// immediately before the first `'%'`, clamped to one hundred; nothing
/// without a `'%'`, or with no digit before it.
pub open spec fn spec_parse_percent(s: Seq<char>) -> Option<u16> {
    let p = seq_find(s, percent_pred());
    if p == s.len() {
        None
    } else {
        let d = digit_run_start(s, p);
        if d == p {
            None
        } else if digits_value(s.subrange(d, p)) > 100 {
            Some(100u16)
        } else {
            Some(digits_value(s.subrange(d, p)) as u16)
        }
    }
}

/// The status line a finished installed-list load leaves.
pub open spec fn loaded_packages_status(n: int) -> Seq<char> {
    "Loaded "@ + spec_dec(n) + " packages"@
}

/// The status line a finished available-list load leaves.
pub open spec fn loaded_available_status(n: int) -> Seq<char> {
    "Loaded "@ + spec_dec(n) + " available packages"@
}

/// The state after one event is applied: the whole event vocabulary of the
/// background workers, each a pure change of the state image.
pub open spec fn event_step(s: AppView, ev: AppEventView) -> AppView {
    match ev {
        AppEventView::Status(t) => AppView { status: t, ..s },
        AppEventView::BrewList(list) => AppView {
            items: list,
            status: loaded_packages_status(list.len() as int),
            loading_installed: false,
            last_selected: None,
            selected: clamp_index(s.selected, list.len() as int),
            ..s
        },
        AppEventView::BrewInfo(info, idx) => AppView {
            items: if 0 <= idx < s.items.len() {
                s.items.update(idx, info)
            } else {
                s.items
            },
            last_selected: Some((Focus::Installed, idx)),
            ..s
        },
        AppEventView::BrewInfoAvailable(info, idx) => AppView {
            available_details: Some(info),
            last_selected: Some((Focus::Available, idx)),
            ..s
        },
        AppEventView::Log(l) => AppView { logs: push_log_spec(s.logs, l), ..s },
        AppEventView::OpStart(title) => AppView {
            mode: ModeView::Operation { title: title, logs: Seq::empty(), scroll: 0 },
            logs: push_log_spec(s.logs, "Started: "@ + title),
            operating: true,
            operation_percent: None,
            ..s
        },
        AppEventView::OpLog(line) => {
            let s1 = match s.mode {
                ModeView::Operation { title, logs, scroll } => {
                    let stepped = push_op_log_spec(logs, scroll, line);
                    AppView {
                        mode: ModeView::Operation {
                            title,
                            logs: stepped.0,
                            scroll: stepped.1,
                        },
                        ..s
                    }
                },
                _ => s,
            };
            let s2 = AppView { logs: push_log_spec(s1.logs, line), ..s1 };
            match spec_parse_percent(line) {
                Some(pct) => AppView {
                    operation_status: Some(spec_dec(pct as int) + "%"@),
                    operation_percent: Some(pct),
                    ..s2
                },
                None => s2,
            }
        },
        AppEventView::OpEnd(title) => AppView {
            logs: push_log_spec(s.logs, "Finished: "@ + title),
            operation_status: None,
            operation_percent: None,
            operating: false,
            ..s
        },
        AppEventView::SearchResults(results) => AppView {
            mode: ModeView::SearchResults { results, selected: 0 },
            ..s
        },
        AppEventView::OutdatedList(list) => AppView { outdated_items: list, ..s },
        AppEventView::AvailableList(list) => AppView {
            available_items: list,
            status: loaded_available_status(list.len() as int),
            loading_available: false,
            available_filtered: identity_seq(list.len() as int),
            available_selected: clamp_index(s.available_selected, list.len() as int),
            ..s
        },
        AppEventView::ShowConfirm(action, name, idx) => AppView {
            mode: ModeView::Confirm { action, name, idx },
            ..s
        },
    }
}

/// The background work an event demands: exactly a reloaded installed list
/// asks for one fresh outdated check, whatever the list holds.
pub open spec fn event_effect_spec(ev: AppEventView) -> EventEffect {
    match ev {
        AppEventView::BrewList(_) => EventEffect::RefreshOutdated,
        _ => EventEffect::Idle,
    }
}

/// The startup state: empty collections, `Normal` mode, both columns marked
/// loading.
pub open spec fn initial_app_view() -> AppView {
    AppView {
        items: Seq::empty(),
        available_items: Seq::empty(),
        outdated_items: Seq::empty(),
        selected: 0,
        available_selected: 0,
        last_selected: None,
        available_details: None,
        available_filter: Seq::empty(),
        available_filtered: Seq::empty(),
        operation_status: None,
        operation_percent: None,
        spinner_idx: 0,
        loading_installed: true,
        loading_available: true,
        operating: false,
        status: "Starting..."@,
        logs: Seq::empty(),
        mode: ModeView::Normal,
        focus: Focus::Installed,
    }
}

impl App {
    /// Create the state machine in its startup state. The startup loaders are
    /// the caller's to spawn; their results come back through `handle_event`.
    pub fn new() -> (r: App)
        ensures
            r@ == initial_app_view(),
    {
        let r = App {
            brew: Brew::new(),
            items: Vec::new(),
            available_items: Vec::new(),
            outdated_items: Vec::new(),
            selected: 0,
            available_selected: 0,
            last_selected: None,
            available_details: None,
            available_filter: String::new(),
            available_filtered: Vec::new(),
            operation_status: None,
            operation_percent: None,
            spinner_idx: 0,
            loading_installed: true,
            loading_available: true,
            operating: false,
            status: "Starting...".to_owned(),
            logs: Vec::new(),
            mode: Mode::Normal,
            focus: Focus::Installed,
        };
        proof {
            assert(r@ =~~= initial_app_view());
        }
        r
    }

    /// Append to the rolling log tail, evicting the hundred oldest lines in
    /// one batch when the tail exceeds its capacity of three hundred.
    fn push_log(&mut self, line: String)
        ensures
            final(self)@ == (AppView { logs: push_log_spec(old(self)@.logs, line@), ..old(self)@ }),
    {
        let ghost logs0 = self.logs.deep_view();
        let ghost linev = line@;
        self.logs.push(line);
        proof {
            assert(self.logs.deep_view() =~~= logs0.push(linev));
        }
        if self.logs.len() > LOG_CAP {
            let tail = self.logs.split_off(LOG_EVICT);
            self.logs = tail;
            proof {
                assert(self.logs.deep_view() =~~= logs0.push(linev).skip(LOG_EVICT as int));
            }
        }
        proof {
            assert(final(self)@ =~~= (AppView {
                logs: push_log_spec(old(self)@.logs, linev),
                ..old(self)@
            }));
        }
    }

    /// Extract the percentage a streamed operation line reports, as
    /// `spec_parse_percent` describes it.
    pub fn parse_percent(s: &str) -> (r: Option<u16>)
        ensures
            r == spec_parse_percent(s@),
    {
        let n = s.unicode_len();
        let mut p: usize = 0;
        while p < n && s.get_char(p) != '%'
            invariant
                p <= n,
                n == s@.len(),
                forall|j: int| 0 <= j < p ==> s@[j] != '%',
            decreases n - p,
        {
            p += 1;
        }
        proof {
            crate::strutil::lemma_seq_find_at(s@, percent_pred(), p as int);
        }
        if p == n {
            return None;
        }
        let mut d: usize = p;
        while d > 0 && is_digit_char(s.get_char(d - 1))
            invariant
                d <= p,
                p < n == s@.len(),
                forall|j: int| d <= j < p ==> is_digit(s@[j]),
            decreases d,
        {
            d -= 1;
        }
        proof {
            lemma_digit_run_start_at(s@, p as int, d as int);
        }
        if d == p {
            return None;
        }
        let ghost run = s@.subrange(d as int, p as int);
        let mut v: u16 = 0;
        let mut j: usize = d;
        proof {
            assert(s@.subrange(d as int, d as int) =~= Seq::<char>::empty());
        }
        while j < p
            invariant
                d <= j <= p,
                p < n == s@.len(),
                forall|k: int| d <= k < p ==> is_digit(s@[k]),
                digits_value(s@.subrange(d as int, j as int)) <= 100 ==> v == digits_value(
                    s@.subrange(d as int, j as int),
                ),
                digits_value(s@.subrange(d as int, j as int)) > 100 ==> v == 101,
                v <= 101,
                digits_value(s@.subrange(d as int, j as int)) >= 0,
            decreases p - j,
        {
            let c = s.get_char(j);
            let digit: u16 = char_digit(c);
            proof {
                let pre = s@.subrange(d as int, j as int);
                let post = s@.subrange(d as int, j + 1);
                assert(post.drop_last() =~= pre);
                assert(post.last() == s@[j as int]);
                assert(digits_value(post) == digits_value(pre) * 10 + (digit as int));
            }
            if v <= 100 {
                let grown: u32 = (v as u32) * 10 + (digit as u32);
                if grown > 100 {
                    v = 101;
                } else {
                    v = grown as u16;
                }
            }
            j += 1;
        }
        proof {
            assert(s@.subrange(d as int, p as int) == run);
        }
        if v > 100 {
            Some(100)
        } else {
            Some(v)
        }
    }

    /// Advance the spinner to its next of eight frames.
    pub fn advance_spinner(&mut self)
        ensures
            final(self)@ == (AppView {
                spinner_idx: (old(self)@.spinner_idx + 1) % 8,
                ..old(self)@
            }),
    {
        let ghost sp0 = self.spinner_idx as int;
        let next = (self.spinner_idx % 8) + 1;
        self.spinner_idx = next % 8;
        proof {
            assert((sp0 % 8 + 1) % 8 == (sp0 + 1) % 8) by (nonlinear_arith)
                requires sp0 >= 0;
            assert(final(self)@ =~~= (AppView {
                spinner_idx: (old(self)@.spinner_idx + 1) % 8,
                ..old(self)@
            }));
        }
    }

    /// Apply one background event, as `event_step` describes, and say what
    /// work it demands: a reloaded installed list, and nothing else, demands
    /// one fresh outdated check.
    pub fn handle_event(&mut self, ev: AppEvent) -> (r: EventEffect)
        ensures
            final(self)@ == event_step(old(self)@, ev@),
            r == event_effect_spec(ev@),
    {
        match ev {
            AppEvent::Status(t) => {
                self.status = t;
                proof {
                    assert(final(self)@ =~~= event_step(old(self)@, ev@));
                }
                EventEffect::Idle
            },
            AppEvent::BrewList(list) => {
                self.items = list;
                if self.selected >= self.items.len() {
                    self.selected = if self.items.len() > 0 {
                        self.items.len() - 1
                    } else {
                        0
                    };
                }
                let mut st = "Loaded ".to_owned();
                st.append(usize_to_string(self.items.len()).as_str());
                st.append(" packages");
                self.status = st;
                self.loading_installed = false;
                self.last_selected = None;
                proof {
                    assert(final(self)@ =~~= event_step(old(self)@, ev@));
                }
                EventEffect::RefreshOutdated
            },
            AppEvent::BrewInfo(info, idx) => {
                if idx < self.items.len() {
                    self.items.set(idx, info);
                }
                self.last_selected = Some((Focus::Installed, idx));
                proof {
                    assert(final(self)@.items =~~= event_step(old(self)@, ev@).items);
                    assert(final(self)@ =~~= event_step(old(self)@, ev@));
                }
                EventEffect::Idle
            },
            AppEvent::BrewInfoAvailable(info, idx) => {
                self.available_details = Some(info);
                self.last_selected = Some((Focus::Available, idx));
                proof {
                    assert(final(self)@ =~~= event_step(old(self)@, ev@));
                }
                EventEffect::Idle
            },
            AppEvent::Log(l) => {
                self.push_log(l);
                proof {
                    assert(final(self)@ =~~= event_step(old(self)@, ev@));
                }
                EventEffect::Idle
            },
            AppEvent::OpStart(title) => {
                let mut msg = "Started: ".to_owned();
                msg.append(title.as_str());
                let fresh_logs: Vec<String> = Vec::new();
                proof {
                    assert(fresh_logs.deep_view() =~~= Seq::<Seq<char>>::empty());
                }
                self.mode = Mode::Operation { title, logs: fresh_logs, scroll: 0 };
                self.push_log(msg);
                self.operating = true;
                self.operation_percent = None;
                proof {
                    assert(final(self)@ =~~= event_step(old(self)@, ev@));
                }
                EventEffect::Idle
            },
            AppEvent::OpLog(line) => {
                let mut taken = Mode::Normal;
                core::mem::swap(&mut self.mode, &mut taken);
                match taken {
                    Mode::Operation { title, mut logs, mut scroll } => {
                        let ghost logs0 = logs.deep_view();
                        let ghost scroll0 = scroll as int;
                        logs.push(line.clone());
                        proof {
                            assert(logs.deep_view() =~~= logs0.push(line@));
                        }
                        if logs.len() > OP_LOG_CAP {
                            let tail = logs.split_off(OP_LOG_EVICT);
                            logs = tail;
                            proof {
                                assert(logs.deep_view() =~~= logs0.push(line@).skip(
                                    OP_LOG_EVICT as int,
                                ));
                            }
                            if scroll > logs.len() {
                                scroll = logs.len();
                            }
                        }
                        proof {
                            assert(logs.deep_view() == push_op_log_spec(logs0, scroll0, line@).0);
                            assert(scroll as int == push_op_log_spec(logs0, scroll0, line@).1);
                        }
                        self.mode = Mode::Operation { title, logs, scroll };
                    },
                    other => {
                        self.mode = other;
                    },
                }
                self.push_log(line.clone());
                match Self::parse_percent(line.as_str()) {
                    Some(pct) => {
                        let mut st = usize_to_string(pct as usize);
                        st.append("%");
                        self.operation_status = Some(st);
                        self.operation_percent = Some(pct);
                    },
                    None => {},
                }
                proof {
                    assert(final(self)@ =~~= event_step(old(self)@, ev@));
                }
                EventEffect::Idle
            },
            AppEvent::OpEnd(title) => {
                let mut msg = "Finished: ".to_owned();
                msg.append(title.as_str());
                self.push_log(msg);
                self.operation_status = None;
                self.operation_percent = None;
                self.operating = false;
                proof {
                    assert(final(self)@ =~~= event_step(old(self)@, ev@));
                }
                EventEffect::Idle
            },
            AppEvent::SearchResults(results) => {
                self.mode = Mode::SearchResults { results, selected: 0 };
                proof {
                    assert(final(self)@ =~~= event_step(old(self)@, ev@));
                }
                EventEffect::Idle
            },
            AppEvent::OutdatedList(list) => {
                self.outdated_items = list;
                proof {
                    assert(final(self)@ =~~= event_step(old(self)@, ev@));
                }
                EventEffect::Idle
            },
            AppEvent::AvailableList(list) => {
                self.available_items = list;
                if self.available_selected >= self.available_items.len() {
                    self.available_selected = if self.available_items.len() > 0 {
                        self.available_items.len() - 1
                    } else {
                        0
                    };
                }
                let mut st = "Loaded ".to_owned();
                st.append(usize_to_string(self.available_items.len()).as_str());
                st.append(" available packages");
                self.status = st;
                self.loading_available = false;
                self.available_filtered = identity_indices(self.available_items.len());
                proof {
                    assert(final(self)@ =~~= event_step(old(self)@, ev@));
                }
                EventEffect::Idle
            },
            AppEvent::ShowConfirm(action, name, idx) => {
                self.mode = Mode::Confirm { action, name, idx };
                proof {
                    assert(final(self)@ =~~= event_step(old(self)@, ev@));
                }
                EventEffect::Idle
            },
        }
    }
}

fn is_digit_char(c: char) -> (r: bool)
    ensures
        r == is_digit(c),
{
    '0' <= c && c <= '9'
}

fn char_digit(c: char) -> (r: u16)
    requires
        is_digit(c),
    ensures
        r as int == (c as int) - ('0' as int),
        r <= 9,
{
    (c as u16) - ('0' as u16)
}

proof fn lemma_digit_run_start_at(s: Seq<char>, p: int, d: int)
    requires
        0 <= d <= p <= s.len(),
        forall|j: int| d <= j < p ==> is_digit(s[j]),
        d == 0 || !is_digit(s[d - 1]),
    ensures
        digit_run_start(s, p) == d,
    decreases p - d,
{
    if p > d {
        lemma_digit_run_start_at(s, p - 1, d);
    }
}

/// The identity index sequence over `n` names, the filtered view of an
/// unfiltered list.
pub fn identity_indices(n: usize) -> (r: Vec<usize>)
    ensures
        usize_views(r@) == identity_seq(n as int),
{
    let mut r: Vec<usize> = Vec::new();
    let mut i: usize = 0;
    while i < n
        invariant
            i <= n,
            usize_views(r@) == identity_seq(i as int),
        decreases n - i,
    {
        let ghost r0 = r@;
        r.push(i);
        proof {
            assert(r@ == r0.push(i));
            assert(usize_views(r0).len() == identity_seq(i as int).len());
            assert(identity_seq(i as int).len() == i);
            assert(usize_views(r0).len() == r0.len());
            assert(r0.len() == i);
            let m = usize_views(r@);
            assert(m.len() == i + 1);
            assert forall|k: int| 0 <= k < i + 1 implies m[k] == k by {
                assert(m[k] == r@[k] as int);
                if k < i {
                    assert(r@[k] == r0[k]);
                    assert(usize_views(r0)[k] == r0[k] as int);
                    assert(usize_views(r0)[k] == identity_seq(i as int)[k]);
                } else {
                    assert(r@[k] == i);
                }
            }
            assert(m =~= identity_seq(i + 1));
        }
        i += 1;
    }
    r
}

/// The indices of the names that contain `filter`, in their original order.
pub open spec fn filtered_indices_spec(names: Seq<Seq<char>>, filter: Seq<char>) -> Seq<int>
    decreases names.len(),
{
    if names.len() == 0 {
        Seq::empty()
    } else if contains_seq(names.last(), filter) {
        filtered_indices_spec(names.drop_last(), filter).push(names.len() - 1)
    } else {
        filtered_indices_spec(names.drop_last(), filter)
    }
}

/// Recompute the filtered view of the available list: the indices of the
/// names containing `filter` as a substring, in their original order.
pub fn compute_filtered_indices(names: &Vec<String>, filter: &str) -> (r: Vec<usize>)
    ensures
        usize_views(r@) == filtered_indices_spec(names.deep_view(), filter@),
{
    let mut r: Vec<usize> = Vec::new();
    let mut i: usize = 0;
    proof {
        assert(filtered_indices_spec(names.deep_view().take(0), filter@) =~= r@.map_values(
            |x: usize| x as int,
        ));
    }
    while i < names.len()
        invariant
            i <= names.len(),
            usize_views(r@) == filtered_indices_spec(
                names.deep_view().take(i as int),
                filter@,
            ),
        decreases names.len() - i,
    {
        let ghost r0 = usize_views(r@);
        if contains_str(names[i].as_str(), filter) {
            r.push(i);
            proof {
                assert(usize_views(r@) =~= r0.push(i as int));
            }
        }
        proof {
            let dv = names.deep_view();
            assert(dv.take(i + 1).drop_last() =~= dv.take(i as int));
            assert(dv.take(i + 1).last() == dv[i as int]);
            assert(usize_views(r@) =~= filtered_indices_spec(
                dv.take(i + 1),
                filter@,
            ));
        }
        i += 1;
    }
    proof {
        assert(names.deep_view().take(names.len() as int) =~~= names.deep_view());
    }
    r
}

} // verus!
