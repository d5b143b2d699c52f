//! Key interpretation. Exactly one mode is active at a time; a key stroke is
//! dispatched to that mode's handler, which takes ownership of the mode's
//! payload, decides the next mode, and answers with the background work the
//! stroke demands. Each handler is specified by a `step_*` spec function, the
//! transition table of its mode.

use vstd::prelude::*;
use vstd::pervasive::VecAdditionalExecFns;

use crate::app::{
    identity_seq, usize_views, App, AppView, ConfirmAction, ConfirmActionView, Focus, InputAction,
    Mode, ModeView,
};
use crate::app::{compute_filtered_indices, filtered_indices_spec, identity_indices};
use crate::strutil::{spec_dec, spec_join_space, spec_trim, join_space, trim_str, usize_to_string};

verus! {

/// The key vocabulary the state machine interprets; the terminal layer maps
/// raw key events into it.
#[derive(Clone, Copy, Debug)]
pub enum Key {
    Char(char),
    Enter,
    Esc,
    Backspace,
    Tab,
    Up,
    Down,
    PageUp,
    PageDown,
    Home,
    End,
    Other,
}

/// The background work a key stroke demands of the caller: none, quitting the
/// loop, an outdated check, a search, a streamed operation, or a detail fetch
/// for one row.
pub enum KeyCommand {
    Idle,
    Quit,
    RefreshOutdated,
    RunSearch(String),
    StartOperation(ConfirmAction, String),
    FetchInstalledInfo(String, usize),
    FetchAvailableInfo(String, usize),
}

/// `KeyCommand` in mathematical terms.
pub enum KeyCommandView {
    Idle,
    Quit,
    RefreshOutdated,
    RunSearch(Seq<char>),
    StartOperation(ConfirmActionView, Seq<char>),
    FetchInstalledInfo(Seq<char>, int),
    FetchAvailableInfo(Seq<char>, int),
}

impl View for KeyCommand {
    type V = KeyCommandView;

    open spec fn view(&self) -> KeyCommandView {
        match self {
            KeyCommand::Idle => KeyCommandView::Idle,
            KeyCommand::Quit => KeyCommandView::Quit,
            KeyCommand::RefreshOutdated => KeyCommandView::RefreshOutdated,
            KeyCommand::RunSearch(q) => KeyCommandView::RunSearch(q@),
            KeyCommand::StartOperation(a, n) => KeyCommandView::StartOperation(a@, n@),
            KeyCommand::FetchInstalledInfo(n, i) => KeyCommandView::FetchInstalledInfo(
                n@,
                *i as int,
            ),
            KeyCommand::FetchAvailableInfo(n, i) => KeyCommandView::FetchAvailableInfo(
                n@,
                *i as int,
            ),
        }
    }
}

/// All-unchecked marks for `n` outdated rows.
pub open spec fn all_false(n: int) -> Seq<bool> {
    Seq::new(n as nat, |i: int| false)
}

/// Position of the first occurrence of `x` in `f`, or `f.len()` if absent.
pub open spec fn position_of(f: Seq<int>, x: int) -> int
    decreases f.len(),
{
    if f.len() == 0 {
        0
    } else if f[0] == x {
        0
    } else {
        1 + position_of(f.drop_first(), x)
    }
}

proof fn lemma_position_of_at(f: Seq<int>, x: int, i: int)
    requires
        0 <= i <= f.len(),
        forall|j: int| 0 <= j < i ==> f[j] != x,
        i == f.len() || f[i] == x,
    ensures
        position_of(f, x) == i,
    decreases i,
{
    if f.len() != 0 && i != 0 {
        lemma_position_of_at(f.drop_first(), x, i - 1);
    }
}

/// The operation modal's scrolling: up moves toward older lines (bounded by
/// the log length), down toward newer ones (floored at zero), pages move ten
/// lines, Home jumps to the oldest line and End to the newest; Escape or `?`
/// dismisses the modal.
pub open spec fn step_operation(
    s: AppView,
    title: Seq<char>,
    logs: Seq<Seq<char>>,
    scroll: int,
    key: Key,
) -> AppView {
    match key {
        Key::Esc => AppView { mode: ModeView::Normal, ..s },
        Key::Char(c) => {
            if c == '?' {
                AppView { mode: ModeView::Normal, ..s }
            } else if c == 'k' {
                let nsc = if scroll + 1 < logs.len() {
                    scroll + 1
                } else {
                    logs.len() as int
                };
                AppView { mode: ModeView::Operation { title, logs, scroll: nsc }, ..s }
            } else if c == 'j' {
                let nsc = if scroll > 0 {
                    scroll - 1
                } else {
                    0
                };
                AppView { mode: ModeView::Operation { title, logs, scroll: nsc }, ..s }
            } else {
                AppView { mode: ModeView::Operation { title, logs, scroll }, ..s }
            }
        },
        Key::Up => {
            let nsc = if scroll + 1 < logs.len() {
                scroll + 1
            } else {
                logs.len() as int
            };
            AppView { mode: ModeView::Operation { title, logs, scroll: nsc }, ..s }
        },
        Key::Down => {
            let nsc = if scroll > 0 {
                scroll - 1
            } else {
                0
            };
            AppView { mode: ModeView::Operation { title, logs, scroll: nsc }, ..s }
        },
        Key::PageUp => {
            let nsc = if scroll + 10 < logs.len() {
                scroll + 10
            } else {
                logs.len() as int
            };
            AppView { mode: ModeView::Operation { title, logs, scroll: nsc }, ..s }
        },
        Key::PageDown => {
            let nsc = if scroll >= 10 {
                scroll - 10
            } else {
                0
            };
            AppView { mode: ModeView::Operation { title, logs, scroll: nsc }, ..s }
        },
        Key::Home => AppView {
            mode: ModeView::Operation { title, logs, scroll: logs.len() as int },
            ..s
        },
        Key::End => AppView { mode: ModeView::Operation { title, logs, scroll: 0 }, ..s },
        _ => AppView { mode: ModeView::Operation { title, logs, scroll }, ..s },
    }
}

/// A confirmation: `y` or Enter accepts and demands the operation; `n` or
/// Escape cancels with a status note; any other key dismisses silently. The
/// dialog closes whatever the answer.
pub open spec fn step_confirm(
    s: AppView,
    action: ConfirmActionView,
    name: Seq<char>,
    key: Key,
) -> (AppView, KeyCommandView) {
    match key {
        Key::Enter => (s, KeyCommandView::StartOperation(action, name)),
        Key::Char(c) => {
            if c == 'y' {
                (s, KeyCommandView::StartOperation(action, name))
            } else if c == 'n' {
                (AppView { status: "Cancelled"@, ..s }, KeyCommandView::Idle)
            } else {
                (s, KeyCommandView::Idle)
            }
        },
        Key::Esc => (AppView { status: "Cancelled"@, ..s }, KeyCommandView::Idle),
        _ => (s, KeyCommandView::Idle),
    }
}

/// The live filter after the available list or the filter text changes, with
/// the cursor snapped to the first match when one exists.
pub open spec fn with_live_filter(s: AppView, filter: Seq<char>, snap: bool) -> AppView {
    let nf = filtered_indices_spec(s.available_items, filter);
    let nsel = if snap && nf.len() > 0 {
        nf[0]
    } else {
        s.available_selected
    };
    AppView {
        available_filter: filter,
        available_filtered: nf,
        available_selected: nsel,
        ..s
    }
}

/// The input prompt: characters grow the buffer and, for a search prompt,
/// refilter the available column live; Backspace shrinks it the same way;
/// Enter commits a non-blank value (install goes to a confirmation, a search
/// either commits the filter or demands a background search); Escape cancels.
pub open spec fn step_input(s: AppView, action: InputAction, buffer: Seq<char>, key: Key) -> (
    AppView,
    KeyCommandView,
) {
    match key {
        Key::Esc => (
            AppView { status: "Cancelled input"@, ..s },
            KeyCommandView::Idle,
        ),
        Key::Backspace => {
            let nb = if buffer.len() > 0 {
                buffer.drop_last()
            } else {
                buffer
            };
            let s1 = if action == InputAction::Search {
                with_live_filter(s, nb, false)
            } else {
                s
            };
            (
                AppView { mode: ModeView::Input { action, buffer: nb }, ..s1 },
                KeyCommandView::Idle,
            )
        },
        Key::Enter => {
            let value = spec_trim(buffer);
            if value.len() == 0 {
                (s, KeyCommandView::Idle)
            } else if action == InputAction::Install {
                (
                    AppView {
                        mode: ModeView::Confirm {
                            action: ConfirmActionView::Install,
                            name: value,
                            idx: None,
                        },
                        ..s
                    },
                    KeyCommandView::Idle,
                )
            } else if s.focus == Focus::Available {
                (with_live_filter(s, value, true), KeyCommandView::Idle)
            } else {
                (s, KeyCommandView::RunSearch(value))
            }
        },
        Key::Char(c) => {
            let nb = buffer.push(c);
            let s1 = if action == InputAction::Search {
                with_live_filter(s, nb, true)
            } else {
                s
            };
            (
                AppView { mode: ModeView::Input { action, buffer: nb }, ..s1 },
                KeyCommandView::Idle,
            )
        },
        _ => (
            AppView { mode: ModeView::Input { action, buffer }, ..s },
            KeyCommandView::Idle,
        ),
    }
}

/// The search-results modal: arrows move the clamped selection, Enter asks to
/// install the selected result, Escape or `?` closes.
pub open spec fn step_search_results(
    s: AppView,
    results: Seq<Seq<char>>,
    selected: int,
    key: Key,
) -> AppView {
    match key {
        Key::Up => AppView {
            mode: ModeView::SearchResults {
                results,
                selected: if selected > 0 {
                    selected - 1
                } else {
                    0
                },
            },
            ..s
        },
        Key::Down => AppView {
            mode: ModeView::SearchResults {
                results,
                selected: if selected + 1 < results.len() {
                    selected + 1
                } else {
                    selected
                },
            },
            ..s
        },
        Key::Enter => {
            if 0 <= selected < results.len() {
                AppView {
                    mode: ModeView::Confirm {
                        action: ConfirmActionView::Install,
                        name: results[selected],
                        idx: None,
                    },
                    ..s
                }
            } else {
                AppView { mode: ModeView::Normal, ..s }
            }
        },
        Key::Esc => AppView { mode: ModeView::Normal, ..s },
        Key::Char(c) => {
            if c == '?' {
                AppView { mode: ModeView::Normal, ..s }
            } else if c == 'k' {
                AppView {
                    mode: ModeView::SearchResults {
                        results,
                        selected: if selected > 0 {
                            selected - 1
                        } else {
                            0
                        },
                    },
                    ..s
                }
            } else if c == 'j' {
                AppView {
                    mode: ModeView::SearchResults {
                        results,
                        selected: if selected + 1 < results.len() {
                            selected + 1
                        } else {
                            selected
                        },
                    },
                    ..s
                }
            } else {
                AppView { mode: ModeView::SearchResults { results, selected }, ..s }
            }
        },
        _ => AppView { mode: ModeView::SearchResults { results, selected }, ..s },
    }
}

/// The names whose rows are marked, in their list order.
pub open spec fn checked_names(packages: Seq<Seq<char>>, checked: Seq<bool>) -> Seq<Seq<char>>
    decreases packages.len(),
{
    if packages.len() == 0 {
        Seq::empty()
    } else if packages.len() - 1 < checked.len() && checked[packages.len() - 1] {
        checked_names(packages.drop_last(), checked).push(packages.last())
    } else {
        checked_names(packages.drop_last(), checked)
    }
}

/// The name a bulk upgrade is confirmed under: the one package's own name, or
/// a count of them.
pub open spec fn bulk_name(names: Seq<Seq<char>>) -> Seq<char> {
    if names.len() == 1 {
        names[0]
    } else {
        spec_dec(names.len() as int) + " packages"@
    }
}

/// The outdated modal: arrows move the clamped cursor, Space toggles the mark
/// under it, Enter asks to upgrade the marked packages in bulk when any are
/// marked, Escape or `?` closes.
pub open spec fn step_outdated(
    s: AppView,
    packages: Seq<Seq<char>>,
    cursor: int,
    checked: Seq<bool>,
    scroll: int,
    key: Key,
) -> AppView {
    match key {
        Key::Esc => AppView { mode: ModeView::Normal, ..s },
        Key::Up => AppView {
            mode: ModeView::Outdated {
                packages,
                cursor: if cursor > 0 {
                    cursor - 1
                } else {
                    0
                },
                checked,
                scroll,
            },
            ..s
        },
        Key::Down => AppView {
            mode: ModeView::Outdated {
                packages,
                cursor: if cursor + 1 < packages.len() {
                    cursor + 1
                } else {
                    cursor
                },
                checked,
                scroll,
            },
            ..s
        },
        Key::Enter => {
            let marked = checked_names(packages, checked);
            if marked.len() > 0 {
                AppView {
                    mode: ModeView::Confirm {
                        action: ConfirmActionView::BulkUpgrade(marked),
                        name: bulk_name(marked),
                        idx: None,
                    },
                    ..s
                }
            } else {
                AppView { mode: ModeView::Outdated { packages, cursor, checked, scroll }, ..s }
            }
        },
        Key::Char(c) => {
            if c == '?' {
                AppView { mode: ModeView::Normal, ..s }
            } else if c == 'k' {
                AppView {
                    mode: ModeView::Outdated {
                        packages,
                        cursor: if cursor > 0 {
                            cursor - 1
                        } else {
                            0
                        },
                        checked,
                        scroll,
                    },
                    ..s
                }
            } else if c == 'j' {
                AppView {
                    mode: ModeView::Outdated {
                        packages,
                        cursor: if cursor + 1 < packages.len() {
                            cursor + 1
                        } else {
                            cursor
                        },
                        checked,
                        scroll,
                    },
                    ..s
                }
            } else if c == ' ' {
                let nchecked = if 0 <= cursor < checked.len() {
                    checked.update(cursor, !checked[cursor])
                } else {
                    checked
                };
                AppView {
                    mode: ModeView::Outdated { packages, cursor, checked: nchecked, scroll },
                    ..s
                }
            } else {
                AppView { mode: ModeView::Outdated { packages, cursor, checked, scroll }, ..s }
            }
        },
        _ => AppView { mode: ModeView::Outdated { packages, cursor, checked, scroll }, ..s },
    }
}

/// The cursor after a downward step in the available column: it walks the
/// filtered index list, entering it at its head when the current selection
/// has left the filter.
pub open spec fn avail_next_selected(s: AppView) -> int {
    let f = s.available_filtered;
    if f.len() == 0 {
        s.available_selected
    } else {
        let pos = position_of(f, s.available_selected);
        if pos < f.len() {
            f[if pos + 1 < f.len() {
                pos + 1
            } else {
                f.len() - 1
            }]
        } else {
            f[0]
        }
    }
}

/// The cursor after an upward step in the available column: it walks the
/// filtered index list, entering it at its tail when the current selection
/// has left the filter.
pub open spec fn avail_prev_selected(s: AppView) -> int {
    let f = s.available_filtered;
    if f.len() == 0 {
        s.available_selected
    } else {
        let pos = position_of(f, s.available_selected);
        if pos < f.len() {
            f[if pos > 0 {
                pos - 1
            } else {
                0
            }]
        } else {
            f[f.len() - 1]
        }
    }
}

/// Enter on the focused row: the matching confirmation opens, and a detail
/// fetch is demanded unless this row's details were fetched last.
pub open spec fn step_normal_enter(s: AppView) -> (AppView, KeyCommandView) {
    if s.focus == Focus::Installed {
        if 0 <= s.selected < s.items.len() {
            let name = s.items[s.selected].name;
            let s1 = AppView {
                mode: ModeView::Confirm {
                    action: ConfirmActionView::Uninstall,
                    name: name,
                    idx: Some(s.selected),
                },
                ..s
            };
            if s.last_selected != Some((Focus::Installed, s.selected)) {
                (
                    AppView { last_selected: Some((Focus::Installed, s.selected)), ..s1 },
                    KeyCommandView::FetchInstalledInfo(name, s.selected),
                )
            } else {
                (s1, KeyCommandView::Idle)
            }
        } else {
            (s, KeyCommandView::Idle)
        }
    } else {
        if 0 <= s.available_selected < s.available_items.len() {
            let name = s.available_items[s.available_selected];
            let s1 = AppView {
                mode: ModeView::Confirm {
                    action: ConfirmActionView::Install,
                    name: name,
                    idx: Some(s.available_selected),
                },
                ..s
            };
            if s.last_selected != Some((Focus::Available, s.available_selected)) {
                (
                    AppView {
                        last_selected: Some((Focus::Available, s.available_selected)),
                        ..s1
                    },
                    KeyCommandView::FetchAvailableInfo(name, s.available_selected),
                )
            } else {
                (s1, KeyCommandView::Idle)
            }
        } else {
            (s, KeyCommandView::Idle)
        }
    }
}

/// Normal mode: quitting, help, focus toggling, clamped navigation per
/// column, the prompts, the confirmations on the selected row, the outdated
/// modal, a demanded refresh, and Enter as `step_normal_enter` says.
pub open spec fn step_normal(s: AppView, key: Key) -> (AppView, KeyCommandView) {
    match key {
        Key::Char(c) => {
            if c == 'R' {
                (s, KeyCommandView::RefreshOutdated)
            } else if c == 'o' {
                (
                    AppView {
                        mode: ModeView::Outdated {
                            packages: s.outdated_items,
                            cursor: 0,
                            checked: all_false(s.outdated_items.len() as int),
                            scroll: 0,
                        },
                        ..s
                    },
                    KeyCommandView::Idle,
                )
            } else if c == 'q' {
                (s, KeyCommandView::Quit)
            } else if c == '?' {
                (AppView { mode: ModeView::Help, ..s }, KeyCommandView::Idle)
            } else if c == 'j' {
                (step_normal_down(s), KeyCommandView::Idle)
            } else if c == 'k' {
                (step_normal_up(s), KeyCommandView::Idle)
            } else if c == 'r' {
                (confirm_selected(s, ConfirmActionView::Uninstall), KeyCommandView::Idle)
            } else if c == 'u' {
                (confirm_selected(s, ConfirmActionView::Upgrade), KeyCommandView::Idle)
            } else if c == 'i' {
                (
                    AppView {
                        mode: ModeView::Input {
                            action: InputAction::Install,
                            buffer: Seq::empty(),
                        },
                        ..s
                    },
                    KeyCommandView::Idle,
                )
            } else if c == 's' {
                (
                    AppView {
                        mode: ModeView::Input {
                            action: InputAction::Search,
                            buffer: Seq::empty(),
                        },
                        ..s
                    },
                    KeyCommandView::Idle,
                )
            } else if c == 'f' {
                (
                    AppView {
                        mode: ModeView::Input {
                            action: InputAction::Search,
                            buffer: s.available_filter,
                        },
                        focus: Focus::Available,
                        ..s
                    },
                    KeyCommandView::Idle,
                )
            } else if c == 'F' {
                (
                    AppView {
                        available_filter: Seq::empty(),
                        available_filtered: identity_seq(s.available_items.len() as int),
                        ..s
                    },
                    KeyCommandView::Idle,
                )
            } else {
                (s, KeyCommandView::Idle)
            }
        },
        Key::Tab => (
            AppView {
                focus: if s.focus == Focus::Installed {
                    Focus::Available
                } else {
                    Focus::Installed
                },
                ..s
            },
            KeyCommandView::Idle,
        ),
        Key::Down => (step_normal_down(s), KeyCommandView::Idle),
        Key::Up => (step_normal_up(s), KeyCommandView::Idle),
        Key::Enter => step_normal_enter(s),
        _ => (s, KeyCommandView::Idle),
    }
}

/// A downward cursor step in the focused column.
pub open spec fn step_normal_down(s: AppView) -> AppView {
    if s.focus == Focus::Installed {
        AppView {
            selected: if s.selected + 1 < s.items.len() {
                s.selected + 1
            } else {
                s.selected
            },
            ..s
        }
    } else {
        AppView { available_selected: avail_next_selected(s), ..s }
    }
}

/// An upward cursor step in the focused column.
pub open spec fn step_normal_up(s: AppView) -> AppView {
    if s.focus == Focus::Installed {
        AppView {
            selected: if s.selected > 0 {
                s.selected - 1
            } else {
                0
            },
            ..s
        }
    } else {
        AppView { available_selected: avail_prev_selected(s), ..s }
    }
}

/// The confirmation that `r` or `u` opens on the selected installed row, when
/// there is one.
pub open spec fn confirm_selected(s: AppView, action: ConfirmActionView) -> AppView {
    if 0 <= s.selected < s.items.len() {
        AppView {
            mode: ModeView::Confirm {
                action: action,
                name: s.items[s.selected].name,
                idx: Some(s.selected),
            },
            ..s
        }
    } else {
        s
    }
}

/// The whole transition table: the key goes to the active mode's handler,
/// which takes the mode's payload and reinstalls what follows it.
pub open spec fn key_step(s: AppView, key: Key) -> (AppView, KeyCommandView) {
    let sn = AppView { mode: ModeView::Normal, ..s };
    match s.mode {
        ModeView::Normal => step_normal(sn, key),
        ModeView::Help => (sn, KeyCommandView::Idle),
        ModeView::Input { action, buffer } => step_input(sn, action, buffer, key),
        ModeView::Confirm { action, name, idx } => step_confirm(sn, action, name, key),
        ModeView::SearchResults { results, selected } => (
            step_search_results(sn, results, selected, key),
            KeyCommandView::Idle,
        ),
        ModeView::Outdated { packages, cursor, checked, scroll } => (
            step_outdated(sn, packages, cursor, checked, scroll, key),
            KeyCommandView::Idle,
        ),
        ModeView::Operation { title, logs, scroll } => (
            step_operation(sn, title, logs, scroll, key),
            KeyCommandView::Idle,
        ),
    }
}

/// Relies on String::push: it appends exactly the one character.
#[verifier::external_body]
fn push_char(s: &mut String, c: char)
    ensures
        final(s)@ == old(s)@.push(c),
{
    s.push(c);
}

fn false_vec(n: usize) -> (r: Vec<bool>)
    ensures
        r@ == all_false(n as int),
{
    let mut r: Vec<bool> = Vec::new();
    let mut i: usize = 0;
    while i < n
        invariant
            i <= n,
            r@ =~= all_false(i as int),
        decreases n - i,
    {
        r.push(false);
        proof {
            assert(r@ =~= all_false(i + 1));
        }
        i += 1;
    }
    r
}

impl App {
    /// Whether this row's details were the last ones fetched.
    pub(crate) fn is_last_selected(&self, f: Focus, idx: usize) -> (r: bool)
        ensures
            r == (self@.last_selected == Some((f, idx as int))),
    {
        match self.last_selected {
            Some((lf, li)) => lf == f && li == idx,
            None => false,
        }
    }

    /// Position of the current available selection in the filtered index
    /// list, or its length when the selection has left the filter.
    fn position_in_filtered(&self) -> (p: usize)
        ensures
            p as int == position_of(usize_views(self.available_filtered@),
                self.available_selected as int),
            p <= self.available_filtered@.len(),
    {
        let mut p: usize = 0;
        while p < self.available_filtered.len() && self.available_filtered[p]
            != self.available_selected
            invariant
                p <= self.available_filtered@.len(),
                forall|j: int|
                    0 <= j < p ==> usize_views(self.available_filtered@)[j]
                        != self.available_selected as int,
            decreases self.available_filtered@.len() - p,
        {
            p += 1;
        }
        proof {
            let fv = usize_views(self.available_filtered@);
            if p < self.available_filtered@.len() {
                assert(fv[p as int] == self.available_selected as int);
            }
            lemma_position_of_at(fv, self.available_selected as int, p as int);
        }
        p
    }

    fn on_key_normal(&mut self, key: Key) -> (cmd: KeyCommand)
        requires
            old(self)@.mode == ModeView::Normal,
        ensures
            final(self)@ == step_normal(old(self)@, key).0,
            cmd@ == step_normal(old(self)@, key).1,
    {
        match key {
            Key::Char(c) => {
                if c == 'R' {
                    KeyCommand::RefreshOutdated
                } else if c == 'o' {
                    let packages = self.outdated_items.clone();
                    let checked = false_vec(packages.len());
                    proof {
                        assert(packages.deep_view() =~~= old(self)@.outdated_items);
                    }
                    self.mode = Mode::Outdated { packages, cursor: 0, checked, scroll: 0 };
                    proof {
                        assert(final(self)@ =~~= step_normal(old(self)@, key).0);
                    }
                    KeyCommand::Idle
                } else if c == 'q' {
                    KeyCommand::Quit
                } else if c == '?' {
                    self.mode = Mode::Help;
                    proof {
                        assert(final(self)@ =~~= step_normal(old(self)@, key).0);
                    }
                    KeyCommand::Idle
                } else if c == 'j' {
                    self.move_down();
                    proof {
                        assert(final(self)@ =~~= step_normal(old(self)@, key).0);
                    }
                    KeyCommand::Idle
                } else if c == 'k' {
                    self.move_up();
                    proof {
                        assert(final(self)@ =~~= step_normal(old(self)@, key).0);
                    }
                    KeyCommand::Idle
                } else if c == 'r' {
                    self.confirm_on_selected(ConfirmAction::Uninstall);
                    proof {
                        assert(final(self)@ =~~= step_normal(old(self)@, key).0);
                    }
                    KeyCommand::Idle
                } else if c == 'u' {
                    self.confirm_on_selected(ConfirmAction::Upgrade);
                    proof {
                        assert(final(self)@ =~~= step_normal(old(self)@, key).0);
                    }
                    KeyCommand::Idle
                } else if c == 'i' {
                    self.mode = Mode::Input { action: InputAction::Install, buffer: String::new() };
                    proof {
                        assert(final(self)@ =~~= step_normal(old(self)@, key).0);
                    }
                    KeyCommand::Idle
                } else if c == 's' {
                    self.mode = Mode::Input { action: InputAction::Search, buffer: String::new() };
                    proof {
                        assert(final(self)@ =~~= step_normal(old(self)@, key).0);
                    }
                    KeyCommand::Idle
                } else if c == 'f' {
                    self.mode = Mode::Input {
                        action: InputAction::Search,
                        buffer: self.available_filter.clone(),
                    };
                    self.focus = Focus::Available;
                    proof {
                        assert(final(self)@ =~~= step_normal(old(self)@, key).0);
                    }
                    KeyCommand::Idle
                } else if c == 'F' {
                    self.available_filter = String::new();
                    self.available_filtered = identity_indices(self.available_items.len());
                    proof {
                        assert(final(self)@ =~~= step_normal(old(self)@, key).0);
                    }
                    KeyCommand::Idle
                } else {
                    KeyCommand::Idle
                }
            },
            Key::Tab => {
                self.focus = match self.focus {
                    Focus::Installed => Focus::Available,
                    Focus::Available => Focus::Installed,
                };
                proof {
                    assert(final(self)@ =~~= step_normal(old(self)@, key).0);
                }
                KeyCommand::Idle
            },
            Key::Down => {
                self.move_down();
                proof {
                    assert(final(self)@ =~~= step_normal(old(self)@, key).0);
                }
                KeyCommand::Idle
            },
            Key::Up => {
                self.move_up();
                proof {
                    assert(final(self)@ =~~= step_normal(old(self)@, key).0);
                }
                KeyCommand::Idle
            },
            Key::Enter => self.on_enter_normal(),
            _ => KeyCommand::Idle,
        }
    }

    fn move_down(&mut self)
        ensures
            final(self)@ == step_normal_down(old(self)@),
    {
        if matches!(self.focus, Focus::Installed) {
            if self.items.len() > 0 && self.selected < self.items.len() - 1 {
                self.selected = self.selected + 1;
            }
            proof {
                assert(final(self)@ =~~= step_normal_down(old(self)@));
            }
        } else {
            if self.available_filtered.len() > 0 {
                let pos = self.position_in_filtered();
                if pos < self.available_filtered.len() {
                    let np = if pos + 1 < self.available_filtered.len() {
                        pos + 1
                    } else {
                        self.available_filtered.len() - 1
                    };
                    self.available_selected = self.available_filtered[np];
                } else {
                    self.available_selected = self.available_filtered[0];
                }
            }
            proof {
                assert(final(self)@ =~~= step_normal_down(old(self)@));
            }
        }
    }

    fn move_up(&mut self)
        ensures
            final(self)@ == step_normal_up(old(self)@),
    {
        if matches!(self.focus, Focus::Installed) {
            if self.selected > 0 {
                self.selected = self.selected - 1;
            }
            proof {
                assert(final(self)@ =~~= step_normal_up(old(self)@));
            }
        } else {
            if self.available_filtered.len() > 0 {
                let pos = self.position_in_filtered();
                if pos < self.available_filtered.len() {
                    let np = if pos > 0 {
                        pos - 1
                    } else {
                        0
                    };
                    self.available_selected = self.available_filtered[np];
                } else {
                    self.available_selected = self.available_filtered[self.available_filtered.len()
                        - 1];
                }
            }
            proof {
                assert(final(self)@ =~~= step_normal_up(old(self)@));
            }
        }
    }

    fn confirm_on_selected(&mut self, action: ConfirmAction)
        ensures
            final(self)@ == confirm_selected(old(self)@, action@),
    {
        if self.selected < self.items.len() {
            let name = self.items[self.selected].name.clone();
            self.mode = Mode::Confirm { action, name, idx: Some(self.selected) };
            proof {
                assert(final(self)@ =~~= confirm_selected(old(self)@, action@));
            }
        }
    }

    fn on_enter_normal(&mut self) -> (cmd: KeyCommand)
        ensures
            final(self)@ == step_normal_enter(old(self)@).0,
            cmd@ == step_normal_enter(old(self)@).1,
    {
        if matches!(self.focus, Focus::Installed) {
            if self.selected < self.items.len() {
                let name = self.items[self.selected].name.clone();
                let idx = self.selected;
                let fresh = !self.is_last_selected(Focus::Installed, idx);
                self.mode = Mode::Confirm {
                    action: ConfirmAction::Uninstall,
                    name: name.clone(),
                    idx: Some(idx),
                };
                if fresh {
                    self.last_selected = Some((Focus::Installed, idx));
                    proof {
                        assert(final(self)@ =~~= step_normal_enter(old(self)@).0);
                    }
                    KeyCommand::FetchInstalledInfo(name, idx)
                } else {
                    proof {
                        assert(final(self)@ =~~= step_normal_enter(old(self)@).0);
                    }
                    KeyCommand::Idle
                }
            } else {
                KeyCommand::Idle
            }
        } else {
            if self.available_selected < self.available_items.len() {
                let name = self.available_items[self.available_selected].clone();
                let idx = self.available_selected;
                let fresh = !self.is_last_selected(Focus::Available, idx);
                self.mode = Mode::Confirm {
                    action: ConfirmAction::Install,
                    name: name.clone(),
                    idx: Some(idx),
                };
                if fresh {
                    self.last_selected = Some((Focus::Available, idx));
                    proof {
                        assert(final(self)@ =~~= step_normal_enter(old(self)@).0);
                    }
                    KeyCommand::FetchAvailableInfo(name, idx)
                } else {
                    proof {
                        assert(final(self)@ =~~= step_normal_enter(old(self)@).0);
                    }
                    KeyCommand::Idle
                }
            } else {
                KeyCommand::Idle
            }
        }
    }

    fn on_key_input(&mut self, action: InputAction, buffer: String, key: Key) -> (cmd: KeyCommand)
        requires
            old(self)@.mode == ModeView::Normal,
        ensures
            final(self)@ == step_input(old(self)@, action, buffer@, key).0,
            cmd@ == step_input(old(self)@, action, buffer@, key).1,
    {
        match key {
            Key::Esc => {
                self.status = "Cancelled input".to_owned();
                proof {
                    assert(final(self)@ =~~= step_input(old(self)@, action, buffer@, key).0);
                }
                KeyCommand::Idle
            },
            Key::Backspace => {
                let n = buffer.as_str().unicode_len();
                let nb: String = if n > 0 {
                    buffer.as_str().substring_char(0, n - 1).to_owned()
                } else {
                    buffer
                };
                proof {
                    assert(nb@ =~= (if buffer@.len() > 0 {
                        buffer@.drop_last()
                    } else {
                        buffer@
                    }));
                }
                if matches!(action, InputAction::Search) {
                    self.available_filter = nb.clone();
                    self.available_filtered = compute_filtered_indices(
                        &self.available_items,
                        nb.as_str(),
                    );
                }
                self.mode = Mode::Input { action, buffer: nb };
                proof {
                    assert(final(self)@ =~~= step_input(old(self)@, action, buffer@, key).0);
                }
                KeyCommand::Idle
            },
            Key::Enter => {
                let value = trim_str(buffer.as_str());
                if value.as_str().is_empty() {
                    KeyCommand::Idle
                } else if matches!(action, InputAction::Install) {
                    self.mode = Mode::Confirm {
                        action: ConfirmAction::Install,
                        name: value,
                        idx: None,
                    };
                    proof {
                        assert(final(self)@ =~~= step_input(old(self)@, action, buffer@, key).0);
                    }
                    KeyCommand::Idle
                } else if matches!(self.focus, Focus::Available) {
                    self.available_filter = value.clone();
                    self.available_filtered = compute_filtered_indices(
                        &self.available_items,
                        value.as_str(),
                    );
                    if self.available_filtered.len() > 0 {
                        self.available_selected = self.available_filtered[0];
                    }
                    proof {
                        assert(final(self)@ =~~= step_input(old(self)@, action, buffer@, key).0);
                    }
                    KeyCommand::Idle
                } else {
                    KeyCommand::RunSearch(value)
                }
            },
            Key::Char(c) => {
                let mut nb = buffer;
                push_char(&mut nb, c);
                if matches!(action, InputAction::Search) {
                    self.available_filter = nb.clone();
                    self.available_filtered = compute_filtered_indices(
                        &self.available_items,
                        nb.as_str(),
                    );
                    if self.available_filtered.len() > 0 {
                        self.available_selected = self.available_filtered[0];
                    }
                }
                self.mode = Mode::Input { action, buffer: nb };
                proof {
                    assert(final(self)@ =~~= step_input(old(self)@, action, buffer@, key).0);
                }
                KeyCommand::Idle
            },
            _ => {
                self.mode = Mode::Input { action, buffer };
                proof {
                    assert(final(self)@ =~~= step_input(old(self)@, action, buffer@, key).0);
                }
                KeyCommand::Idle
            },
        }
    }

    fn on_key_confirm(&mut self, action: ConfirmAction, name: String, key: Key) -> (cmd:
        KeyCommand)
        requires
            old(self)@.mode == ModeView::Normal,
        ensures
            final(self)@ == step_confirm(old(self)@, action@, name@, key).0,
            cmd@ == step_confirm(old(self)@, action@, name@, key).1,
    {
        match key {
            Key::Enter => KeyCommand::StartOperation(action, name),
            Key::Char(c) => {
                if c == 'y' {
                    KeyCommand::StartOperation(action, name)
                } else if c == 'n' {
                    self.status = "Cancelled".to_owned();
                    proof {
                        assert(final(self)@ =~~= step_confirm(old(self)@, action@, name@, key).0);
                    }
                    KeyCommand::Idle
                } else {
                    KeyCommand::Idle
                }
            },
            Key::Esc => {
                self.status = "Cancelled".to_owned();
                proof {
                    assert(final(self)@ =~~= step_confirm(old(self)@, action@, name@, key).0);
                }
                KeyCommand::Idle
            },
            _ => KeyCommand::Idle,
        }
    }

    fn on_key_search_results(&mut self, results: Vec<String>, selected: usize, key: Key)
        requires
            old(self)@.mode == ModeView::Normal,
        ensures
            final(self)@ == step_search_results(
                old(self)@,
                results.deep_view(),
                selected as int,
                key,
            ),
    {
        let ghost rv = results.deep_view();
        match key {
            Key::Up => {
                let ns = if selected > 0 {
                    selected - 1
                } else {
                    0
                };
                self.mode = Mode::SearchResults { results, selected: ns };
                proof {
                    assert(final(self)@ =~~= step_search_results(old(self)@, rv, selected as int,
                        key));
                }
            },
            Key::Down => {
                let ns = if results.len() > 0 && selected < results.len() - 1 {
                    selected + 1
                } else {
                    selected
                };
                self.mode = Mode::SearchResults { results, selected: ns };
                proof {
                    assert(final(self)@ =~~= step_search_results(old(self)@, rv, selected as int,
                        key));
                }
            },
            Key::Enter => {
                if selected < results.len() {
                    let name = results[selected].clone();
                    self.mode = Mode::Confirm {
                        action: ConfirmAction::Install,
                        name,
                        idx: None,
                    };
                }
                proof {
                    assert(final(self)@ =~~= step_search_results(old(self)@, rv, selected as int,
                        key));
                }
            },
            Key::Esc => {},
            Key::Char(c) => {
                if c == '?' {
                } else if c == 'k' {
                    let ns = if selected > 0 {
                        selected - 1
                    } else {
                        0
                    };
                    self.mode = Mode::SearchResults { results, selected: ns };
                } else if c == 'j' {
                    let ns = if results.len() > 0 && selected < results.len() - 1 {
                        selected + 1
                    } else {
                        selected
                    };
                    self.mode = Mode::SearchResults { results, selected: ns };
                } else {
                    self.mode = Mode::SearchResults { results, selected };
                }
                proof {
                    assert(final(self)@ =~~= step_search_results(old(self)@, rv, selected as int,
                        key));
                }
            },
            _ => {
                self.mode = Mode::SearchResults { results, selected };
                proof {
                    assert(final(self)@ =~~= step_search_results(old(self)@, rv, selected as int,
                        key));
                }
            },
        }
    }

    fn on_key_outdated(
        &mut self,
        packages: Vec<String>,
        cursor: usize,
        checked: Vec<bool>,
        scroll: usize,
        key: Key,
    )
        requires
            old(self)@.mode == ModeView::Normal,
        ensures
            final(self)@ == step_outdated(
                old(self)@,
                packages.deep_view(),
                cursor as int,
                checked@,
                scroll as int,
                key,
            ),
    {
        let ghost pv = packages.deep_view();
        let ghost cv = checked@;
        match key {
            Key::Esc => {},
            Key::Up => {
                let nc = if cursor > 0 {
                    cursor - 1
                } else {
                    0
                };
                self.mode = Mode::Outdated { packages, cursor: nc, checked, scroll };
                proof {
                    assert(final(self)@ =~~= step_outdated(old(self)@, pv, cursor as int, cv,
                        scroll as int, key));
                }
            },
            Key::Down => {
                let nc = if packages.len() > 0 && cursor < packages.len() - 1 {
                    cursor + 1
                } else {
                    cursor
                };
                self.mode = Mode::Outdated { packages, cursor: nc, checked, scroll };
                proof {
                    assert(final(self)@ =~~= step_outdated(old(self)@, pv, cursor as int, cv,
                        scroll as int, key));
                }
            },
            Key::Enter => {
                let marked = checked_names_exec(&packages, &checked);
                if marked.len() > 0 {
                    let name: String = if marked.len() == 1 {
                        marked[0].clone()
                    } else {
                        let mut n = usize_to_string(marked.len());
                        n.append(" packages");
                        n
                    };
                    self.mode = Mode::Confirm {
                        action: ConfirmAction::BulkUpgrade(marked),
                        name,
                        idx: None,
                    };
                } else {
                    self.mode = Mode::Outdated { packages, cursor, checked, scroll };
                }
                proof {
                    assert(final(self)@ =~~= step_outdated(old(self)@, pv, cursor as int, cv,
                        scroll as int, key));
                }
            },
            Key::Char(c) => {
                if c == '?' {
                } else if c == 'k' {
                    let nc = if cursor > 0 {
                        cursor - 1
                    } else {
                        0
                    };
                    self.mode = Mode::Outdated { packages, cursor: nc, checked, scroll };
                } else if c == 'j' {
                    let nc = if packages.len() > 0 && cursor < packages.len() - 1 {
                        cursor + 1
                    } else {
                        cursor
                    };
                    self.mode = Mode::Outdated { packages, cursor: nc, checked, scroll };
                } else if c == ' ' {
                    let mut checked = checked;
                    if cursor < checked.len() {
                        let cur = checked[cursor];
                        checked.set(cursor, !cur);
                    }
                    self.mode = Mode::Outdated { packages, cursor, checked, scroll };
                } else {
                    self.mode = Mode::Outdated { packages, cursor, checked, scroll };
                }
                proof {
                    assert(final(self)@ =~~= step_outdated(old(self)@, pv, cursor as int, cv,
                        scroll as int, key));
                }
            },
            _ => {
                self.mode = Mode::Outdated { packages, cursor, checked, scroll };
                proof {
                    assert(final(self)@ =~~= step_outdated(old(self)@, pv, cursor as int, cv,
                        scroll as int, key));
                }
            },
        }
    }

    fn on_key_operation(&mut self, title: String, logs: Vec<String>, scroll: usize, key: Key)
        requires
            old(self)@.mode == ModeView::Normal,
        ensures
            final(self)@ == step_operation(
                old(self)@,
                title@,
                logs.deep_view(),
                scroll as int,
                key,
            ),
    {
        let ghost tv = title@;
        let ghost lv = logs.deep_view();
        match key {
            Key::Esc => {},
            Key::Up => {
                let nsc = if logs.len() > 0 && scroll < logs.len() - 1 {
                    scroll + 1
                } else {
                    logs.len()
                };
                self.mode = Mode::Operation { title, logs, scroll: nsc };
                proof {
                    assert(final(self)@ =~~= step_operation(old(self)@, tv, lv, scroll as int,
                        key));
                }
            },
            Key::Down => {
                let nsc = if scroll > 0 {
                    scroll - 1
                } else {
                    0
                };
                self.mode = Mode::Operation { title, logs, scroll: nsc };
                proof {
                    assert(final(self)@ =~~= step_operation(old(self)@, tv, lv, scroll as int,
                        key));
                }
            },
            Key::PageUp => {
                let nsc = if logs.len() >= 10 && scroll < logs.len() - 10 {
                    scroll + 10
                } else {
                    logs.len()
                };
                self.mode = Mode::Operation { title, logs, scroll: nsc };
                proof {
                    assert(final(self)@ =~~= step_operation(old(self)@, tv, lv, scroll as int,
                        key));
                }
            },
            Key::PageDown => {
                let nsc = if scroll >= 10 {
                    scroll - 10
                } else {
                    0
                };
                self.mode = Mode::Operation { title, logs, scroll: nsc };
                proof {
                    assert(final(self)@ =~~= step_operation(old(self)@, tv, lv, scroll as int,
                        key));
                }
            },
            Key::Home => {
                let nsc = logs.len();
                self.mode = Mode::Operation { title, logs, scroll: nsc };
                proof {
                    assert(final(self)@ =~~= step_operation(old(self)@, tv, lv, scroll as int,
                        key));
                }
            },
            Key::End => {
                self.mode = Mode::Operation { title, logs, scroll: 0 };
                proof {
                    assert(final(self)@ =~~= step_operation(old(self)@, tv, lv, scroll as int,
                        key));
                }
            },
            Key::Char(c) => {
                if c == '?' {
                } else if c == 'k' {
                    let nsc = if logs.len() > 0 && scroll < logs.len() - 1 {
                        scroll + 1
                    } else {
                        logs.len()
                    };
                    self.mode = Mode::Operation { title, logs, scroll: nsc };
                } else if c == 'j' {
                    let nsc = if scroll > 0 {
                        scroll - 1
                    } else {
                        0
                    };
                    self.mode = Mode::Operation { title, logs, scroll: nsc };
                } else {
                    self.mode = Mode::Operation { title, logs, scroll };
                }
                proof {
                    assert(final(self)@ =~~= step_operation(old(self)@, tv, lv, scroll as int,
                        key));
                }
            },
            _ => {
                self.mode = Mode::Operation { title, logs, scroll };
                proof {
                    assert(final(self)@ =~~= step_operation(old(self)@, tv, lv, scroll as int,
                        key));
                }
            },
        }
    }

    /// Dispatch one key stroke to the active mode's handler, as `key_step`
    /// describes, and answer with the background work it demands.
    pub fn handle_key(&mut self, key: Key) -> (cmd: KeyCommand)
        ensures
            final(self)@ == key_step(old(self)@, key).0,
            cmd@ == key_step(old(self)@, key).1,
    {
        let mut taken = Mode::Normal;
        core::mem::swap(&mut self.mode, &mut taken);
        proof {
            assert(self@ =~~= (AppView { mode: ModeView::Normal, ..old(self)@ }));
        }
        match taken {
            Mode::Normal => self.on_key_normal(key),
            Mode::Help => KeyCommand::Idle,
            Mode::Input { action, buffer } => self.on_key_input(action, buffer, key),
            Mode::Confirm { action, name, idx: _ } => self.on_key_confirm(action, name, key),
            Mode::SearchResults { results, selected } => {
                self.on_key_search_results(results, selected, key);
                KeyCommand::Idle
            },
            Mode::Outdated { packages, cursor, checked, scroll } => {
                self.on_key_outdated(packages, cursor, checked, scroll, key);
                KeyCommand::Idle
            },
            Mode::Operation { title, logs, scroll } => {
                self.on_key_operation(title, logs, scroll, key);
                KeyCommand::Idle
            },
        }
    }
}

fn checked_names_exec(packages: &Vec<String>, checked: &Vec<bool>) -> (r: Vec<String>)
    ensures
        r.deep_view() == checked_names(packages.deep_view(), checked@),
{
    let mut r: Vec<String> = Vec::new();
    let mut i: usize = 0;
    proof {
        assert(checked_names(packages.deep_view().take(0), checked@) =~~= r.deep_view());
    }
    while i < packages.len()
        invariant
            i <= packages.len(),
            r.deep_view() == checked_names(packages.deep_view().take(i as int), checked@),
        decreases packages.len() - i,
    {
        let ghost r0 = r.deep_view();
        if i < checked.len() && checked[i] {
            r.push(packages[i].clone());
            proof {
                assert(r.deep_view() =~~= r0.push(packages.deep_view()[i as int]));
            }
        }
        proof {
            let pv = packages.deep_view();
            assert(pv.take(i + 1).drop_last() =~~= pv.take(i as int));
            assert(pv.take(i + 1).last() == pv[i as int]);
            assert(r.deep_view() =~~= checked_names(pv.take(i + 1), checked@));
        }
        i += 1;
    }
    proof {
        assert(packages.deep_view().take(packages.len() as int) =~~= packages.deep_view());
    }
    r
}

/// The tool verb a confirm action runs (empty for the bootstrap action, which
/// is not a tool subcommand).
pub open spec fn verb_of(a: ConfirmActionView) -> Seq<char> {
    match a {
        ConfirmActionView::Uninstall => "uninstall"@,
        ConfirmActionView::Upgrade => "upgrade"@,
        ConfirmActionView::Install => "install"@,
        ConfirmActionView::BulkUpgrade(_) => "upgrade"@,
        ConfirmActionView::InstallBrew => Seq::empty(),
    }
}

/// The arguments behind the verb: the confirmed name, or the whole bulk list.
pub open spec fn args_of(a: ConfirmActionView, name: Seq<char>) -> Seq<Seq<char>> {
    match a {
        ConfirmActionView::Uninstall => seq![name],
        ConfirmActionView::Upgrade => seq![name],
        ConfirmActionView::Install => seq![name],
        ConfirmActionView::BulkUpgrade(p) => p,
        ConfirmActionView::InstallBrew => Seq::empty(),
    }
}

/// The verb and arguments the operation runner hands to the external tool for
/// an accepted confirm action.
pub fn operation_command(action: &ConfirmAction, name: &str) -> (r: (String, Vec<String>))
    ensures
        r.0@ == verb_of(action@),
        r.1.deep_view() == args_of(action@, name@),
{
    match action {
        ConfirmAction::Uninstall => {
            let mut v: Vec<String> = Vec::new();
            v.push(name.to_owned());
            proof {
                assert(v.deep_view() =~~= args_of(action@, name@));
            }
            ("uninstall".to_owned(), v)
        },
        ConfirmAction::Upgrade => {
            let mut v: Vec<String> = Vec::new();
            v.push(name.to_owned());
            proof {
                assert(v.deep_view() =~~= args_of(action@, name@));
            }
            ("upgrade".to_owned(), v)
        },
        ConfirmAction::Install => {
            let mut v: Vec<String> = Vec::new();
            v.push(name.to_owned());
            proof {
                assert(v.deep_view() =~~= args_of(action@, name@));
            }
            ("install".to_owned(), v)
        },
        ConfirmAction::BulkUpgrade(pkgs) => {
            let v = pkgs.clone();
            proof {
                assert(v.deep_view() =~~= pkgs.deep_view());
            }
            ("upgrade".to_owned(), v)
        },
        ConfirmAction::InstallBrew => {
            let v: Vec<String> = Vec::new();
            proof {
                reveal_strlit("");
                assert(""@ =~= Seq::<char>::empty());
                assert(v.deep_view() =~~= Seq::<Seq<char>>::empty());
            }
            ("".to_owned(), v)
        },
    }
}

/// The title an operation is logged and displayed under.
pub open spec fn operation_title_of(verb: Seq<char>, args: Seq<Seq<char>>) -> Seq<char> {
    if verb.len() == 0 {
        "brew op"@
    } else {
        "brew "@ + verb + " "@ + spec_join_space(args)
    }
}

/// Build an operation's display title from its verb and arguments.
pub fn operation_title(verb: &str, args: &Vec<String>) -> (r: String)
    ensures
        r@ == operation_title_of(verb@, args.deep_view()),
{
    if verb.is_empty() {
        "brew op".to_owned()
    } else {
        let mut t = "brew ".to_owned();
        t.append(verb);
        t.append(" ");
        let joined = join_space(args);
        t.append(joined.as_str());
        t
    }
}

} // verus!
