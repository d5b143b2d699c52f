//! The derived status summary recomputed each tick, and the per-tick detail
//! fetch decision: when the cursor rests on a row whose details were not the
//! last ones fetched, exactly one fetch is demanded and remembered.

use vstd::prelude::*;

use crate::app::{App, AppView, Focus, InputAction, Mode, ModeView};
use crate::brew::FormulaInfoView;
use crate::keys::{KeyCommand, KeyCommandView};
use crate::strutil::{spec_dec, usize_to_string};

verus! {

/// The focused column's name.
pub open spec fn focus_label(f: Focus) -> Seq<char> {
    if f == Focus::Installed {
        "Installed"@
    } else {
        "Available"@
    }
}

/// The one-line summary of the active mode.
pub open spec fn mode_label(m: ModeView) -> Seq<char> {
    match m {
        ModeView::Normal => "Normal"@,
        ModeView::Help => "Help"@,
        ModeView::Input { action, .. } => if action == InputAction::Install {
            "Input(Install)"@
        } else {
            "Input(Search)"@
        },
        ModeView::Confirm { action, name, .. } => match action {
            crate::app::ConfirmActionView::Install => "Confirm Install "@ + name,
            crate::app::ConfirmActionView::Uninstall => "Confirm Uninstall "@ + name,
            crate::app::ConfirmActionView::Upgrade => "Confirm Upgrade "@ + name,
            crate::app::ConfirmActionView::BulkUpgrade(_) => "Confirm Bulk Upgrade "@ + name,
            crate::app::ConfirmActionView::InstallBrew => "Confirm Install Homebrew"@,
        },
        ModeView::SearchResults { results, selected } => "SearchResults "@ + spec_dec(
            results.len() as int,
        ) + " results (sel "@ + spec_dec(selected) + ")"@,
        ModeView::Outdated { packages, cursor, .. } => "Outdated "@ + spec_dec(
            packages.len() as int,
        ) + " packages (cursor "@ + spec_dec(cursor) + ")"@,
        ModeView::Operation { title, logs, .. } => "Operation: "@ + title + " ("@ + spec_dec(
            logs.len() as int,
        ) + " lines)"@,
    }
}

/// The name under the cursor of the focused column, or nothing.
pub open spec fn selected_name_of(s: AppView) -> Seq<char> {
    if s.focus == Focus::Installed {
        if 0 <= s.selected < s.items.len() {
            s.items[s.selected].name
        } else {
            Seq::empty()
        }
    } else {
        if 0 <= s.available_selected < s.available_items.len() {
            s.available_items[s.available_selected]
        } else {
            Seq::empty()
        }
    }
}

/// Some installed formula bears this name.
pub open spec fn contains_formula_named(items: Seq<FormulaInfoView>, name: Seq<char>) -> bool {
    exists|i: int| 0 <= i < items.len() && items[i].name == name
}

/// The installed-or-not tag behind the selected name; empty when nothing is
/// selected.
pub open spec fn installed_tag_of(s: AppView) -> Seq<char> {
    let name = selected_name_of(s);
    if name.len() == 0 {
        Seq::empty()
    } else if contains_formula_named(s.items, name) {
        "(installed)"@
    } else {
        "(not installed)"@
    }
}

/// The whole status line: package counts, focus, the selected name with its
/// installed tag, the mode summary and the log count.
pub open spec fn status_line_of(s: AppView) -> Seq<char> {
    "Installed: "@ + spec_dec(s.items.len() as int) + "  Available: "@ + spec_dec(
        s.available_items.len() as int,
    ) + "  Focus: "@ + focus_label(s.focus) + "  Selected: "@ + (if selected_name_of(s).len()
        == 0 {
        "-"@
    } else {
        selected_name_of(s)
    }) + " "@ + installed_tag_of(s) + "  Mode: "@ + mode_label(s.mode) + "  Logs: "@ + spec_dec(
        s.logs.len() as int,
    )
}

/// The per-tick detail fetch: demanded once when the cursor rests on a row
/// whose details were not the last ones fetched, and remembered so the next
/// tick stays quiet.
pub open spec fn poll_detail_spec(s: AppView) -> (AppView, KeyCommandView) {
    if s.focus == Focus::Installed {
        if s.items.len() > 0 && s.last_selected != Some((Focus::Installed, s.selected)) && 0
            <= s.selected < s.items.len() {
            (
                AppView { last_selected: Some((Focus::Installed, s.selected)), ..s },
                KeyCommandView::FetchInstalledInfo(s.items[s.selected].name, s.selected),
            )
        } else {
            (s, KeyCommandView::Idle)
        }
    } else {
        if s.available_items.len() > 0 && s.last_selected != Some(
            (Focus::Available, s.available_selected),
        ) && 0 <= s.available_selected < s.available_items.len() {
            (
                AppView {
                    last_selected: Some((Focus::Available, s.available_selected)),
                    ..s
                },
                KeyCommandView::FetchAvailableInfo(
                    s.available_items[s.available_selected],
                    s.available_selected,
                ),
            )
        } else {
            (s, KeyCommandView::Idle)
        }
    }
}

impl App {
    fn selected_name(&self) -> (r: String)
        ensures
            r@ == selected_name_of(self@),
    {
        match self.focus {
            Focus::Installed => {
                if self.selected < self.items.len() {
                    self.items[self.selected].name.clone()
                } else {
                    String::new()
                }
            },
            Focus::Available => {
                if self.available_selected < self.available_items.len() {
                    self.available_items[self.available_selected].clone()
                } else {
                    String::new()
                }
            },
        }
    }

    fn any_installed_named(&self, name: &String) -> (r: bool)
        ensures
            r == contains_formula_named(self@.items, name@),
    {
        let mut i: usize = 0;
        while i < self.items.len()
            invariant
                i <= self.items@.len(),
                forall|j: int| 0 <= j < i ==> self@.items[j].name != name@,
            decreases self.items@.len() - i,
        {
            if self.items[i].name == *name {
                proof {
                    assert(self@.items[i as int].name == name@);
                }
                return true;
            }
            i += 1;
        }
        false
    }

    fn mode_label_exec(&self) -> (r: String)
        ensures
            r@ == mode_label(self@.mode),
    {
        match &self.mode {
            Mode::Normal => "Normal".to_owned(),
            Mode::Help => "Help".to_owned(),
            Mode::Input { action, .. } => match action {
                InputAction::Install => "Input(Install)".to_owned(),
                InputAction::Search => "Input(Search)".to_owned(),
            },
            Mode::Confirm { action, name, .. } => {
                let mut st = match action {
                    crate::app::ConfirmAction::Install => "Confirm Install ".to_owned(),
                    crate::app::ConfirmAction::Uninstall => "Confirm Uninstall ".to_owned(),
                    crate::app::ConfirmAction::Upgrade => "Confirm Upgrade ".to_owned(),
                    crate::app::ConfirmAction::BulkUpgrade(_) => "Confirm Bulk Upgrade ".to_owned(),
                    crate::app::ConfirmAction::InstallBrew => {
                        return "Confirm Install Homebrew".to_owned();
                    },
                };
                st.append(name.as_str());
                st
            },
            Mode::SearchResults { results, selected } => {
                let mut st = "SearchResults ".to_owned();
                st.append(usize_to_string(results.len()).as_str());
                st.append(" results (sel ");
                st.append(usize_to_string(*selected).as_str());
                st.append(")");
                st
            },
            Mode::Outdated { packages, cursor, .. } => {
                let mut st = "Outdated ".to_owned();
                st.append(usize_to_string(packages.len()).as_str());
                st.append(" packages (cursor ");
                st.append(usize_to_string(*cursor).as_str());
                st.append(")");
                st
            },
            Mode::Operation { title, logs, .. } => {
                let mut st = "Operation: ".to_owned();
                st.append(title.as_str());
                st.append(" (");
                st.append(usize_to_string(logs.len()).as_str());
                st.append(" lines)");
                st
            },
        }
    }

    /// Recompute the status line from the current state, as `status_line_of`
    /// describes; nothing else changes.
    pub fn update_status(&mut self)
        ensures
            final(self)@ == (AppView { status: status_line_of(old(self)@), ..old(self)@ }),
    {
        let mut st = "Installed: ".to_owned();
        st.append(usize_to_string(self.items.len()).as_str());
        st.append("  Available: ");
        st.append(usize_to_string(self.available_items.len()).as_str());
        st.append("  Focus: ");
        match self.focus {
            Focus::Installed => st.append("Installed"),
            Focus::Available => st.append("Available"),
        }
        st.append("  Selected: ");
        let name = self.selected_name();
        if name.as_str().is_empty() {
            st.append("-");
        } else {
            st.append(name.as_str());
        }
        st.append(" ");
        if !name.as_str().is_empty() {
            if self.any_installed_named(&name) {
                st.append("(installed)");
            } else {
                st.append("(not installed)");
            }
        }
        st.append("  Mode: ");
        let ml = self.mode_label_exec();
        st.append(ml.as_str());
        st.append("  Logs: ");
        st.append(usize_to_string(self.logs.len()).as_str());
        self.status = st;
        proof {
            assert(final(self)@ =~~= (AppView {
                status: status_line_of(old(self)@),
                ..old(self)@
            }));
        }
    }

    /// Decide the per-tick detail fetch, as `poll_detail_spec` describes.
    pub fn poll_detail(&mut self) -> (cmd: KeyCommand)
        ensures
            final(self)@ == poll_detail_spec(old(self)@).0,
            cmd@ == poll_detail_spec(old(self)@).1,
    {
        match self.focus {
            Focus::Installed => {
                if self.items.len() > 0 && !self.is_last_selected(Focus::Installed, self.selected)
                    && self.selected < self.items.len() {
                    let idx = self.selected;
                    let name = self.items[idx].name.clone();
                    self.last_selected = Some((Focus::Installed, idx));
                    proof {
                        assert(final(self)@ =~~= poll_detail_spec(old(self)@).0);
                    }
                    KeyCommand::FetchInstalledInfo(name, idx)
                } else {
                    KeyCommand::Idle
                }
            },
            Focus::Available => {
                if self.available_items.len() > 0 && !self.is_last_selected(
                    Focus::Available,
                    self.available_selected,
                ) && self.available_selected < self.available_items.len() {
                    let idx = self.available_selected;
                    let name = self.available_items[idx].clone();
                    self.last_selected = Some((Focus::Available, idx));
                    proof {
                        assert(final(self)@ =~~= poll_detail_spec(old(self)@).0);
                    }
                    KeyCommand::FetchAvailableInfo(name, idx)
                } else {
                    KeyCommand::Idle
                }
            },
        }
    }
}

} // verus!

