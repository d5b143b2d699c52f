use homebrew_tui::app::{App, AppEvent, ConfirmAction};
use homebrew_tui::brew::{BrewError, FormulaInfo};
use homebrew_tui::keys::{operation_command, operation_title};
use homebrew_tui::strutil::{
    contains_str, first_token, join_space, sort_dedup, split_lines, str_lt, trim_str,
    usize_to_string,
};

#[test]
fn substring_search_cases() {
    assert!(contains_str("gitk", "git"));
    assert!(contains_str("git", "git"));
    assert!(contains_str("anything", ""));
    assert!(!contains_str("vim", "git"));
    assert!(!contains_str("gi", "git"));
}

#[test]
fn trim_and_first_token() {
    assert_eq!(trim_str("  awscli (2.30.7)  "), "awscli (2.30.7)");
    assert_eq!(trim_str("\t\n  \r"), "");
    assert_eq!(trim_str("plain"), "plain");
    assert_eq!(first_token("awscli (2.30.7) < 2.31.2"), "awscli");
    assert_eq!(first_token("single"), "single");
}

#[test]
fn line_splitting_handles_crlf_and_final_newline() {
    assert_eq!(split_lines("a\nb\n"), vec!["a", "b"]);
    assert_eq!(split_lines("a\r\nb"), vec!["a", "b"]);
    assert_eq!(split_lines(""), Vec::<String>::new());
    assert_eq!(split_lines("\n\n"), vec!["", ""]);
    assert_eq!(split_lines("tail"), vec!["tail"]);
}

#[test]
fn decimal_rendering() {
    assert_eq!(usize_to_string(0), "0");
    assert_eq!(usize_to_string(7), "7");
    assert_eq!(usize_to_string(100), "100");
    assert_eq!(usize_to_string(65535), "65535");
}

#[test]
fn lexicographic_order_and_sorting() {
    assert!(str_lt("awscli", "git"));
    assert!(str_lt("git", "gitk"));
    assert!(!str_lt("git", "git"));
    let v: Vec<String> = vec!["vim".into(), "git".into(), "vim".into(), "awscli".into()];
    assert_eq!(
        sort_dedup(&v),
        vec!["awscli".to_string(), "git".to_string(), "vim".to_string()]
    );
}

#[test]
fn joining_with_spaces() {
    let v: Vec<String> = vec!["a".into(), "bc".into(), "d".into()];
    assert_eq!(join_space(&v), "a bc d");
    assert_eq!(join_space(&Vec::<String>::new()), "");
}

#[test]
fn operation_command_and_title() {
    let (verb, args) = operation_command(&ConfirmAction::Install, "wget");
    assert_eq!(verb, "install");
    assert_eq!(args, vec!["wget".to_string()]);
    assert_eq!(operation_title(&verb, &args), "brew install wget");

    let bulk = ConfirmAction::BulkUpgrade(vec!["git".into(), "vim".into()]);
    let (verb, args) = operation_command(&bulk, "2 packages");
    assert_eq!(verb, "upgrade");
    assert_eq!(args, vec!["git".to_string(), "vim".to_string()]);
    assert_eq!(operation_title(&verb, &args), "brew upgrade git vim");

    let (verb, args) = operation_command(&ConfirmAction::InstallBrew, "Homebrew");
    assert_eq!(verb, "");
    assert!(args.is_empty());
    assert_eq!(operation_title(&verb, &args), "brew op");
}

#[test]
fn status_line_lists_counts_focus_selection_and_mode() {
    let mut app = App::new();
    app.handle_event(AppEvent::BrewList(vec![FormulaInfo::from_name(
        "wget".to_string(),
    )]));
    app.handle_event(AppEvent::AvailableList(vec!["git".into(), "wget".into()]));
    app.update_status();
    assert_eq!(
        app.status,
        "Installed: 1  Available: 2  Focus: Installed  Selected: wget (installed)  Mode: Normal  Logs: 0"
    );
    app.handle_event(AppEvent::OpStart("brew install git".into()));
    app.update_status();
    assert!(app.status.contains("Mode: Operation: brew install git (0 lines)"));
    assert!(app.status.contains("Logs: 1"));
}

#[test]
fn error_messages_carry_their_text() {
    assert_eq!(
        BrewError::ToolInvocation("brew list failed".into()).message(),
        "brew list failed"
    );
    assert_eq!(BrewError::Decode("bad json".into()).message(), "bad json");
    assert_eq!(BrewError::NotFound.message(), "no info");
}

#[test]
fn spinner_advances_through_eight_frames() {
    let mut app = App::new();
    assert_eq!(app.spinner_idx, 0);
    for expected in [1usize, 2, 3, 4, 5, 6, 7, 0, 1] {
        app.advance_spinner();
        assert_eq!(app.spinner_idx, expected);
    }
}

#[test]
fn trimming_strips_unicode_whitespace_too() {
    assert_eq!(trim_str("\u{a0}wget\u{2028}"), "wget");
    assert_eq!(first_token("wget\u{3000}1.21"), "wget");
}
