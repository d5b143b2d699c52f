use homebrew_tui::app::{App, AppEvent, ConfirmAction, EventEffect, Focus, Mode};
use homebrew_tui::brew::FormulaInfo;
use homebrew_tui::keys::{Key, KeyCommand};

fn named(name: &str) -> FormulaInfo {
    FormulaInfo::from_name(name.to_string())
}

#[test]
fn smoke_install_brew_events() {
    let mut app = App::new();

    let title = "install-homebrew".to_string();
    assert!(!app.operating);

    app.handle_event(AppEvent::OpStart(title.clone()));
    assert!(app.operating);
    match &app.mode {
        Mode::Operation { title: t, logs, .. } => {
            assert_eq!(t, &title);
            assert!(logs.is_empty());
        }
        _ => panic!("expected Operation mode"),
    }

    app.handle_event(AppEvent::OpLog("Downloading... 10%".into()));
    app.handle_event(AppEvent::OpLog("Downloading... 50%".into()));
    app.handle_event(AppEvent::OpLog("Installing... 100%".into()));

    assert_eq!(app.operation_percent, Some(100));
    assert!(app.logs.iter().any(|l| l.contains("Downloading...")));

    app.handle_event(AppEvent::OpEnd(title.clone()));
    assert!(!app.operating);
    assert!(app.operation_percent.is_none());
}

#[test]
fn operation_percent_takes_the_last_value_not_the_maximum() {
    let mut app = App::new();
    app.handle_event(AppEvent::OpStart("op".into()));
    app.handle_event(AppEvent::OpLog("step 50%".into()));
    app.handle_event(AppEvent::OpLog("step 10%".into()));
    assert_eq!(app.operation_percent, Some(10));
}

#[test]
fn parse_percent_examples() {
    assert_eq!(App::parse_percent("abc 7%"), Some(7));
    assert_eq!(App::parse_percent("no percent here"), None);
    assert_eq!(App::parse_percent("150% done"), Some(100));
    assert_eq!(App::parse_percent("%"), None);
}

#[test]
fn log_tail_evicts_oldest_hundred_in_one_batch() {
    let mut app = App::new();
    for i in 0..301 {
        app.handle_event(AppEvent::Log(format!("line {}", i)));
    }
    assert!(app.logs.len() <= 300);
    assert_eq!(app.logs.len(), 201);
    assert_eq!(app.logs[0], "line 100");
    assert_eq!(app.logs.last().unwrap(), "line 300");
    assert!(!app.logs.iter().any(|l| l == "line 99"));
}

#[test]
fn operation_log_evicts_oldest_five_hundred_and_reclamps_scroll() {
    let mut app = App::new();
    app.handle_event(AppEvent::OpStart("op".into()));
    for i in 0..2000 {
        app.handle_event(AppEvent::OpLog(format!("out {}", i)));
    }
    // Scroll all the way back to the oldest line.
    app.handle_key(Key::Home);
    match &app.mode {
        Mode::Operation { logs, scroll, .. } => {
            assert_eq!(logs.len(), 2000);
            assert_eq!(*scroll, 2000);
        }
        _ => panic!("expected Operation mode"),
    }
    // One more line crosses the capacity: 500 oldest leave, scroll re-clamps.
    app.handle_event(AppEvent::OpLog("out 2000".into()));
    match &app.mode {
        Mode::Operation { logs, scroll, .. } => {
            assert_eq!(logs.len(), 1501);
            assert!(*scroll <= logs.len());
            assert_eq!(logs[0], "out 500");
            assert_eq!(logs.last().unwrap(), "out 2000");
        }
        _ => panic!("expected Operation mode"),
    }
}

#[test]
fn available_list_loaded_sets_identity_indices() {
    let mut app = App::new();
    let names: Vec<String> = vec!["a".into(), "b".into(), "c".into(), "d".into()];
    app.handle_event(AppEvent::AvailableList(names));
    assert_eq!(app.available_filtered, vec![0, 1, 2, 3]);
    assert!(!app.loading_available);
}

#[test]
fn package_list_loaded_always_demands_one_outdated_check() {
    let mut app = App::new();
    let eff = app.handle_event(AppEvent::BrewList(vec![]));
    assert_eq!(eff, EventEffect::RefreshOutdated);
    let eff = app.handle_event(AppEvent::BrewList(vec![named("wget")]));
    assert_eq!(eff, EventEffect::RefreshOutdated);
    let eff = app.handle_event(AppEvent::Status("x".into()));
    assert_eq!(eff, EventEffect::Idle);
    let eff = app.handle_event(AppEvent::OutdatedList(vec!["wget".into()]));
    assert_eq!(eff, EventEffect::Idle);
}

#[test]
fn loaded_lists_are_visible_in_state_and_status() {
    let mut app = App::new();
    app.handle_event(AppEvent::BrewList(vec![named("wget")]));
    app.handle_event(AppEvent::OutdatedList(vec!["wget".into()]));
    assert_eq!(app.items.len(), 1);
    assert_eq!(app.outdated_items.len(), 1);
    assert!(app.outdated_items.iter().any(|n| n == "wget"));
    app.update_status();
    assert!(app.status.contains("Installed: 1"));
}

#[test]
fn bootstrap_confirm_runs_to_exactly_one_operation_end() {
    let mut app = App::new();
    app.handle_event(AppEvent::ShowConfirm(
        ConfirmAction::InstallBrew,
        "Homebrew".into(),
        None,
    ));
    match &app.mode {
        Mode::Confirm { action, idx, .. } => {
            assert!(matches!(action, ConfirmAction::InstallBrew));
            assert!(idx.is_none());
        }
        _ => panic!("expected Confirm mode"),
    }
    // Accepting demands exactly one operation start.
    let cmd = app.handle_key(Key::Char('y'));
    let (action, name) = match cmd {
        KeyCommand::StartOperation(a, n) => (a, n),
        _ => panic!("expected a demanded operation"),
    };
    assert!(matches!(action, ConfirmAction::InstallBrew));
    assert_eq!(name, "Homebrew");
    assert!(matches!(app.mode, Mode::Normal));
    // The runner posts its events even when the spawn fails at once: the start,
    // a failure log, and always exactly one matching end.
    let title = "install-homebrew".to_string();
    app.handle_event(AppEvent::OpStart(title.clone()));
    assert!(app.operating);
    app.handle_event(AppEvent::Log("failed to spawn installer: missing".into()));
    app.handle_event(AppEvent::OpEnd(title));
    assert!(!app.operating);
    assert!(app.operation_percent.is_none());
}

#[test]
fn operation_started_flags_and_end_clears_percent() {
    let mut app = App::new();
    assert!(!app.operating);
    app.handle_event(AppEvent::OpStart("brew install wget".into()));
    assert!(app.operating);
    app.handle_event(AppEvent::OpLog("50%".into()));
    assert_eq!(app.operation_percent, Some(50));
    app.handle_event(AppEvent::OpEnd("brew install wget".into()));
    assert!(!app.operating);
    assert_eq!(app.operation_percent, None);
}

#[test]
fn search_results_event_opens_modal_and_enter_confirms_install() {
    let mut app = App::new();
    app.handle_event(AppEvent::SearchResults(vec![
        "git".into(),
        "gitk".into(),
    ]));
    match &app.mode {
        Mode::SearchResults { results, selected } => {
            assert_eq!(results.len(), 2);
            assert_eq!(*selected, 0);
        }
        _ => panic!("expected SearchResults mode"),
    }
    app.handle_key(Key::Down);
    match &app.mode {
        Mode::SearchResults { selected, .. } => assert_eq!(*selected, 1),
        _ => panic!("expected SearchResults mode"),
    }
    app.handle_key(Key::Enter);
    match &app.mode {
        Mode::Confirm { action, name, idx } => {
            assert!(matches!(action, ConfirmAction::Install));
            assert_eq!(name, "gitk");
            assert!(idx.is_none());
        }
        _ => panic!("expected Confirm mode"),
    }
}

#[test]
fn outdated_modal_toggles_and_confirms_bulk_upgrade() {
    let mut app = App::new();
    app.handle_event(AppEvent::OutdatedList(vec![
        "awscli".into(),
        "git".into(),
        "vim".into(),
    ]));
    app.handle_key(Key::Char('o'));
    match &app.mode {
        Mode::Outdated { packages, cursor, checked, .. } => {
            assert_eq!(packages.len(), 3);
            assert_eq!(*cursor, 0);
            assert_eq!(checked, &vec![false, false, false]);
        }
        _ => panic!("expected Outdated mode"),
    }
    // Enter with nothing marked stays put.
    app.handle_key(Key::Enter);
    assert!(matches!(app.mode, Mode::Outdated { .. }));
    // Mark the first and third rows, then confirm.
    app.handle_key(Key::Char(' '));
    app.handle_key(Key::Down);
    app.handle_key(Key::Down);
    app.handle_key(Key::Char(' '));
    app.handle_key(Key::Enter);
    match &app.mode {
        Mode::Confirm { action, name, .. } => {
            match action {
                ConfirmAction::BulkUpgrade(pkgs) => {
                    assert_eq!(pkgs, &vec!["awscli".to_string(), "vim".to_string()]);
                }
                _ => panic!("expected a bulk upgrade"),
            }
            assert_eq!(name, "2 packages");
        }
        _ => panic!("expected Confirm mode"),
    }
}

#[test]
fn confirm_cancel_sets_status_and_closes() {
    let mut app = App::new();
    app.handle_event(AppEvent::ShowConfirm(
        ConfirmAction::Install,
        "wget".into(),
        None,
    ));
    let cmd = app.handle_key(Key::Char('n'));
    assert!(matches!(cmd, KeyCommand::Idle));
    assert!(matches!(app.mode, Mode::Normal));
    assert_eq!(app.status, "Cancelled");
}

#[test]
fn help_opens_and_any_key_closes() {
    let mut app = App::new();
    app.handle_key(Key::Char('?'));
    assert!(matches!(app.mode, Mode::Help));
    app.handle_key(Key::Char('x'));
    assert!(matches!(app.mode, Mode::Normal));
}

#[test]
fn quit_key_demands_quit() {
    let mut app = App::new();
    let cmd = app.handle_key(Key::Char('q'));
    assert!(matches!(cmd, KeyCommand::Quit));
}

#[test]
fn refresh_key_demands_outdated_check() {
    let mut app = App::new();
    let cmd = app.handle_key(Key::Char('R'));
    assert!(matches!(cmd, KeyCommand::RefreshOutdated));
}

#[test]
fn tab_toggles_focus_and_navigation_clamps() {
    let mut app = App::new();
    app.handle_event(AppEvent::BrewList(vec![named("a"), named("b")]));
    assert!(matches!(app.focus, Focus::Installed));
    app.handle_key(Key::Up);
    assert_eq!(app.selected, 0);
    app.handle_key(Key::Down);
    assert_eq!(app.selected, 1);
    app.handle_key(Key::Down);
    assert_eq!(app.selected, 1);
    app.handle_key(Key::Tab);
    assert!(matches!(app.focus, Focus::Available));
    app.handle_key(Key::Tab);
    assert!(matches!(app.focus, Focus::Installed));
}

#[test]
fn available_navigation_walks_the_filtered_indices() {
    let mut app = App::new();
    app.handle_event(AppEvent::AvailableList(vec![
        "git".into(),
        "gitk".into(),
        "vim".into(),
    ]));
    app.handle_key(Key::Tab);
    assert!(matches!(app.focus, Focus::Available));
    // Filter down to the two git entries: only indices 0 and 1 stay in it.
    app.handle_key(Key::Char('f'));
    for c in "git".chars() {
        app.handle_key(Key::Char(c));
    }
    app.handle_key(Key::Esc);
    assert_eq!(app.available_filtered, vec![0, 1]);
    assert_eq!(app.available_selected, 0);
    app.handle_key(Key::Down);
    assert_eq!(app.available_selected, 1);
    app.handle_key(Key::Down);
    assert_eq!(app.available_selected, 1);
    app.handle_key(Key::Up);
    assert_eq!(app.available_selected, 0);
}

#[test]
fn enter_in_normal_mode_confirms_and_fetches_details_once() {
    let mut app = App::new();
    app.handle_event(AppEvent::BrewList(vec![named("wget")]));
    let cmd = app.handle_key(Key::Enter);
    match cmd {
        KeyCommand::FetchInstalledInfo(name, idx) => {
            assert_eq!(name, "wget");
            assert_eq!(idx, 0);
        }
        _ => panic!("expected a demanded detail fetch"),
    }
    match &app.mode {
        Mode::Confirm { action, name, idx } => {
            assert!(matches!(action, ConfirmAction::Uninstall));
            assert_eq!(name, "wget");
            assert_eq!(*idx, Some(0));
        }
        _ => panic!("expected Confirm mode"),
    }
    // The same row again: the fetch was remembered, none is demanded.
    app.handle_key(Key::Esc);
    let cmd = app.handle_key(Key::Enter);
    assert!(matches!(cmd, KeyCommand::Idle));
}

#[test]
fn detail_poll_fetches_once_per_row() {
    let mut app = App::new();
    app.handle_event(AppEvent::BrewList(vec![named("wget"), named("git")]));
    let cmd = app.poll_detail();
    match cmd {
        KeyCommand::FetchInstalledInfo(name, idx) => {
            assert_eq!(name, "wget");
            assert_eq!(idx, 0);
        }
        _ => panic!("expected a demanded detail fetch"),
    }
    assert!(matches!(app.poll_detail(), KeyCommand::Idle));
    app.handle_key(Key::Down);
    match app.poll_detail() {
        KeyCommand::FetchInstalledInfo(name, idx) => {
            assert_eq!(name, "git");
            assert_eq!(idx, 1);
        }
        _ => panic!("expected a demanded detail fetch"),
    }
}

#[test]
fn detail_events_update_rows_and_memo() {
    let mut app = App::new();
    app.handle_event(AppEvent::BrewList(vec![named("wget")]));
    let mut full = named("wget");
    full.desc = Some("internet retriever".into());
    app.handle_event(AppEvent::BrewInfo(full, 0));
    assert_eq!(app.items[0].desc.as_deref(), Some("internet retriever"));
    assert_eq!(app.last_selected, Some((Focus::Installed, 0)));
    let mut av = named("git");
    av.desc = Some("version control".into());
    app.handle_event(AppEvent::BrewInfoAvailable(av, 3));
    assert_eq!(
        app.available_details.as_ref().unwrap().desc.as_deref(),
        Some("version control")
    );
    assert_eq!(app.last_selected, Some((Focus::Available, 3)));
}

#[test]
fn input_prompt_collects_and_confirms_install() {
    let mut app = App::new();
    app.handle_key(Key::Char('i'));
    assert!(matches!(app.mode, Mode::Input { .. }));
    for c in "wget".chars() {
        app.handle_key(Key::Char(c));
    }
    app.handle_key(Key::Backspace);
    app.handle_key(Key::Char('t'));
    app.handle_key(Key::Enter);
    match &app.mode {
        Mode::Confirm { action, name, idx } => {
            assert!(matches!(action, ConfirmAction::Install));
            assert_eq!(name, "wget");
            assert!(idx.is_none());
        }
        _ => panic!("expected Confirm mode"),
    }
}

#[test]
fn search_prompt_on_installed_focus_demands_background_search() {
    let mut app = App::new();
    app.handle_key(Key::Char('s'));
    for c in "git".chars() {
        app.handle_key(Key::Char(c));
    }
    let cmd = app.handle_key(Key::Enter);
    match cmd {
        KeyCommand::RunSearch(q) => assert_eq!(q, "git"),
        _ => panic!("expected a demanded search"),
    }
    assert!(matches!(app.mode, Mode::Normal));
}

#[test]
fn operation_modal_scrolling_bounds() {
    let mut app = App::new();
    app.handle_event(AppEvent::OpStart("op".into()));
    for i in 0..5 {
        app.handle_event(AppEvent::OpLog(format!("l{}", i)));
    }
    app.handle_key(Key::Up);
    app.handle_key(Key::Up);
    match &app.mode {
        Mode::Operation { scroll, .. } => assert_eq!(*scroll, 2),
        _ => panic!("expected Operation mode"),
    }
    app.handle_key(Key::Home);
    match &app.mode {
        Mode::Operation { scroll, .. } => assert_eq!(*scroll, 5),
        _ => panic!("expected Operation mode"),
    }
    app.handle_key(Key::PageDown);
    match &app.mode {
        Mode::Operation { scroll, .. } => assert_eq!(*scroll, 0),
        _ => panic!("expected Operation mode"),
    }
    app.handle_key(Key::End);
    match &app.mode {
        Mode::Operation { scroll, .. } => assert_eq!(*scroll, 0),
        _ => panic!("expected Operation mode"),
    }
    app.handle_key(Key::Esc);
    assert!(matches!(app.mode, Mode::Normal));
}

#[test]
fn clear_filter_key_restores_all_indices() {
    let mut app = App::new();
    app.handle_event(AppEvent::AvailableList(vec![
        "git".into(),
        "gitk".into(),
        "vim".into(),
    ]));
    app.handle_key(Key::Char('f'));
    for c in "git".chars() {
        app.handle_key(Key::Char(c));
    }
    app.handle_key(Key::Esc);
    assert_eq!(app.available_filtered, vec![0, 1]);
    assert_eq!(app.available_filter, "git");
    app.handle_key(Key::Char('F'));
    assert_eq!(app.available_filtered, vec![0, 1, 2]);
    assert_eq!(app.available_filter, "");
}
