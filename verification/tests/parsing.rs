use homebrew_tui::app::compute_filtered_indices;
use homebrew_tui::brew::{
    decode_formula_info, decode_formulae_list, parse_available_output, parse_installed_names,
    parse_outdated_output, parse_search_output, plain_listing_empty, Brew, BrewError,
};

#[test]
fn parse_brew_list_json() {
    let sample = r#"{"formulae":[{"name":"openssl","full_name":"openssl@1.1","desc":"TLS/SSL toolkit"}]}"#;
    let parsed = decode_formulae_list(sample).expect("envelope decodes");
    assert_eq!(parsed.len(), 1);
    assert_eq!(parsed[0].name, "openssl");
    assert_eq!(parsed[0].full_name.as_deref(), Some("openssl@1.1"));
    assert_eq!(parsed[0].desc.as_deref(), Some("TLS/SSL toolkit"));
}

#[test]
fn decode_refuses_text_that_is_not_json() {
    match decode_formulae_list("not json at all") {
        Err(BrewError::Decode(_)) => {}
        _ => panic!("expected a decode failure"),
    }
    match decode_formula_info("{") {
        Err(BrewError::Decode(_)) => {}
        _ => panic!("expected a decode failure"),
    }
}

#[test]
fn decode_refuses_missing_envelope_or_name() {
    match decode_formulae_list(r#"{"casks":[]}"#) {
        Err(BrewError::Decode(_)) => {}
        _ => panic!("expected a decode failure"),
    }
    match decode_formulae_list(r#"{"formulae":[{"desc":"nameless"}]}"#) {
        Err(BrewError::Decode(_)) => {}
        _ => panic!("expected a decode failure"),
    }
}

#[test]
fn decode_info_takes_the_first_formula_or_reports_none() {
    let sample = r#"{"formulae":[
        {"name":"wget","desc":"retriever","homepage":"https://www.gnu.org/software/wget/",
         "license":"GPL-3.0-or-later","dependencies":["openssl"],
         "installed":[{"version":"1.21"}],"versions":{"stable":"1.21"},
         "caveats":null},
        {"name":"other"}
    ]}"#;
    let info = decode_formula_info(sample).expect("info decodes");
    assert_eq!(info.name, "wget");
    assert_eq!(info.desc.as_deref(), Some("retriever"));
    assert_eq!(info.license.as_deref(), Some("GPL-3.0-or-later"));
    assert_eq!(info.dependencies, vec!["openssl".to_string()]);
    assert_eq!(info.installed.len(), 1);
    assert_eq!(info.installed[0].version, "1.21");
    assert!(info.versions.is_some());
    assert!(info.caveats.is_none());

    match decode_formula_info(r#"{"formulae":[]}"#) {
        Err(BrewError::NotFound) => {}
        _ => panic!("expected no entry"),
    }
}

#[test]
fn installed_names_come_one_per_non_blank_line() {
    let out = "git\nvim\n\n  \nwget";
    let list = parse_installed_names(out);
    let names: Vec<&str> = list.iter().map(|f| f.name.as_str()).collect();
    assert_eq!(names, vec!["git", "vim", "wget"]);
    assert!(list[0].desc.is_none());
    assert!(list[0].dependencies.is_empty());
}

#[test]
fn search_output_keeps_lines_verbatim_in_order() {
    let out = "git\n\ngitk\n";
    assert_eq!(
        parse_search_output(out),
        vec!["git".to_string(), "".to_string(), "gitk".to_string()]
    );
}

#[test]
fn available_output_is_trimmed_sorted_and_deduplicated() {
    let out = "  vim \nawscli\ngit\n\nawscli\n";
    assert_eq!(
        parse_available_output(out),
        vec!["awscli".to_string(), "git".to_string(), "vim".to_string()]
    );
}

#[test]
fn outdated_output_takes_the_first_token_of_each_line() {
    let out = "awscli (2.30.7) < 2.31.2\n git 2.43 < 2.44\n\n";
    assert_eq!(
        parse_outdated_output(out),
        vec!["awscli".to_string(), "git".to_string()]
    );
}

#[test]
fn filtering_keeps_matching_indices_in_original_order() {
    let names: Vec<String> = vec!["git".into(), "gitk".into(), "vim".into()];
    let filtered = compute_filtered_indices(&names, "git");
    assert_eq!(filtered, vec![0, 1]);
    let resolved: Vec<&str> = filtered.iter().map(|&i| names[i].as_str()).collect();
    assert_eq!(resolved, vec!["git", "gitk"]);
    // Clearing the filter restores all three indices in original order.
    let cleared = compute_filtered_indices(&names, "");
    assert_eq!(cleared, vec![0, 1, 2]);
}

#[test]
fn gateway_marker_constructs() {
    let _ = Brew::new();
    let b = Brew::new();
    let _ = b.clone();
}

#[test]
fn decode_refuses_malformed_installed_records() {
    // An installed entry that is not an object is malformed, not defaulted.
    match decode_formula_info(r#"{"formulae":[{"name":"wget","installed":[3]}]}"#) {
        Err(BrewError::Decode(_)) => {}
        _ => panic!("expected a decode failure"),
    }
    // A record without a version defaults to the empty string.
    let info =
        decode_formula_info(r#"{"formulae":[{"name":"wget","installed":[{}]}]}"#).expect("decodes");
    assert_eq!(info.installed.len(), 1);
    assert_eq!(info.installed[0].version, "");
}

#[test]
fn fallback_is_demanded_exactly_for_an_empty_plain_listing() {
    assert!(plain_listing_empty(&parse_installed_names("\n  \n")));
    assert!(!plain_listing_empty(&parse_installed_names("git\n")));
}
