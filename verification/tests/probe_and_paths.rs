//! Tests for the interpreter probe decisions, the path resolver and the
//! result envelopes.

use claude_hooks::probe::{
    choose_python_command, dedup_merge, python_base_dirs, python_exact_candidates,
    python_user_roots, select_flagged, windows_store_probe,
};
use claude_hooks::resources::{
    dot_config_dir, first_existing, resource_candidates, resource_not_found_message,
};
use claude_hooks::{FileResult, InstallResult};

#[test]
fn python_in_path_wins() {
    let r = choose_python_command(true, false, vec![]);
    assert_eq!(r.command, "python");
    assert!(r.found_in_path);
    assert!(r.installation_paths.is_empty());
}

#[test]
fn python3_in_path_is_second_choice() {
    let r = choose_python_command(false, true, vec!["C:\\Python311".to_string()]);
    assert_eq!(r.command, "python3");
    assert!(r.found_in_path);
    assert!(r.installation_paths.is_empty());
}

#[test]
fn discoveries_without_path_report_python() {
    let r = choose_python_command(false, false, vec!["C:\\Python311".to_string()]);
    assert_eq!(r.command, "python");
    assert!(!r.found_in_path);
    assert_eq!(r.installation_paths, vec!["C:\\Python311".to_string()]);
}

#[test]
fn nothing_found_reports_python3() {
    let r = choose_python_command(false, false, vec![]);
    assert_eq!(r.command, "python3");
    assert!(!r.found_in_path);
    assert!(r.installation_paths.is_empty());
}

#[test]
fn exact_candidates_cover_known_roots() {
    let c = python_exact_candidates();
    assert_eq!(c.len(), 15);
    assert_eq!(c[0], "C:\\Python39");
    assert_eq!(c[4], "C:\\Python313");
    assert_eq!(c[5], "C:\\Program Files\\Python39");
    assert_eq!(c[14], "C:\\Program Files (x86)\\Python313");
}

#[test]
fn base_dirs_are_the_three_roots() {
    let b = python_base_dirs();
    assert_eq!(
        b,
        vec![
            "C:\\".to_string(),
            "C:\\Program Files".to_string(),
            "C:\\Program Files (x86)".to_string()
        ]
    );
}

#[test]
fn user_roots_follow_the_environment() {
    let r = python_user_roots(Some("C:\\U\\l"), Some("C:\\U\\r"), Some("C:\\U"));
    assert_eq!(
        r,
        vec![
            "C:\\U\\l\\Programs\\Python".to_string(),
            "C:\\U\\r\\Python".to_string(),
            "C:\\U\\AppData\\Local\\Programs\\Python".to_string()
        ]
    );
    let partial = python_user_roots(None, Some("C:\\U\\r"), None);
    assert_eq!(partial, vec!["C:\\U\\r\\Python".to_string()]);
    assert!(python_user_roots(None, None, None).is_empty());
}

#[test]
fn store_probe_path_is_built_from_local_appdata() {
    assert_eq!(
        windows_store_probe("C:\\U\\l"),
        "C:\\U\\l\\Microsoft\\WindowsApps\\python.exe"
    );
}

#[test]
fn select_flagged_keeps_order() {
    let items = vec!["a".to_string(), "b".to_string(), "c".to_string()];
    let flags = vec![true, false, true];
    assert_eq!(select_flagged(&items, &flags), vec!["a".to_string(), "c".to_string()]);
}

#[test]
fn dedup_merge_keeps_first_seen_order() {
    let mut acc = vec!["x".to_string(), "y".to_string()];
    dedup_merge(
        &mut acc,
        vec!["y".to_string(), "z".to_string(), "x".to_string(), "z".to_string()],
    );
    assert_eq!(acc, vec!["x".to_string(), "y".to_string(), "z".to_string()]);
}

#[test]
fn config_dir_hangs_off_home() {
    assert_eq!(dot_config_dir("/home/u", "app"), "/home/u/.app");
    assert_eq!(dot_config_dir("", "x"), "/.x");
}

#[test]
fn resource_candidates_in_development() {
    let c = resource_candidates(true, "/w", Some("/p"), "/res", "t.py");
    assert_eq!(
        c,
        vec![
            "/w/public/t.py".to_string(),
            "/p/public/t.py".to_string(),
            "/res/public/t.py".to_string(),
            "/res/_up_/public/t.py".to_string(),
            "/res/t.py".to_string()
        ]
    );
}

#[test]
fn resource_candidates_in_production() {
    let c = resource_candidates(false, "/w", Some("/p"), "/res", "t.py");
    assert_eq!(
        c,
        vec![
            "/res/public/t.py".to_string(),
            "/res/_up_/public/t.py".to_string(),
            "/res/t.py".to_string()
        ]
    );
}

#[test]
fn first_existing_picks_the_earliest() {
    let c = vec!["a".to_string(), "b".to_string(), "c".to_string()];
    assert_eq!(first_existing(&c, &vec![false, true, true]), Some(1));
    assert_eq!(first_existing(&c, &vec![true, false, false]), Some(0));
    assert_eq!(first_existing(&c, &vec![false, false, false]), None);
}

#[test]
fn not_found_message_lists_every_candidate() {
    let c = vec!["/a".to_string(), "/b".to_string()];
    assert_eq!(
        resource_not_found_message(&c),
        "Resource not found. Tried paths:\n/a\n/b"
    );
    assert_eq!(
        resource_not_found_message(&vec![]),
        "Resource not found. Tried paths:\n"
    );
}

#[test]
fn result_envelopes_carry_their_payloads() {
    let fr = FileResult::ok("text".to_string());
    assert!(fr.success && fr.content.as_deref() == Some("text") && fr.error.is_none());
    let fe = FileResult::err("nope".to_string());
    assert!(!fe.success && fe.content.is_none() && fe.error.as_deref() == Some("nope"));
    let ir = InstallResult::ok("done".to_string());
    assert!(ir.success && ir.message == "done" && ir.error.is_none());
    let im = InstallResult::merged_ok();
    assert!(im.success && im.message == "Hooks merged successfully" && im.error.is_none());
    let irm = InstallResult::removed_ok();
    assert!(irm.success && irm.message == "Hooks removed successfully" && irm.error.is_none());
    let ie = InstallResult::err("boom".to_string());
    assert!(!ie.success && ie.message.is_empty() && ie.error.as_deref() == Some("boom"));
}
