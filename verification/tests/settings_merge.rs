//! Scenario tests for the settings merge engine, run against real serde_json.

use claude_hooks::settings::{merge_hooks_text, remove_hooks_text, SettingsError};

fn parse(text: &str) -> serde_json::Value {
    serde_json::from_str::<serde_json::Value>(text).unwrap()
}

#[test]
fn fresh_install_creates_document() {
    let out = merge_hooks_text(None, "{\"PreRun\":{\"cmd\":\"x\"}}").unwrap();
    assert_eq!(parse(&out), parse("{\"hooks\":{\"PreRun\":{\"cmd\":\"x\"}}}"));
}

#[test]
fn fresh_install_text_is_pretty_printed() {
    let out = merge_hooks_text(None, "{\"PreRun\":{\"cmd\":\"x\"}}").unwrap();
    let expected = serde_json::to_string_pretty(&parse(
        "{\"hooks\":{\"PreRun\":{\"cmd\":\"x\"}}}",
    ))
    .unwrap();
    assert_eq!(out, expected);
}

#[test]
fn merge_coexists_with_other_settings() {
    let existing = "{\"theme\":\"dark\",\"hooks\":{\"Other\":1}}";
    let out = merge_hooks_text(Some(existing), "{\"PreRun\":{\"cmd\":\"x\"}}").unwrap();
    assert_eq!(
        parse(&out),
        parse("{\"theme\":\"dark\",\"hooks\":{\"Other\":1,\"PreRun\":{\"cmd\":\"x\"}}}")
    );
}

#[test]
fn merge_overwrites_existing_event() {
    let existing = "{\"hooks\":{\"PreRun\":{\"cmd\":\"old\"}}}";
    let out = merge_hooks_text(Some(existing), "{\"PreRun\":{\"cmd\":\"new\"}}").unwrap();
    assert_eq!(parse(&out)["hooks"]["PreRun"]["cmd"], parse("\"new\""));
}

#[test]
fn merge_overwrites_shallowly() {
    let existing = "{\"hooks\":{\"PreRun\":{\"a\":1,\"b\":2}}}";
    let out = merge_hooks_text(Some(existing), "{\"PreRun\":{\"a\":9}}").unwrap();
    assert_eq!(parse(&out)["hooks"]["PreRun"], parse("{\"a\":9}"));
}

#[test]
fn remove_missing_event_is_harmless() {
    let existing = "{\"hooks\":{\"A\":1}}";
    let out = remove_hooks_text(existing, &vec!["B".to_string()]).unwrap();
    assert_eq!(parse(&out), parse(existing));
}

#[test]
fn corrupt_fragment_is_rejected() {
    let err = merge_hooks_text(Some("{}"), "{not json").unwrap_err();
    match &err {
        SettingsError::ParseFragment(_) => {}
        _ => panic!("wrong error kind"),
    }
    assert!(err.message().starts_with("Failed to parse hooks JSON: "));
}

#[test]
fn corrupt_existing_file_is_rejected() {
    let err = merge_hooks_text(Some("not json"), "{}").unwrap_err();
    match &err {
        SettingsError::ParseExistingSettings(_) => {}
        _ => panic!("wrong error kind"),
    }
    assert!(err
        .message()
        .starts_with("Failed to parse existing settings: "));
}

#[test]
fn corrupt_settings_rejected_on_removal() {
    let err = remove_hooks_text("[unclosed", &vec!["A".to_string()]).unwrap_err();
    match &err {
        SettingsError::ParseSettings(_) => {}
        _ => panic!("wrong error kind"),
    }
    assert!(err.message().starts_with("Failed to parse settings: "));
}

#[test]
fn merge_is_idempotent_on_text() {
    let existing = "{\"theme\":\"dark\",\"hooks\":{\"Other\":1}}";
    let fragment = "{\"PreRun\":{\"cmd\":\"x\"},\"Post\":[1,2]}";
    let once = merge_hooks_text(Some(existing), fragment).unwrap();
    let twice = merge_hooks_text(Some(&once), fragment).unwrap();
    assert_eq!(once, twice);
}

#[test]
fn remove_is_idempotent_on_text() {
    let existing = "{\"hooks\":{\"A\":1,\"B\":2},\"keep\":true}";
    let names = vec!["A".to_string()];
    let once = remove_hooks_text(existing, &names).unwrap();
    let twice = remove_hooks_text(&once, &names).unwrap();
    assert_eq!(once, twice);
    assert_eq!(parse(&once), parse("{\"hooks\":{\"B\":2},\"keep\":true}"));
}

#[test]
fn remove_preserves_unnamed_events() {
    let existing = "{\"hooks\":{\"A\":1,\"B\":{\"deep\":[true,null]}}}";
    let out = remove_hooks_text(existing, &vec!["A".to_string()]).unwrap();
    assert_eq!(parse(&out)["hooks"]["B"], parse("{\"deep\":[true,null]}"));
    assert!(parse(&out)["hooks"].get("A").is_none());
}

#[test]
fn merge_then_remove_deletes_for_good() {
    let existing = "{\"hooks\":{\"A\":1,\"B\":2}}";
    let merged = merge_hooks_text(Some(existing), "{\"A\":9,\"C\":3}").unwrap();
    let out = remove_hooks_text(&merged, &vec!["A".to_string(), "C".to_string()]).unwrap();
    assert_eq!(parse(&out)["hooks"], parse("{\"B\":2}"));
}

#[test]
fn merge_replaces_non_object_root() {
    let out = merge_hooks_text(Some("[1,2,3]"), "{\"PreRun\":1}").unwrap();
    assert_eq!(parse(&out), parse("{\"hooks\":{\"PreRun\":1}}"));
}

#[test]
fn merge_empty_fragment_still_creates_section() {
    let out = merge_hooks_text(Some("{\"a\":1}"), "{}").unwrap();
    assert_eq!(parse(&out), parse("{\"a\":1,\"hooks\":{}}"));
}

#[test]
fn non_object_fragment_is_a_no_op_merge() {
    let out = merge_hooks_text(Some("{\"a\":1}"), "5").unwrap();
    assert_eq!(parse(&out), parse("{\"a\":1,\"hooks\":{}}"));
}

#[test]
fn non_object_hooks_entry_is_left_in_place() {
    let out = merge_hooks_text(Some("{\"hooks\":5}"), "{\"X\":1}").unwrap();
    assert_eq!(parse(&out), parse("{\"hooks\":5}"));
}

#[test]
fn payloads_survive_a_merge_untouched() {
    let existing = "{\"pi\":3.25,\"s\":\"a\\\"b\",\"neg\":-7,\"big\":18446744073709551615}";
    let out = merge_hooks_text(Some(existing), "{\"E\":null}").unwrap();
    let v = parse(&out);
    assert_eq!(v["pi"], parse("3.25"));
    assert_eq!(v["s"], parse("\"a\\\"b\""));
    assert_eq!(v["neg"], parse("-7"));
    assert_eq!(v["big"], parse("18446744073709551615"));
}

#[test]
fn duplicate_removal_names_are_harmless() {
    let existing = "{\"hooks\":{\"A\":1,\"B\":2}}";
    let out = remove_hooks_text(existing, &vec!["A".to_string(), "A".to_string()]).unwrap();
    assert_eq!(parse(&out), parse("{\"hooks\":{\"B\":2}}"));
}
