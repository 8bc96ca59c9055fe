//! Tests of the status-marker commands and of the marker codec, and of
//! payload decoding failures.

use tab_rename::commands::{CmdError, Effect};
use tab_rename::plugin::{PipeOutcome, PluginEvent, State};
use tab_rename::snapshot::{PaneEntry, PaneGroup, PaneSnapshot, TabEntry};
use tab_rename::status::{extract_base_name, extract_status};

fn state_with_tab_name(name: &str) -> State {
    let mut state = State::new();
    state.update(PluginEvent::TabUpdate(vec![TabEntry {
        position: 0,
        name: name.to_string(),
    }]));
    state.update(PluginEvent::PaneUpdate(PaneSnapshot {
        groups: vec![PaneGroup { position: 0, panes: vec![PaneEntry { id: 7, is_plugin: false }] }],
    }));
    state
}

fn status_payload(pane_id: &str, action: &str, emoji: Option<&str>) -> Option<String> {
    let emoji_member = match emoji {
        Some(e) => format!(",\"emoji\":\"{}\"", e),
        None => String::new(),
    };
    Some(format!(
        "{{\"pane_id\":\"{}\",\"action\":\"{}\"{}}}",
        pane_id, action, emoji_member
    ))
}

fn handled(state: &State, payload: &Option<String>) -> Result<Effect, CmdError> {
    match state.pipe("tab-status", payload) {
        PipeOutcome::Handled(r) => r,
        PipeOutcome::Ignored => panic!("tab-status must be handled"),
    }
}

#[test]
fn clear_status_strips_the_marker() {
    let state = state_with_tab_name("\u{1f916} Working");
    match handled(&state, &status_payload("7", "clear_status", None)) {
        Ok(Effect::Rename { tab_id, name }) => {
            assert_eq!(tab_id, 1);
            assert_eq!(name, "Working");
        }
        _ => panic!("expected a rename instruction"),
    }
}

#[test]
fn get_status_on_plain_name_emits_empty() {
    let state = state_with_tab_name("Working");
    match handled(&state, &status_payload("7", "get_status", None)) {
        Ok(Effect::Output { text }) => assert_eq!(text, ""),
        _ => panic!("expected a query result"),
    }
}

#[test]
fn get_status_on_decorated_name_emits_marker() {
    let state = state_with_tab_name("\u{1f916} Working");
    match handled(&state, &status_payload("7", "get_status", None)) {
        Ok(Effect::Output { text }) => assert_eq!(text, "\u{1f916}"),
        _ => panic!("expected a query result"),
    }
}

#[test]
fn get_name_emits_base_name() {
    let state = state_with_tab_name("\u{1f916} Working");
    match handled(&state, &status_payload("7", "get_name", None)) {
        Ok(Effect::Output { text }) => assert_eq!(text, "Working"),
        _ => panic!("expected a query result"),
    }
}

#[test]
fn set_status_with_empty_emoji_is_refused() {
    let state = state_with_tab_name("Working");
    match handled(&state, &status_payload("7", "set_status", Some(""))) {
        Err(e) => assert_eq!(e, CmdError::MissingEmoji),
        Ok(_) => panic!("an empty marker must be refused"),
    }
}

#[test]
fn set_status_decorates_the_base_name() {
    let state = state_with_tab_name("Working");
    match handled(&state, &status_payload("7", "set_status", Some("\u{1f916}"))) {
        Ok(Effect::Rename { tab_id, name }) => {
            assert_eq!(tab_id, 1);
            assert_eq!(name, "\u{1f916} Working");
        }
        _ => panic!("expected a rename instruction"),
    }
}

#[test]
fn set_status_replaces_an_existing_marker() {
    let state = state_with_tab_name("\u{1f916} Working");
    match handled(&state, &status_payload("7", "set_status", Some("\u{2705}"))) {
        Ok(Effect::Rename { name, .. }) => assert_eq!(name, "\u{2705} Working"),
        _ => panic!("expected a rename instruction"),
    }
}

#[test]
fn status_for_unknown_pane_reports_unknown_pane() {
    let state = state_with_tab_name("Working");
    match handled(&state, &status_payload("999", "get_status", None)) {
        Err(e) => assert_eq!(e, CmdError::UnknownPane),
        Ok(_) => panic!("pane 999 is not indexed"),
    }
}

#[test]
fn unknown_action_is_refused() {
    let state = state_with_tab_name("Working");
    match handled(&state, &status_payload("7", "toggle_status", None)) {
        Err(e) => assert_eq!(e, CmdError::InvalidAction),
        Ok(_) => panic!("an unknown action must be refused"),
    }
}

#[test]
fn non_numeric_pane_id_is_refused() {
    let state = state_with_tab_name("Working");
    for bad in ["abc", "-1", "4294967296", "", "+"] {
        match handled(&state, &status_payload(bad, "get_status", None)) {
            Err(e) => assert_eq!(e, CmdError::InvalidPaneId),
            Ok(_) => panic!("pane id {:?} must be refused", bad),
        }
    }
}

#[test]
fn largest_pane_id_parses_but_is_unknown() {
    let state = state_with_tab_name("Working");
    match handled(&state, &status_payload("4294967295", "get_status", None)) {
        Err(e) => assert_eq!(e, CmdError::UnknownPane),
        Ok(_) => panic!("pane 4294967295 is not indexed"),
    }
}

#[test]
fn leading_zeros_parse_to_the_same_pane() {
    let state = state_with_tab_name("Working");
    match handled(&state, &status_payload("007", "get_name", None)) {
        Ok(Effect::Output { text }) => assert_eq!(text, "Working"),
        _ => panic!("007 parses as pane 7"),
    }
}

#[test]
fn pane_id_with_plus_sign_parses() {
    let state = state_with_tab_name("Working");
    match handled(&state, &status_payload("+7", "get_name", None)) {
        Ok(Effect::Output { text }) => assert_eq!(text, "Working"),
        _ => panic!("+7 parses as pane 7"),
    }
}

#[test]
fn missing_payload_is_reported() {
    let state = state_with_tab_name("Working");
    match handled(&state, &None) {
        Err(e) => assert_eq!(e, CmdError::MissingPayload),
        Ok(_) => panic!("a missing payload must be refused"),
    }
}

#[test]
fn malformed_rename_payload_is_reported() {
    let state = state_with_tab_name("Working");
    let missing_name = Some(String::from("{\"pane_id\":\"7\"}"));
    match state.pipe("tab-rename", &missing_name) {
        PipeOutcome::Handled(Err(e)) => assert_eq!(e, CmdError::MalformedPayload),
        _ => panic!("a payload without a name member must be refused"),
    }
}

#[test]
fn malformed_status_payload_is_reported() {
    let state = state_with_tab_name("Working");
    for bad in ["not json", "[1,2]", "{\"pane_id\":7,\"action\":\"get_status\"}", "{\"action\":\"get_status\"}"] {
        match handled(&state, &Some(bad.to_string())) {
            Err(e) => assert_eq!(e, CmdError::MalformedPayload),
            Ok(_) => panic!("payload {:?} must be refused", bad),
        }
    }
}

#[test]
fn non_string_emoji_member_is_malformed() {
    let state = state_with_tab_name("Working");
    let bad = Some(String::from(
        "{\"pane_id\":\"7\",\"action\":\"set_status\",\"emoji\":5}",
    ));
    match handled(&state, &bad) {
        Err(e) => assert_eq!(e, CmdError::MalformedPayload),
        Ok(_) => panic!("a non-string emoji member must be refused"),
    }
}

#[test]
fn missing_emoji_member_defaults_to_empty() {
    let state = state_with_tab_name("Working");
    match handled(&state, &status_payload("7", "set_status", None)) {
        Err(e) => assert_eq!(e, CmdError::MissingEmoji),
        Ok(_) => panic!("a missing emoji member means empty marker text"),
    }
}

#[test]
fn marker_codec_round_trip_on_concrete_names() {
    assert_eq!(extract_status("\u{1f916} Working"), "\u{1f916}");
    assert_eq!(extract_base_name("\u{1f916} Working"), "Working");
    assert_eq!(extract_status("x Working"), "x");
    assert_eq!(extract_base_name("x Working"), "Working");
}

#[test]
fn plain_names_decode_to_themselves() {
    assert_eq!(extract_status("Working"), "");
    assert_eq!(extract_base_name("Working"), "Working");
    assert_eq!(extract_status(""), "");
    assert_eq!(extract_base_name(""), "");
    assert_eq!(extract_status("a"), "");
    assert_eq!(extract_base_name("a"), "a");
    assert_eq!(extract_status("ab cd"), "");
    assert_eq!(extract_base_name("ab cd"), "ab cd");
}
