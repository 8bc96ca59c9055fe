//! Tests of the index builder: rebuilds from snapshot pairs, plugin
//! exclusion, staleness, and the 0-based to 1-based translation.

use tab_rename::commands::{CmdError, Effect};
use tab_rename::pane_index::rebuild;
use tab_rename::plugin::{PipeOutcome, PluginEvent, State};
use tab_rename::snapshot::{PaneEntry, PaneGroup, PaneSnapshot, TabEntry};

fn tab(position: usize, name: &str) -> TabEntry {
    TabEntry { position, name: name.to_string() }
}

fn pane(id: u32, is_plugin: bool) -> PaneEntry {
    PaneEntry { id, is_plugin }
}

fn manifest(groups: Vec<(usize, Vec<PaneEntry>)>) -> PaneSnapshot {
    PaneSnapshot {
        groups: groups
            .into_iter()
            .map(|(position, panes)| PaneGroup { position, panes })
            .collect(),
    }
}

#[test]
fn rebuild_single_pane() {
    let tabs = vec![tab(0, "shell")];
    let panes = manifest(vec![(0, vec![pane(7, false)])]);
    let idx = rebuild(&tabs, &panes);
    match idx.get(7) {
        Some((display_index, name)) => {
            assert_eq!(display_index, 0);
            assert_eq!(name, "shell");
        }
        None => panic!("pane 7 must be indexed"),
    }
}

#[test]
fn rebuild_then_rename_issues_one_based_target() {
    let mut state = State::new();
    state.update(PluginEvent::TabUpdate(vec![tab(0, "shell")]));
    state.update(PluginEvent::PaneUpdate(manifest(vec![(0, vec![pane(7, false)])])));
    let payload = Some(String::from("{\"pane_id\":\"7\",\"name\":\"build\"}"));
    match state.pipe("tab-rename", &payload) {
        PipeOutcome::Handled(Ok(Effect::Rename { tab_id, name })) => {
            assert_eq!(tab_id, 1);
            assert_eq!(name, "build");
        }
        _ => panic!("expected a rename instruction"),
    }
}

#[test]
fn plugin_panes_are_excluded() {
    let tabs = vec![tab(0, "shell")];
    let panes = manifest(vec![(0, vec![pane(7, true), pane(8, false)])]);
    let idx = rebuild(&tabs, &panes);
    assert!(idx.get(7).is_none());
    assert!(idx.get(8).is_some());
}

#[test]
fn absent_group_is_skipped_not_an_error() {
    let tabs = vec![tab(0, "shell"), tab(5, "logs")];
    let panes = manifest(vec![(0, vec![pane(1, false)])]);
    let idx = rebuild(&tabs, &panes);
    assert!(idx.get(1).is_some());
    assert!(idx.get(2).is_none());
}

#[test]
fn rebuild_replaces_stale_entries() {
    let mut state = State::new();
    state.update(PluginEvent::TabUpdate(vec![tab(0, "shell")]));
    state.update(PluginEvent::PaneUpdate(manifest(vec![(0, vec![pane(7, false)])])));
    assert!(state.pane_to_tab.get(7).is_some());
    state.update(PluginEvent::PaneUpdate(manifest(vec![(0, vec![pane(9, false)])])));
    assert!(state.pane_to_tab.get(7).is_none());
    assert!(state.pane_to_tab.get(9).is_some());
}

#[test]
fn second_tab_gets_display_index_one() {
    let tabs = vec![tab(0, "first"), tab(1, "second")];
    let panes = manifest(vec![(0, vec![pane(1, false)]), (1, vec![pane(2, false)])]);
    let idx = rebuild(&tabs, &panes);
    match idx.get(2) {
        Some((display_index, name)) => {
            assert_eq!(display_index, 1);
            assert_eq!(name, "second");
        }
        None => panic!("pane 2 must be indexed"),
    }
}

#[test]
fn rename_on_second_tab_targets_identifier_two() {
    let mut state = State::new();
    state.update(PluginEvent::TabUpdate(vec![tab(0, "first"), tab(1, "second")]));
    state.update(PluginEvent::PaneUpdate(manifest(vec![
        (0, vec![pane(1, false)]),
        (1, vec![pane(2, false)]),
    ])));
    let payload = Some(String::from("{\"pane_id\":\"2\",\"name\":\"deploy\"}"));
    match state.pipe("tab-rename", &payload) {
        PipeOutcome::Handled(Ok(Effect::Rename { tab_id, name })) => {
            assert_eq!(tab_id, 2);
            assert_eq!(name, "deploy");
        }
        _ => panic!("expected a rename instruction"),
    }
}

#[test]
fn duplicate_pane_id_last_tab_wins() {
    let tabs = vec![tab(0, "first"), tab(1, "second")];
    let panes = manifest(vec![(0, vec![pane(5, false)]), (1, vec![pane(5, false)])]);
    let idx = rebuild(&tabs, &panes);
    match idx.get(5) {
        Some((display_index, name)) => {
            assert_eq!(display_index, 1);
            assert_eq!(name, "second");
        }
        None => panic!("pane 5 must be indexed"),
    }
}

#[test]
fn empty_snapshots_give_empty_index() {
    let idx = rebuild(&Vec::new(), &PaneSnapshot { groups: Vec::new() });
    assert!(idx.get(0).is_none());
}

#[test]
fn other_events_change_nothing() {
    let mut state = State::new();
    state.update(PluginEvent::TabUpdate(vec![tab(0, "shell")]));
    state.update(PluginEvent::PaneUpdate(manifest(vec![(0, vec![pane(7, false)])])));
    state.update(PluginEvent::Other);
    assert!(state.pane_to_tab.get(7).is_some());
}

#[test]
fn unknown_pipe_name_is_ignored() {
    let state = State::new();
    let payload = Some(String::from("{\"pane_id\":\"7\",\"name\":\"build\"}"));
    assert!(matches!(state.pipe("tab-close", &payload), PipeOutcome::Ignored));
}

#[test]
fn rename_unknown_pane_reports_unknown_pane() {
    let mut state = State::new();
    state.update(PluginEvent::TabUpdate(vec![tab(0, "shell")]));
    state.update(PluginEvent::PaneUpdate(manifest(vec![(0, vec![pane(7, false)])])));
    let payload = Some(String::from("{\"pane_id\":\"999\",\"name\":\"build\"}"));
    match state.pipe("tab-rename", &payload) {
        PipeOutcome::Handled(Err(e)) => assert_eq!(e, CmdError::UnknownPane),
        _ => panic!("expected the unknown-pane error"),
    }
}
