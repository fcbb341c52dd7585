use std::collections::HashSet;

use rust_autossh::commit::{
    commit_edited_connection, commit_global, commit_new_connection, connection_details,
    delete_marked_connections, import_candidates, import_ssh_hosts, selection_after_delete,
    set_enabled, settle_toggle, toggle_connection, CommitRefusal, ImportTally, ToggleOutcome,
    PLACEHOLDER_FORWARD,
};
use rust_autossh::config::{
    ConnectionConfig, ForwardConfig, ForwardMode, KeepaliveConfig, RetryConfig,
};
use rust_autossh::modal::{AddDialogState, CandidateConnection, EditableForward, GlobalGroup};
use rust_autossh::ssh_config::SshHostEntry;

fn conn(name: &str) -> ConnectionConfig {
    ConnectionConfig {
        name: name.into(),
        description: None,
        host: Some(format!("{name}.example")),
        user: None,
        password: None,
        port: None,
        enabled: true,
        ssh_path: None,
        extra_args: Vec::new(),
        forwards: vec![ForwardConfig {
            enabled: true,
            mode: ForwardMode::Local,
            forward: "8080:127.0.0.1:8080".into(),
            description: None,
        }],
    }
}

fn dialog(name: &str) -> AddDialogState {
    AddDialogState {
        name: format!(" {name} "),
        host: " h.example ".into(),
        user: "  ".into(),
        port: "2202".into(),
        forwards: vec![EditableForward {
            enabled: false,
            mode: ForwardMode::Dynamic,
            forward: "1080".into(),
            description: " ".into(),
        }],
        ..Default::default()
    }
}

#[test]
fn adding_a_connection_stores_trimmed_fields() {
    let mut conns = vec![conn("home")];
    assert_eq!(commit_new_connection(&mut conns, &dialog("work")), Ok(1));
    let c = &conns[1];
    assert_eq!(c.name, "work");
    assert_eq!(c.host.as_deref(), Some("h.example"));
    assert_eq!(c.user, None);
    assert_eq!(c.port, Some(2202));
    assert!(c.enabled);
    assert_eq!(c.forwards.len(), 1);
    assert_eq!(c.forwards[0].mode, ForwardMode::Dynamic);
    assert!(!c.forwards[0].enabled);
    assert_eq!(c.forwards[0].description, None);
}

#[test]
fn adding_refuses_taken_names_and_bad_ports() {
    let mut conns = vec![conn("home")];
    assert_eq!(
        commit_new_connection(&mut conns, &dialog("home")),
        Err(CommitRefusal::NameTaken("home".into()))
    );
    let mut bad = dialog("work");
    bad.port = "99999".into();
    assert_eq!(
        commit_new_connection(&mut conns, &bad),
        Err(CommitRefusal::BadPort("port must be an integer from 1 to 65535"))
    );
    assert_eq!(conns.len(), 1);
}

#[test]
fn editing_overwrites_fields_but_keeps_runtime_settings() {
    let mut conns = vec![conn("home"), conn("backup")];
    conns[0].enabled = false;
    conns[0].extra_args = vec!["-v".into()];
    assert_eq!(commit_edited_connection(&mut conns, 0, &dialog("home")), Ok(()));
    assert_eq!(conns[0].name, "home");
    assert_eq!(conns[0].port, Some(2202));
    assert!(!conns[0].enabled);
    assert_eq!(conns[0].extra_args, vec!["-v".to_string()]);
    assert_eq!(conns[1].name, "backup");
    assert_eq!(
        commit_edited_connection(&mut conns, 0, &dialog("backup")),
        Err(CommitRefusal::NameTaken("backup".into()))
    );
    assert_eq!(
        commit_edited_connection(&mut conns, 5, &dialog("x")),
        Err(CommitRefusal::Vanished)
    );
}

#[test]
fn global_values_replace_one_field() {
    let mut ka = KeepaliveConfig::default();
    let mut retry = RetryConfig::default();
    assert_eq!(commit_global(&mut ka, &mut retry, GlobalGroup::RetryMaximum, " 120 "), Some(120));
    assert_eq!(retry.maximum_seconds, 120);
    assert_eq!(retry.initial_seconds, 1);
    assert_eq!(commit_global(&mut ka, &mut retry, GlobalGroup::KeepaliveCount, "4294967301"), Some(4294967301));
    assert_eq!(ka.count_max, 5, "the count keeps its low 32 bits");
    assert_eq!(commit_global(&mut ka, &mut retry, GlobalGroup::KeepaliveInterval, "x"), None);
    assert_eq!(ka.interval, 30);
}

fn candidate(name: &str, selected: bool) -> CandidateConnection {
    CandidateConnection {
        name: name.into(),
        host: format!("{name}.example"),
        forwards: conn(name).forwards,
        selected,
        duplicate: false,
    }
}

#[test]
fn import_adds_picked_new_names_and_counts_duplicates() {
    let mut conns = vec![conn("home")];
    let tally = import_candidates(
        &mut conns,
        vec![candidate("home", true), candidate("a", true), candidate("b", false), candidate("c", true)],
    );
    assert_eq!(tally, ImportTally { imported: 2, skipped: 1, last: Some(2) });
    let names: Vec<&str> = conns.iter().map(|c| c.name.as_str()).collect();
    assert_eq!(names, vec!["home", "a", "c"]);
    assert_eq!(conns[1].host.as_deref(), Some("a.example"));
    let none = import_candidates(&mut conns, vec![candidate("z", false)]);
    assert_eq!(none, ImportTally { imported: 0, skipped: 0, last: None });
}

#[test]
fn ssh_import_adds_placeholder_forward() {
    let mut conns = vec![conn("home")];
    let hosts = vec![
        SshHostEntry { alias: "c005".into(), destination: "alice@c005:22".into(), port: 22, selected: true, duplicate: false },
        SshHostEntry { alias: "home".into(), destination: "home:22".into(), port: 22, selected: false, duplicate: true },
        SshHostEntry { alias: "c006".into(), destination: "c006:22".into(), port: 22, selected: false, duplicate: false },
    ];
    let tally = import_ssh_hosts(&mut conns, hosts);
    assert_eq!(tally, ImportTally { imported: 1, skipped: 1, last: Some(1) });
    assert_eq!(conns[1].name, "c005");
    assert_eq!(conns[1].host.as_deref(), Some("alice@c005:22"));
    assert_eq!(conns[1].forwards.len(), 1);
    assert_eq!(conns[1].forwards[0].forward, PLACEHOLDER_FORWARD);
    assert_eq!(conns[1].forwards[0].mode, ForwardMode::Remote);
}

#[test]
fn deleting_marked_connections_and_clamping_selection() {
    let mut conns = vec![conn("a"), conn("b"), conn("c")];
    let mut marked: HashSet<usize> = [0, 2, 7].into_iter().collect();
    let removed = delete_marked_connections(&mut conns, &mut marked);
    assert_eq!(removed, 2);
    assert_eq!(conns.len(), 1);
    assert_eq!(conns[0].name, "b");
    assert!(marked.is_empty());
    assert_eq!(selection_after_delete(2, 1), 0);
    assert_eq!(selection_after_delete(0, 1), 0);
    assert_eq!(selection_after_delete(3, 0), 0);
    assert_eq!(selection_after_delete(1, 4), 1);
}

#[test]
fn toggle_starts_inactive_rows_and_stops_running_ones() {
    let mut conns = vec![conn("a")];
    assert_eq!(toggle_connection(&mut conns, 0, false), Some(true));
    assert!(conns[0].enabled);
    assert_eq!(toggle_connection(&mut conns, 0, true), Some(false));
    assert!(!conns[0].enabled);
    assert_eq!(toggle_connection(&mut conns, 0, true), Some(true));
    assert_eq!(toggle_connection(&mut conns, 3, true), None);
    set_enabled(&mut conns, 0, false);
    assert!(!conns[0].enabled);
}

#[test]
fn row_details_show_port_and_description() {
    let mut c = conn("home");
    c.user = Some("alice".into());
    c.port = Some(2202);
    c.description = Some("gateway".into());
    assert_eq!(connection_details(&c), "alice@home.example:2202  ·  gateway");
    c.description = Some("  ".into());
    c.port = None;
    assert_eq!(connection_details(&c), "alice@home.example");
}

#[test]
fn global_rows_show_units_except_for_the_count() {
    let ka = KeepaliveConfig::default();
    let retry = RetryConfig::default();
    assert_eq!(
        rust_autossh::commit::global_texts(&ka, &retry, GlobalGroup::KeepaliveInterval),
        ("30 s".to_string(), "30".to_string())
    );
    assert_eq!(
        rust_autossh::commit::global_texts(&ka, &retry, GlobalGroup::KeepaliveCount),
        ("3".to_string(), "3".to_string())
    );
}

#[test]
fn failed_toggle_save_puts_the_row_back_and_keeps_dirty() {
    let mut conns = vec![conn("a"), conn("b")];
    conns[1].enabled = false;
    let was_enabled = conns[1].enabled;
    let start = toggle_connection(&mut conns, 1, true).unwrap();
    assert!(start);
    assert!(conns[1].enabled);
    let mut dirty = true;
    let outcome = settle_toggle(&mut conns, 1, was_enabled, start, true, false, &mut dirty);
    assert_eq!(outcome, ToggleOutcome::SaveFailed);
    assert!(!conns[1].enabled);
    assert!(conns[0].enabled);
    assert!(dirty);
}

#[test]
fn saved_toggle_clears_dirty_and_launches_a_stopped_supervisor() {
    let mut conns = vec![conn("a")];
    let mut dirty = true;
    let outcome = settle_toggle(&mut conns, 0, true, true, false, true, &mut dirty);
    assert_eq!(outcome, ToggleOutcome::Starting { launch_supervisor: true });
    assert!(!dirty);
    assert!(conns[0].enabled);
    let outcome = settle_toggle(&mut conns, 0, true, true, true, true, &mut dirty);
    assert_eq!(outcome, ToggleOutcome::Starting { launch_supervisor: false });
    let outcome = settle_toggle(&mut conns, 0, true, false, true, true, &mut dirty);
    assert_eq!(outcome, ToggleOutcome::Stopping);
}
