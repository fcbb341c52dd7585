use rust_autossh::config::{Config, ConnectionConfig, ForwardConfig, ForwardMode};
use rust_autossh::modal::{
    apply_edit_dialog, can_commit, can_test, candidates_all_picked, candidates_importable,
    checked_count, delete_checked_forwards, field_into_option, field_into_port, forward_hint,
    forward_mode_label, name_taken, pick_all_candidates, poll_test, push_draft_forward,
    state_from_connection, AddDialogState, CloseAction, EditDialogState, EditableForward,
    GlobalGroup, ImportDialogState, ImportStatus, SshImportState, SshImportStatus, TestStatus,
};
use rust_autossh::ssh_config::SshHostEntry;

fn make_connection(name: &str, host: &str, forward: &str) -> ConnectionConfig {
    ConnectionConfig {
        name: name.into(),
        description: None,
        host: Some(host.into()),
        user: None,
        password: None,
        port: None,
        enabled: true,
        ssh_path: None,
        extra_args: Vec::new(),
        forwards: vec![ForwardConfig {
            enabled: true,
            mode: ForwardMode::Local,
            forward: forward.into(),
            description: None,
        }],
    }
}

fn import_dialog(path: &str) -> ImportDialogState {
    ImportDialogState {
        path_input: path.to_string(),
        status: ImportStatus::Idle,
        candidates: Vec::new(),
        close: CloseAction::Open,
    }
}

#[test]
fn modal_import_dialog_flags_duplicates_and_unselects_them() {
    let src = Config {
        log: Default::default(),
        keepalive: Default::default(),
        retry: Default::default(),
        connections: vec![
            make_connection("home", "c005", "8080:127.0.0.1:8080"),
            make_connection("backup", "c006", "10022:127.0.0.1:22"),
        ],
    };
    let mut dialog = import_dialog("/tmp/source.toml");
    let existing = vec!["home".to_string()];
    dialog.try_load(&existing, Ok(src));

    assert_eq!(dialog.candidates.len(), 2);
    match &dialog.status {
        ImportStatus::Loaded(_) => {}
        _ => panic!("expected Loaded status, got {:?}", dialog.status),
    }
    let home = dialog
        .candidates
        .iter()
        .find(|c| c.name == "home")
        .expect("home should be present");
    assert!(home.duplicate, "home collides with existing");
    assert!(!home.selected, "duplicates default to unselected");
    let backup = dialog
        .candidates
        .iter()
        .find(|c| c.name == "backup")
        .expect("backup should be present");
    assert!(!backup.duplicate);
    assert!(backup.selected, "new candidates default to selected");
}

#[test]
fn modal_import_dialog_surfaces_load_errors() {
    let mut dialog = import_dialog("/nonexistent/path/__does_not_exist.toml");
    dialog.try_load(&[], Err("cannot read config".to_string()));
    match &dialog.status {
        ImportStatus::Failed(_) => {}
        other => panic!("expected Failed status, got {other:?}"),
    }
    assert!(dialog.candidates.is_empty());
}

#[test]
fn import_dialog_rejects_blank_path_without_loading() {
    let mut dialog = import_dialog("   ");
    assert_eq!(dialog.load_target(), None);
    dialog.try_load(&[], Ok(Config::default()));
    match &dialog.status {
        ImportStatus::Failed(m) => assert_eq!(m, "path is empty"),
        other => panic!("expected Failed status, got {other:?}"),
    }
    let dialog = import_dialog("  /tmp/x.toml ");
    assert_eq!(dialog.load_target().as_deref(), Some("/tmp/x.toml"));
}

#[test]
fn import_loaded_path_and_destination_are_recorded() {
    let mut conn = make_connection("home", "c005", "8080:127.0.0.1:8080");
    conn.user = Some("alice".into());
    let src = Config { connections: vec![conn], ..Config::default() };
    let mut dialog = import_dialog(" /tmp/a.toml ");
    dialog.try_load(&[], Ok(src));
    match &dialog.status {
        ImportStatus::Loaded(p) => assert_eq!(p, "/tmp/a.toml"),
        other => panic!("expected Loaded status, got {other:?}"),
    }
    assert_eq!(dialog.candidates[0].host, "alice@c005");
    assert!(candidates_all_picked(&dialog.candidates));
    assert!(candidates_importable(&dialog.candidates));
    pick_all_candidates(&mut dialog.candidates, false);
    assert!(!candidates_importable(&dialog.candidates));
}

#[test]
fn parses_optional_ssh_port() {
    assert_eq!(field_into_port(""), Ok(None));
    assert_eq!(field_into_port("2202"), Ok(Some(2202)));
    assert!(field_into_port("0").is_err());
    assert!(field_into_port("not-a-port").is_err());
}

#[test]
fn port_field_trims_and_bounds() {
    assert_eq!(field_into_port("  65535 "), Ok(Some(65535)));
    assert_eq!(
        field_into_port("65536"),
        Err("port must be an integer from 1 to 65535")
    );
    assert_eq!(field_into_port("   "), Ok(None));
}

#[test]
fn field_into_option_trims_and_drops_blank() {
    assert_eq!(field_into_option("  "), None);
    assert_eq!(field_into_option(" alice "), Some("alice".to_string()));
}

#[test]
fn modal_state_from_connection_round_trips_fields() {
    let mut conn = make_connection("home", "c005", "10022:127.0.0.1:22");
    conn.description = Some("home gateway".into());
    conn.port = Some(2202);
    conn.forwards[0].description = Some("home SSH".into());
    let state = state_from_connection(&conn);
    assert_eq!(state.name, "home");
    assert_eq!(state.description, "home gateway");
    assert_eq!(state.host, "c005");
    assert_eq!(state.port, "2202");
    assert_eq!(state.forwards.len(), 1);
    assert_eq!(state.forwards[0].forward, "10022:127.0.0.1:22");
    assert_eq!(state.forwards[0].mode, ForwardMode::Local);
    assert_eq!(
        state.forwards[0].description, "home SSH",
        "per-forward description must populate the editable row"
    );
    // fresh edit starts with no draft so the user is not surprised
    assert!(state.draft_forward.is_empty());
    assert!(state.draft_desc.is_empty());
}

#[test]
fn state_from_connection_round_trips_test_status() {
    let conn = make_connection("home", "c005", "10022:127.0.0.1:22");
    let state = state_from_connection(&conn);
    assert!(matches!(state.test_status, TestStatus::Idle));
    assert!(matches!(state.close, CloseAction::Open));
}

#[test]
fn editable_forward_into_forward_drops_empty_description() {
    let editable = EditableForward {
        enabled: false,
        mode: ForwardMode::Remote,
        forward: "10022:127.0.0.1:22".into(),
        description: "   ".into(),
    };
    let forward = editable.clone().into_forward();
    assert!(!forward.enabled);
    assert!(forward.description.is_none());
    let with_text = EditableForward {
        description: "home SSH".into(),
        ..editable
    };
    let forward = with_text.into_forward();
    assert_eq!(forward.description.as_deref(), Some("home SSH"));
}

#[test]
fn push_draft_forward_preserves_status_and_prepares_next_row() {
    let mut state = AddDialogState {
        draft_forward: " 1080 ".into(),
        draft_desc: "SOCKS".into(),
        draft_enabled: false,
        draft_checked: true,
        ..Default::default()
    };
    push_draft_forward(&mut state);
    assert_eq!(state.forwards.len(), 1);
    assert_eq!(state.forwards[0].forward, "1080");
    assert_eq!(state.forwards[0].description, "SOCKS");
    assert!(!state.forwards[0].enabled);
    assert_eq!(state.checked, vec![true]);
    assert!(state.draft_forward.is_empty());
    assert!(state.draft_desc.is_empty());
    assert!(state.draft_enabled);
    assert!(!state.draft_checked);
}

#[test]
fn add_dialog_state_defaults_to_idle_test_status() {
    let state = AddDialogState::default();
    assert!(matches!(state.test_status, TestStatus::Idle));
    assert_eq!(state.draft_mode, ForwardMode::Remote);
}

#[test]
fn blank_draft_is_not_added() {
    let mut state = AddDialogState {
        draft_forward: "   ".into(),
        draft_desc: "note".into(),
        ..Default::default()
    };
    push_draft_forward(&mut state);
    assert!(state.forwards.is_empty());
    assert_eq!(state.draft_desc, "note");
}

#[test]
fn modal_edit_connection_falls_back_to_name_when_host_missing() {
    let conn = ConnectionConfig {
        name: "home".into(),
        description: None,
        host: None,
        user: None,
        password: None,
        port: None,
        enabled: true,
        ssh_path: None,
        extra_args: Vec::new(),
        forwards: vec![],
    };
    let state = state_from_connection(&conn);
    assert_eq!(state.host, "home");
}

#[test]
fn deleting_checked_rows_keeps_the_rest_in_order() {
    let conn = ConnectionConfig {
        forwards: vec![
            ForwardConfig { enabled: true, mode: ForwardMode::Local, forward: "1".into(), description: None },
            ForwardConfig { enabled: true, mode: ForwardMode::Local, forward: "2".into(), description: None },
            ForwardConfig { enabled: true, mode: ForwardMode::Local, forward: "3".into(), description: None },
        ],
        ..make_connection("home", "c005", "x")
    };
    let mut state = state_from_connection(&conn);
    state.checked = vec![false, true];
    assert_eq!(checked_count(&state.checked), 1);
    delete_checked_forwards(&mut state);
    let left: Vec<&str> = state.forwards.iter().map(|f| f.forward.as_str()).collect();
    assert_eq!(left, vec!["1", "3"]);
    assert_eq!(state.checked, vec![false, false]);
}

#[test]
fn commit_and_test_buttons_follow_the_fields() {
    let mut state = AddDialogState {
        name: "home".into(),
        host: "c005".into(),
        ..Default::default()
    };
    assert!(!can_commit(&state, false), "a forward is needed");
    state.draft_forward = "10022:127.0.0.1:22".into();
    assert!(can_commit(&state, false));
    assert!(!can_commit(&state, true));
    state.port = "0".into();
    assert!(!can_commit(&state, false));
    assert!(can_test(&state));
    state.test_status = TestStatus::Running;
    assert!(!can_test(&state));
    poll_test(&mut state, Some((true, "ok".into())));
    match &state.test_status {
        TestStatus::Done { ok, message } => {
            assert!(*ok);
            assert_eq!(message, "ok");
        }
        other => panic!("expected Done, got {other:?}"),
    }
}

#[test]
fn poll_without_result_keeps_running() {
    let mut state = AddDialogState { test_status: TestStatus::Running, ..Default::default() };
    poll_test(&mut state, None);
    assert!(matches!(state.test_status, TestStatus::Running));
    let mut idle = AddDialogState::default();
    poll_test(&mut idle, Some((false, "late".into())));
    assert!(matches!(idle.test_status, TestStatus::Idle));
}

#[test]
fn name_taken_compares_trimmed_names_except_the_edited_row() {
    let conns = vec![
        make_connection(" home ", "c005", "x"),
        make_connection("backup", "c006", "y"),
    ];
    assert!(name_taken(&conns, "home", None));
    assert!(!name_taken(&conns, "home", Some(0)));
    assert!(!name_taken(&conns, "other", None));
}

#[test]
fn edit_dialog_commits_only_integers() {
    let mut state = EditDialogState {
        group: GlobalGroup::RetryInitial,
        value: " 42 ".into(),
        close: CloseAction::Open,
    };
    apply_edit_dialog(&mut state);
    assert!(matches!(state.close, CloseAction::Commit));
    state.value = "-1".into();
    apply_edit_dialog(&mut state);
    assert!(matches!(state.close, CloseAction::Cancel("not a non-negative integer")));
}

#[test]
fn labels_and_hints_are_stable() {
    assert_eq!(GlobalGroup::KeepaliveCount.label(), "keepalive.count_max");
    assert_eq!(GlobalGroup::RetryStable.label(), "retry.stable_seconds (s)");
    assert_eq!(forward_mode_label(ForwardMode::Dynamic), "D dynamic");
    assert_eq!(forward_hint(ForwardMode::Dynamic), "1080  (D SOCKS)");
}

fn host(alias: &str) -> SshHostEntry {
    SshHostEntry {
        alias: alias.into(),
        destination: format!("{alias}:22"),
        port: 22,
        selected: true,
        duplicate: false,
    }
}

#[test]
fn ssh_import_marks_duplicates_and_starts_unpicked() {
    let mut state = SshImportState {
        source_path: "/home/u/.ssh/config".into(),
        candidates: Vec::new(),
        status: SshImportStatus::Idle,
        close: CloseAction::Open,
    };
    let existing = vec!["c005".to_string()];
    state.try_load(&existing, Ok(vec![host("c005"), host("c006")]));
    assert!(matches!(state.status, SshImportStatus::Loaded));
    assert_eq!(state.candidates.len(), 2);
    assert!(state.candidates[0].duplicate);
    assert!(!state.candidates[1].duplicate);
    assert!(state.candidates.iter().all(|c| !c.selected));

    state.try_load(&existing, Ok(Vec::new()));
    assert_eq!(state.candidates.len(), 2, "an empty read keeps the list");

    state.try_load(&existing, Err("cannot read SSH config".into()));
    assert!(state.candidates.is_empty());
    assert!(matches!(state.status, SshImportStatus::Failed(_)));
}
