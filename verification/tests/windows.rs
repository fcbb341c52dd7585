use rust_autossh::dashboard::{dirty_label, message_tone, status_text, supervisor_status, SupervisorStatus, Tone};
use rust_autossh::tray::{window_action, TrayCommand, WindowAction};
use rust_autossh::windows::{
    control_reply, sc_create_args, sc_service_args, service_error_note, service_exit_code,
    supervisor_binary, taskkill_args, ControlReply, ServiceControl,
};

#[test]
fn service_controls_and_exit_codes() {
    assert_eq!(control_reply(ServiceControl::Stop), ControlReply { stop: true, handled: true });
    assert_eq!(control_reply(ServiceControl::Shutdown), ControlReply { stop: true, handled: true });
    assert_eq!(control_reply(ServiceControl::Interrogate), ControlReply { stop: false, handled: true });
    assert_eq!(control_reply(ServiceControl::Other), ControlReply { stop: false, handled: false });
    assert_eq!(service_exit_code(true), None);
    assert_eq!(service_exit_code(false), Some(1));
    assert_eq!(service_error_note("boom"), "rust-autossh service stopped: boom\n");
}

#[test]
fn sc_and_taskkill_command_lines() {
    assert_eq!(
        sc_create_args("C:\\bin\\rust-autossh.exe", "C:\\ProgramData\\autossh\\config.toml"),
        vec![
            "create",
            "rust-autossh",
            "binPath= \"C:\\bin\\rust-autossh.exe\" service --config \"C:\\ProgramData\\autossh\\config.toml\"",
            "start= auto",
            "DisplayName= rust-autossh",
        ]
    );
    assert_eq!(sc_service_args("stop", None), vec!["stop", "rust-autossh"]);
    assert_eq!(
        sc_service_args("description", Some("OpenSSH tunnel supervisor")),
        vec!["description", "rust-autossh", "OpenSSH tunnel supervisor"]
    );
    assert_eq!(taskkill_args(4242), vec!["/PID", "4242", "/T", "/F"]);
    assert_eq!(supervisor_binary(true), "rust-autossh.exe");
    assert_eq!(supervisor_binary(false), "rust-autossh");
}

#[test]
fn tray_window_follows_commands_then_minimising() {
    assert_eq!(window_action(Some(TrayCommand::Show), true, true), (WindowAction::Restore, false));
    assert_eq!(window_action(Some(TrayCommand::Exit), false, true), (WindowAction::Close, true));
    assert_eq!(window_action(None, true, false), (WindowAction::HideToTray, true));
    assert_eq!(window_action(None, true, true), (WindowAction::Keep, true));
    assert_eq!(window_action(None, false, false), (WindowAction::Keep, false));
}

#[test]
fn status_bar_texts() {
    assert_eq!(supervisor_status(false, false), SupervisorStatus::NotStarted);
    assert_eq!(supervisor_status(true, true), SupervisorStatus::Running);
    assert_eq!(status_text(supervisor_status(true, false)), "exited");
    assert_eq!(dirty_label(true), "● unsaved");
    assert_eq!(dirty_label(false), "✓ saved");
    assert_eq!(message_tone("starting home"), Tone::Success);
    assert_eq!(message_tone("supervisor started"), Tone::Success);
    assert_eq!(message_tone("stopping home"), Tone::Warning);
    assert_eq!(message_tone("saved /tmp/c.toml"), Tone::Muted);
}
