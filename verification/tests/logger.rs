use rust_autossh::log::{parse_log_line, Severity};
use rust_autossh::logger::{
    connection_note, exited_message, log_line, reconnect_message, retry_after_rotation,
    rotation_bytes, rotation_due, started_message, IoErrorLatch, Level,
};

#[test]
fn log_lines_pad_the_level() {
    assert_eq!(log_line("2024-01-15 13:20:59", Level::Info, "hi"), "[2024-01-15 13:20:59] INFO  hi\n");
    assert_eq!(log_line("0", Level::Error, "boom"), "[0] ERROR boom\n");
    assert_eq!(log_line("0", Level::Warn, "x"), "[0] WARN  x\n");
}

#[test]
fn lifecycle_lines_read_back_in_the_log_panel() {
    let started = started_message("home", 42, "alice@c005", "-L 8080 -> 127.0.0.1:8080");
    assert_eq!(
        started,
        "home: ssh process started (pid 42); destination=alice@c005; forwards=[-L 8080 -> 127.0.0.1:8080]"
    );
    let line = log_line("1715000000", Level::Info, &started);
    let entry = parse_log_line(line.trim_end());
    assert_eq!(entry.connection.as_deref(), Some("home"));
    assert_eq!(entry.severity, Severity::Info);
    let exited = log_line("1715000000", Level::Error, &exited_message("home", "exit status: 255"));
    let entry = parse_log_line(exited.trim_end());
    assert_eq!(entry.severity, Severity::Error);
    assert_eq!(entry.connection.as_deref(), Some("home"));
    assert_eq!(entry.message, "ssh exited · exit status: 255");
    assert_eq!(reconnect_message("home", 8), "home: reconnecting in 8s");
    assert_eq!(connection_note("home", "supervisor stopped"), "home: supervisor stopped");
}

#[test]
fn rotation_waits_after_a_failure() {
    assert_eq!(rotation_bytes(1), 1_048_576);
    assert_eq!(rotation_bytes(u64::MAX), u64::MAX);
    assert!(rotation_due(true, 10, None, 0, 10));
    assert!(!rotation_due(true, 10, None, 0, 9));
    assert!(!rotation_due(true, 0, None, 0, 10));
    assert!(!rotation_due(false, 10, None, 0, 10));
    assert!(!rotation_due(true, 10, Some(100), 99, 10));
    assert!(rotation_due(true, 10, Some(100), 100, 10));
    assert_eq!(retry_after_rotation(false, 1_000), Some(61_000));
    assert_eq!(retry_after_rotation(true, 1_000), None);
}

#[test]
fn io_errors_are_reported_once_until_a_write_works() {
    let mut latch = IoErrorLatch { reported: false };
    assert!(latch.failed());
    assert!(!latch.failed());
    latch.succeeded();
    assert!(latch.failed());
}
