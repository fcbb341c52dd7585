use chrono::{Local, TimeZone};
use rust_autossh::log::{
    append_logs, decode_supervisor_line, format_unix_ts, is_displayable, log_window_start, parse_log_line, parse_ts,
    LogEntry, LogScroll, Rgb, Severity, LOG_BUFFER_LIMIT,
};

#[test]
fn log_severity_is_inferred_from_level_token() {
    assert_eq!(parse_log_line("[0] INFO loaded").severity, Severity::Info);
    assert_eq!(parse_log_line("[0] WARN flaky").severity, Severity::Warn);
    assert_eq!(parse_log_line("[0] ERROR boom").severity, Severity::Error);
}

#[test]
fn log_connection_name_requires_trailing_colon() {
    assert_eq!(
        parse_log_line("[0] ERROR home-server: ssh exited with 1")
            .connection
            .as_deref(),
        Some("home-server"),
    );
    assert_eq!(
        parse_log_line("[0] INFO loaded 2 connection(s)").connection,
        None,
    );
}

#[test]
fn log_ts_is_parsed_from_leading_bracket() {
    assert_eq!(
        parse_log_line("[1715000000] INFO hi").ts_secs,
        Some(1715000000)
    );
    assert_eq!(parse_log_line("not bracketed").ts_secs, None);
}

#[test]
fn format_unix_ts_renders_hms_and_wraps_a_day() {
    assert_eq!(format_unix_ts(48_059), "13:20:59");
    assert_eq!(format_unix_ts(0), "00:00:00");
    assert_eq!(format_unix_ts(48_059 + 86_400), "13:20:59");
}

#[test]
fn parse_ts_accepts_local_wall_clock_and_legacy_epoch() {
    assert_eq!(
        parse_ts("[2024-01-15 13:20:59] INFO hi"),
        Local
            .with_ymd_and_hms(2024, 1, 15, 13, 20, 59)
            .single()
            .map(|dt| dt.timestamp() as u64)
    );
    assert_eq!(parse_ts("[1715000000] INFO hi"), Some(1_715_000_000));
}

#[test]
fn log_severity_label_is_stable() {
    assert_eq!(Severity::Info.label(), "INFO");
    assert_eq!(Severity::Warn.label(), "WARN");
    assert_eq!(Severity::Error.label(), "ERROR");
}

#[test]
fn lifecycle_messages_use_distinct_colors() {
    let started = parse_log_line("[0] INFO home: ssh process started (pid 1)");
    let stopped = parse_log_line("[0] WARN home: ssh exited with exit status: 255");
    assert_ne!(started.event_color(), stopped.event_color());
    assert_eq!(started.event_color(), Rgb { r: 0, g: 200, b: 120 });
    assert_eq!(stopped.event_color(), Rgb { r: 245, g: 90, b: 90 });
}

#[test]
fn message_preserves_ssh_ports_and_exit_statuses() {
    let entry = parse_log_line(
        "[1715000000] WARN home: ssh: remote port forwarding failed for listen port 10022",
    );
    assert_eq!(
        entry.message,
        "remote port forwarding failed for listen port 10022"
    );

    let entry = parse_log_line("[1715000000] WARN home: ssh exited with exit status: 255");
    assert_eq!(entry.message, "ssh exited · exit status: 255");
}

#[test]
fn publickey_chatter_is_hidden() {
    let entry = parse_log_line("[0] WARN home: ssh: Authenticated to host using \"publickey\".");
    assert!(!is_displayable(&entry));
}

#[test]
fn started_line_is_rephrased_as_connected() {
    let entry = parse_log_line("[0] INFO home: ssh process started (pid 1)");
    assert_eq!(entry.message, "connected · (pid 1)");
    assert_eq!(entry.connection.as_deref(), Some("home"));
    assert!(is_displayable(&entry));
}

#[test]
fn badge_and_foreground_colours_follow_severity() {
    assert_eq!(Severity::Error.foreground(), Rgb { r: 255, g: 255, b: 255 });
    assert_eq!(Severity::Info.foreground(), Rgb { r: 0, g: 0, b: 0 });
    assert_eq!(Severity::Warn.badge(), Rgb { r: 245, g: 200, b: 70 });
    let plain = parse_log_line("[0] INFO loaded 2 connection(s)");
    assert_eq!(plain.event_color(), Rgb { r: 0, g: 220, b: 220 });
    let stop = parse_log_line("[0] INFO supervisor stopped");
    assert_eq!(stop.event_color(), Rgb { r: 245, g: 90, b: 90 });
}

#[test]
fn unbracketed_or_unclosed_stamp_has_no_time() {
    assert_eq!(parse_ts("[123 INFO hi"), None);
    assert_eq!(parse_ts("[+42] INFO hi"), Some(42));
    assert_eq!(parse_ts("[garbage] INFO hi"), None);
}

#[test]
fn format_unix_ts_pads_each_field() {
    assert_eq!(format_unix_ts(3_600 * 9 + 60 * 5 + 7), "09:05:07");
    assert_eq!(format_unix_ts(86_399), "23:59:59");
}

fn entry(message: &str) -> LogEntry {
    parse_log_line(&format!("[0] INFO {message}"))
}

#[test]
fn append_logs_filters_and_trims_to_headroom() {
    let mut logs = Vec::new();
    append_logs(&mut logs, vec![entry("a"), entry("using \"publickey\""), entry("b")]);
    assert_eq!(logs.len(), 2);
    assert_eq!(logs[0].message, "a");
    assert_eq!(logs[1].message, "b");

    let many: Vec<LogEntry> = (0..LOG_BUFFER_LIMIT).map(|i| entry(&format!("m{i}"))).collect();
    append_logs(&mut logs, many);
    assert_eq!(logs.len(), LOG_BUFFER_LIMIT - 100);
    assert_eq!(logs.last().unwrap().message, format!("m{}", LOG_BUFFER_LIMIT - 1));
    assert_eq!(logs[0].message, "m100");
}

#[test]
fn window_start_follows_or_holds_offset() {
    let follow = LogScroll::default();
    assert_eq!(log_window_start(100, 10, follow), 90);
    assert_eq!(log_window_start(5, 10, follow), 0);
    let held = LogScroll { follow: false, offset_from_bottom: 20 };
    assert_eq!(log_window_start(100, 10, held), 70);
    assert_eq!(log_window_start(100, 10, LogScroll { follow: false, offset_from_bottom: 200 }), 0);
}

#[test]
fn supervisor_lines_are_utf8_or_gbk() {
    assert_eq!(decode_supervisor_line("[0] INFO 连接\r\n".as_bytes()), "[0] INFO 连接");
    let gbk = [0xC1, 0xAC, 0xBD, 0xD3, 0xCA, 0xA7, 0xB0, 0xDC, b'\r', b'\n'];
    assert_eq!(decode_supervisor_line(&gbk), "连接失败");
    assert_eq!(decode_supervisor_line(b"a\r"), "a\r", "a return alone stays");
}

#[test]
fn format_unix_ts_fields_rebuild_the_second_of_the_day() {
    for secs in [0u64, 59, 3_599, 48_059, 86_399, 86_400, 1_715_000_000, u64::MAX] {
        let text = format_unix_ts(secs);
        let fields: Vec<u64> = text.split(':').map(|f| f.parse().unwrap()).collect();
        assert_eq!(fields.len(), 3);
        assert!(fields[0] < 24 && fields[1] < 60 && fields[2] < 60);
        assert_eq!(fields[0] * 3600 + fields[1] * 60 + fields[2], secs % 86_400);
    }
}

#[test]
fn parse_ts_rejects_stamps_that_are_neither_seconds_nor_wall_clock() {
    assert_eq!(parse_ts("[2024-13-45 99:99:99] INFO hi"), None);
    assert_eq!(parse_ts("[2024-01-15T13:20:59] INFO hi"), None);
    assert_eq!(parse_ts("[] INFO hi"), None);
}
