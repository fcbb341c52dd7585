use chrono::{Local, TimeZone};
use rust_autossh::local_clock::{clock_text, format_unix_ts};

#[test]
fn format_unix_ts_renders_local_hms() {
    let secs = Local
        .with_ymd_and_hms(2024, 1, 15, 13, 20, 59)
        .single()
        .expect("valid local datetime")
        .timestamp() as u64;
    assert_eq!(format_unix_ts(secs), "13:20:59");
}

#[test]
fn clock_text_pads_each_field() {
    assert_eq!(clock_text(Some((9, 5, 7))), "09:05:07");
    assert_eq!(clock_text(Some((23, 59, 59))), "23:59:59");
    assert_eq!(clock_text(Some((0, 0, 0))), "00:00:00");
}

#[test]
fn clock_text_without_a_local_time_is_a_placeholder() {
    assert_eq!(clock_text(None), "??:??:??");
}

#[test]
fn local_clock_face_is_a_well_formed_time() {
    let text = format_unix_ts(1_715_000_000);
    let bytes = text.as_bytes();
    assert_eq!(bytes.len(), 8);
    assert_eq!(bytes[2], b':');
    assert_eq!(bytes[5], b':');
}
