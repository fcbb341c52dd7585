use rust_autossh::friday::{
    admit_request, audio_from_decoding, check_body_size, check_payload_kind, control_action,
    decode_audio, route, status_label, FridayReceiver, FridayState, HttpMethod, Route, WorkerEvent,
};

#[test]
fn http_rejects_unsupported_payloads_before_starting_player() {
    let payload: serde_json::Value =
        serde_json::from_slice(br#"{"type":"wav","data":"","rate":1.0}"#).unwrap();
    let error = check_payload_kind(payload["type"].as_str().unwrap()).unwrap_err();
    assert_eq!(error.to_string(), "unsupported type: wav");
}

#[test]
fn friday_rejects_unsupported_payloads_before_starting_player() {
    let payload: serde_json::Value =
        serde_json::from_slice(br#"{"type":"wav","data":"","rate":1.0}"#).unwrap();
    let error = check_payload_kind(payload["type"].as_str().unwrap()).unwrap_err();
    assert_eq!(error.to_string(), "unsupported type: wav");
    assert_eq!(error.status, 400);
    assert!(check_payload_kind("mp3").is_ok());
}

#[test]
fn receiver_runs_through_its_lifecycle() {
    let mut r = FridayReceiver::new();
    assert_eq!(r.state(), FridayState::Stopped);
    assert!(!r.is_active());
    assert!(r.start(), "a listener must be spawned");
    assert_eq!(r.state(), FridayState::Starting);
    assert!(!r.start(), "only one listener at a time");
    r.on_event(WorkerEvent::Started { player: "/usr/bin/mpv".into() });
    assert_eq!(r.state(), FridayState::Listening);
    assert_eq!(r.player(), Some("/usr/bin/mpv"));
    assert!(r.stop(), "the listener must be signalled");
    assert_eq!(r.state(), FridayState::Stopping);
    r.on_event(WorkerEvent::Stopped);
    r.on_worker_finished();
    assert_eq!(r.state(), FridayState::Stopped);
    assert_eq!(r.player(), None);
    assert!(!r.stop());
}

#[test]
fn a_started_event_after_stop_keeps_stopping() {
    let mut r = FridayReceiver::new();
    r.start();
    r.stop();
    r.on_event(WorkerEvent::Started { player: "mpv".into() });
    assert_eq!(r.state(), FridayState::Stopping);
}

#[test]
fn failures_are_remembered_until_the_next_start() {
    let mut r = FridayReceiver::new();
    r.start();
    r.on_event(WorkerEvent::Failed("mpv not found".into()));
    r.on_worker_finished();
    assert_eq!(r.state(), FridayState::Failed);
    assert_eq!(r.error(), Some("mpv not found"));
    assert_eq!(control_action(r.state()), Some(true));
    assert!(r.start());
    assert_eq!(r.error(), None);
}

#[test]
fn panel_button_and_label() {
    assert_eq!(control_action(FridayState::Listening), Some(false));
    assert_eq!(control_action(FridayState::Starting), None);
    assert_eq!(status_label(FridayState::Stopping), "stopping");
    assert_eq!(FridayState::default(), FridayState::Stopped);
}

#[test]
fn requests_are_routed_by_path_and_method() {
    assert_eq!(route(HttpMethod::Get, "/health"), Route::Health);
    assert_eq!(route(HttpMethod::Get, "/"), Route::Health);
    assert_eq!(route(HttpMethod::Post, "/ping"), Route::WrongMethod { allow_post: false });
    assert_eq!(route(HttpMethod::Post, "/speak"), Route::Speak);
    assert_eq!(route(HttpMethod::Get, "/speak"), Route::WrongMethod { allow_post: true });
    assert_eq!(route(HttpMethod::Get, "/other"), Route::NotFound);
}

#[test]
fn body_limit_and_concurrency() {
    assert!(check_body_size(10 * 1024 * 1024).is_ok());
    let e = check_body_size(10 * 1024 * 1024 + 1).unwrap_err();
    assert_eq!(e.status, 413);
    assert_eq!(e.to_string(), "request body exceeds 10485760 bytes");
    assert!(admit_request(7));
    assert!(!admit_request(8));
}

#[test]
fn base64_audio_is_decoded_or_refused() {
    assert_eq!(decode_audio("aGk=").unwrap(), b"hi".to_vec());
    let e = decode_audio("not base64!").unwrap_err();
    assert_eq!(e.status, 400);
    assert!(e.to_string().starts_with("invalid base64 audio: "));
    let e = audio_from_decoding(Err("bad".into())).unwrap_err();
    assert_eq!(e.to_string(), "invalid base64 audio: bad");
}

#[test]
fn decode_audio_quotes_the_decoders_error() {
    let e = decode_audio("####").unwrap_err();
    assert_eq!(e.status, 400);
    assert_eq!(e.to_string(), "invalid base64 audio: Invalid symbol 35, offset 0.");
}
