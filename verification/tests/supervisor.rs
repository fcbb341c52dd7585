use rust_autossh::config::{ConnectionConfig, ForwardConfig, ForwardMode, LogConfig, RetryConfig};
use rust_autossh::supervisor::{
    ansi_label, connections_equal, decode_ssh_stderr, log_changed, next_retry_delay,
    plan_reconfigure, reload_error_line, retry_delay_after_run, strip_line_ending, ReloadWatch,
};

fn connection() -> ConnectionConfig {
    ConnectionConfig {
        name: "test".into(),
        description: None,
        host: None,
        user: None,
        password: None,
        port: None,
        enabled: true,
        ssh_path: Some("ssh-command-that-does-not-exist".into()),
        extra_args: Vec::new(),
        forwards: vec![ForwardConfig {
            enabled: true,
            mode: ForwardMode::Local,
            forward: "8080:127.0.0.1:8080".into(),
            description: None,
        }],
    }
}

#[test]
fn decodes_utf8_stderr_and_removes_line_endings() {
    assert_eq!(decode_ssh_stderr("连接失败\r\n".as_bytes()), "连接失败");
}

#[test]
fn invalid_utf8_is_replaced_not_dropped() {
    assert_eq!(decode_ssh_stderr(b"ab\xffc\n"), "ab\u{fffd}c");
    assert_eq!(strip_line_ending(b"x\n\r"), b"x\n", "a newline, then a return, each once");
    assert_eq!(strip_line_ending(b"x\r\n"), b"x");
}

#[test]
fn reconfigure_restarts_only_changed_workers() {
    let original = connection();
    let plan = plan_reconfigure(&vec![original.clone()], &vec![original.clone()], false);
    assert_eq!(plan.stop, vec![false]);
    assert_eq!(plan.start, vec![false]);

    let mut changed = original.clone();
    changed.forwards[0].forward = "8081:127.0.0.1:8081".into();
    let plan = plan_reconfigure(&vec![original.clone()], &vec![changed], false);
    assert_eq!(plan.stop, vec![true]);
    assert_eq!(plan.start, vec![true]);

    let plan = plan_reconfigure(&vec![original.clone()], &vec![original.clone()], true);
    assert_eq!(plan.stop, vec![true]);
    assert_eq!(plan.start, vec![true]);
}

#[test]
fn disabled_and_removed_connections_stop_and_duplicates_start_once() {
    let a = connection();
    let mut disabled = connection();
    disabled.enabled = false;
    let plan = plan_reconfigure(&vec![a.clone()], &vec![disabled], false);
    assert_eq!(plan.stop, vec![true]);
    assert_eq!(plan.start, vec![false]);

    let mut other = connection();
    other.name = "other".into();
    let mut later = connection();
    later.port = Some(2202);
    let plan = plan_reconfigure(&vec![], &vec![a.clone(), other, later], false);
    assert_eq!(plan.start, vec![false, true, true], "the last entry of a name wins");
    assert!(connections_equal(&a, &a.clone()));
}

#[test]
fn backoff_doubles_up_to_the_maximum_and_resets_when_stable() {
    let retry = RetryConfig { initial_seconds: 1, maximum_seconds: 60, stable_seconds: 60 };
    let mut delay = retry.initial_seconds;
    let mut waits = Vec::new();
    for _ in 0..8 {
        let (wait, _) = retry_delay_after_run(delay, &retry, 5);
        waits.push(wait);
        delay = next_retry_delay(wait, &retry);
    }
    assert_eq!(waits, vec![1, 2, 4, 8, 16, 32, 60, 60]);
    assert_eq!(retry_delay_after_run(60, &retry, 60), (1, true));
    assert_eq!(next_retry_delay(u64::MAX, &RetryConfig { maximum_seconds: u64::MAX, ..retry }), u64::MAX);
}

#[test]
fn reload_errors_are_reported_once() {
    let mut previous = None;
    assert_eq!(
        reload_error_line(&mut previous, "bad toml".into()).as_deref(),
        Some("configuration reload rejected; keeping unaffected connections: bad toml")
    );
    assert_eq!(reload_error_line(&mut previous, "bad toml".into()), None);
    assert!(reload_error_line(&mut previous, "other".into()).is_some());
    assert_eq!(previous.as_deref(), Some("other"));
}

#[test]
fn log_settings_and_code_pages() {
    assert!(!log_changed(&LogConfig { file: None }, &LogConfig { file: None }));
    assert!(log_changed(&LogConfig { file: Some("a.log".into()) }, &LogConfig { file: None }));
    assert_eq!(ansi_label(936), "GBK");
    assert_eq!(ansi_label(1251), "windows-1251");
    assert_eq!(ansi_label(437), "windows-1252");
}

#[test]
fn reload_watch_reloads_on_change_and_retries_after_failure() {
    let mut watch = ReloadWatch::new(Some(b"first".to_vec()));
    assert!(!watch.observe(Some(b"first".to_vec())));
    assert!(watch.observe(Some(b"other".to_vec())), "same size, new content");
    assert!(watch.load_failed("bad".into()).is_some());
    assert!(watch.load_failed("bad".into()).is_none());
    assert_eq!(
        watch.applied(Err("spawn".into())).as_deref(),
        Some("configuration reload rejected; keeping unaffected connections: cannot apply all connection changes: spawn")
    );
    assert!(watch.observe(Some(b"other".to_vec())), "a failed apply is retried");
    assert_eq!(watch.applied(Ok(())), None);
    assert!(watch.logger_failed("denied").is_some());
    assert!(!watch.observe(Some(b"other".to_vec())));
    assert!(watch.observe(None));
}

#[test]
fn supervisor_snapshot_detects_same_size_content_change() {
    let mut watch = ReloadWatch::new(Some(b"first".to_vec()));
    assert!(watch.observe(Some(b"other".to_vec())));
}

#[test]
fn lib_snapshot_detects_same_size_content_change() {
    let mut watch = ReloadWatch::new(Some(b"first".to_vec()));
    assert!(!watch.observe(Some(b"first".to_vec())));
    assert!(watch.observe(Some(b"other".to_vec())));
}

#[test]
fn backoff_waits_over_successive_runs() {
    let retry = RetryConfig { initial_seconds: 1, maximum_seconds: 10, stable_seconds: 60 };
    let runs = [0u64, 5, 5, 5, 5, 120, 3, 3];
    let mut delay = retry.initial_seconds;
    let mut waits = Vec::new();
    for ran in runs {
        let (wait, _) = retry_delay_after_run(delay, &retry, ran);
        waits.push(wait);
        delay = next_retry_delay(wait, &retry);
    }
    assert_eq!(waits, vec![1, 2, 4, 8, 10, 1, 2, 4]);
}
