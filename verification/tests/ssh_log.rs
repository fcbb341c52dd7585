use rust_autossh::config::{ConnectionConfig, ForwardConfig, ForwardMode};
use rust_autossh::ssh_log::{describe_configured_forwards, SshStderrAnnotator};

fn connection() -> ConnectionConfig {
    ConnectionConfig {
        name: "test".into(),
        description: None,
        host: None,
        user: None,
        password: None,
        port: None,
        enabled: true,
        ssh_path: None,
        extra_args: Vec::new(),
        forwards: vec![ForwardConfig {
            enabled: true,
            mode: ForwardMode::Local,
            forward: "8080:127.0.0.1:8080".into(),
            description: None,
        }],
    }
}

#[test]
fn annotates_local_channel_failures_with_forward_port() {
    let mut annotator = SshStderrAnnotator::new(&connection());
    assert_eq!(
        annotator.annotate(
            "debug1: Connection to port 8080 forwarding to 127.0.0.1 port 8080 requested."
        ),
        None
    );
    assert_eq!(annotator.annotate("debug1: channel 2: new [direct-tcpip]"), None);
    let line = annotator
        .annotate("channel 2: open failed: connect failed: Connection refused")
        .unwrap();
    assert!(line.contains("forward=-L 8080 -> 127.0.0.1:8080"));
}

#[test]
fn annotates_remote_channel_failures_with_forward_and_originator() {
    let mut connection = connection();
    connection.forwards[0].mode = ForwardMode::Remote;
    connection.forwards[0].forward = "10022:127.0.0.1:22".into();
    let mut annotator = SshStderrAnnotator::new(&connection);
    assert_eq!(
        annotator.annotate(
            "debug1: client_request_forwarded_tcpip: listen localhost port 10022, originator 203.0.113.5 port 51234"
        ),
        None
    );
    assert_eq!(annotator.annotate("debug1: channel 3: new [forwarded-tcpip]"), None);
    let line = annotator
        .annotate("channel 3: open failed: connect failed: Connection refused")
        .unwrap();
    assert!(line.contains("forward=-R 10022 -> 127.0.0.1:22"));
    assert!(line.contains("originator=203.0.113.5:51234"));
}

#[test]
fn falls_back_to_configured_forwards_without_channel_context() {
    let mut annotator = SshStderrAnnotator::new(&connection());
    let line = annotator
        .annotate("channel 9: open failed: connect failed: Connection refused")
        .unwrap();
    assert!(line.contains("channel mapping unavailable"));
    assert!(line.contains("configured forwards=[-L 8080 -> 127.0.0.1:8080]"));
}

#[test]
fn dynamic_forward_displays_bind_and_port_without_target() {
    let mut conn = connection();
    conn.forwards = vec![ForwardConfig {
        enabled: true,
        mode: ForwardMode::Dynamic,
        forward: "0.0.0.0:1080".into(),
        description: None,
    }];
    let mut annotator = SshStderrAnnotator::new(&conn);
    let line = annotator
        .annotate("channel 1: open failed: administratively prohibited")
        .unwrap();
    assert!(line.contains("-D 0.0.0.0:1080"), "expected -D display, got: {line}");
    assert!(
        !line.contains("->"),
        "dynamic forwards have no configured target, got: {line}"
    );
}

#[test]
fn dynamic_forward_accepts_bare_port_spec() {
    let mut conn = connection();
    conn.forwards = vec![ForwardConfig {
        enabled: true,
        mode: ForwardMode::Dynamic,
        forward: "1080".into(),
        description: None,
    }];
    let mut annotator = SshStderrAnnotator::new(&conn);
    let line = annotator
        .annotate("channel 1: open failed: administratively prohibited")
        .unwrap();
    assert!(line.contains("-D 1080"));
}

#[test]
fn ordinary_lines_pass_and_debug_lines_are_dropped() {
    let mut annotator = SshStderrAnnotator::new(&connection());
    assert_eq!(
        annotator.annotate("Warning: remote port forwarding failed for listen port 10022"),
        Some("Warning: remote port forwarding failed for listen port 10022".to_string())
    );
    assert_eq!(annotator.annotate("debug2: something"), None);
}

#[test]
fn connect_to_failures_name_the_forward() {
    let mut annotator = SshStderrAnnotator::new(&connection());
    assert_eq!(
        annotator.annotate("connect_to LOCALHOST port 8080: failed."),
        Some("connect_to LOCALHOST port 8080: failed.; forward=-L 8080 -> 127.0.0.1:8080".to_string())
    );
    assert_eq!(
        annotator.annotate("connect_to 10.0.0.1 port 99: failed."),
        Some("connect_to 10.0.0.1 port 99: failed.".to_string())
    );
}

#[test]
fn freed_channels_lose_their_mapping() {
    let mut annotator = SshStderrAnnotator::new(&connection());
    annotator.annotate("debug1: Connection to port 8080 forwarding to 127.0.0.1 port 8080 requested.");
    annotator.annotate("debug1: channel 4: new [direct-tcpip]");
    annotator.annotate("debug2: channel 4: free: direct-tcpip, nchannels 2");
    let line = annotator
        .annotate("channel 4: open failed: connect failed: Connection refused")
        .unwrap();
    assert!(line.contains("channel mapping unavailable"));
}

#[test]
fn remote_target_is_learnt_from_connect_next() {
    let mut connection = connection();
    connection.forwards[0].mode = ForwardMode::Remote;
    connection.forwards[0].forward = "0.0.0.0:10022:127.0.0.1:22".into();
    let mut annotator = SshStderrAnnotator::new(&connection);
    annotator.annotate("debug1: client_request_forwarded_tcpip: listen 0.0.0.0 port 10022, originator 198.51.100.7 port 4000");
    annotator.annotate("debug1: channel 5: new [forwarded-tcpip]");
    annotator.annotate("debug1: connect_next: start for host 127.0.0.1 ([127.0.0.1]:22)");
    let line = annotator
        .annotate("channel 5: open failed: connect failed: Connection refused")
        .unwrap();
    assert!(line.ends_with("; forward=-R 0.0.0.0:10022 -> 127.0.0.1:22; originator=198.51.100.7:4000"), "{line}");
}

#[test]
fn configured_forwards_are_listed() {
    let mut conn = connection();
    assert_eq!(describe_configured_forwards(&conn), "-L 8080 -> 127.0.0.1:8080");
    conn.forwards.push(ForwardConfig {
        enabled: true,
        mode: ForwardMode::Dynamic,
        forward: "1080".into(),
        description: None,
    });
    assert_eq!(describe_configured_forwards(&conn), "-L 8080 -> 127.0.0.1:8080, -D 1080");
    conn.forwards.clear();
    assert_eq!(describe_configured_forwards(&conn), "none");
}
