use rust_autossh::config::{
    home_config_path, home_dir_from, split_forward_spec, Config, ConfigError, ConnectionConfig, ForwardConfig, ForwardMode,
    KeepaliveConfig, LogConfig, RetryConfig,
};

fn connection() -> ConnectionConfig {
    ConnectionConfig {
        name: "primary".into(),
        description: None,
        host: Some("user@example.test".into()),
        user: None,
        password: None,
        port: None,
        enabled: true,
        ssh_path: None,
        extra_args: vec!["-v".into()],
        forwards: vec![ForwardConfig {
            enabled: true,
            mode: ForwardMode::Local,
            forward: "8080:127.0.0.1:8080".into(),
            description: None,
        }],
    }
}

fn config_with(connections: Vec<ConnectionConfig>) -> Config {
    Config {
        log: LogConfig::default(),
        keepalive: KeepaliveConfig::default(),
        retry: RetryConfig::default(),
        connections,
    }
}

#[test]
fn config_rejects_invalid_retry_range() {
    let mut config = config_with(vec![connection()]);
    config.retry.maximum_seconds = 0;
    assert!(config.validate().is_err());
}

#[test]
fn lib_rejects_invalid_retry_range() {
    let mut config = config_with(vec![connection()]);
    config.retry.maximum_seconds = 0;
    assert!(config.validate().is_err());
}

#[test]
fn rejects_invalid_keepalive_values() {
    let mut config = config_with(vec![connection()]);
    config.keepalive = KeepaliveConfig {
        interval: 0,
        ..KeepaliveConfig::default()
    };
    assert!(config.validate().is_err());
}

#[test]
fn rejects_ssh_port_zero() {
    let config = config_with(
        [connection()]
            .into_iter()
            .map(|mut c| {
                c.port = Some(0);
                c
            })
            .collect(),
    );
    assert!(config.validate().is_err());
}

#[test]
fn config_rejects_dynamic_forward_without_port() {
    let mut connection = connection();
    connection.forwards = vec![ForwardConfig {
        enabled: true,
        mode: ForwardMode::Dynamic,
        forward: "0.0.0.0:".into(),
        description: None,
    }];
    let config = config_with(vec![connection]);
    assert!(config.validate().is_err());
}

#[test]
fn config_rejects_dynamic_forward_with_extra_target_segments() {
    let mut connection = connection();
    connection.forwards = vec![ForwardConfig {
        enabled: true,
        mode: ForwardMode::Dynamic,
        forward: "1080:127.0.0.1:8080".into(),
        description: None,
    }];
    let config = config_with(vec![connection]);
    assert!(config.validate().is_err());
}

#[test]
fn config_accepts_dynamic_forward_specs() {
    let mut connection = connection();
    connection.forwards = vec![
        ForwardConfig {
            enabled: true,
            mode: ForwardMode::Dynamic,
            forward: "1080".into(),
            description: None,
        },
        ForwardConfig {
            enabled: true,
            mode: ForwardMode::Dynamic,
            forward: "0.0.0.0:1080".into(),
            description: None,
        },
        ForwardConfig {
            enabled: true,
            mode: ForwardMode::Dynamic,
            forward: "[::1]:1080".into(),
            description: None,
        },
    ];
    let config = config_with(vec![connection]);
    assert!(config.validate().is_ok());
}

#[test]
fn validate_reports_the_first_problem_in_order() {
    assert_eq!(config_with(vec![]).validate(), Err(ConfigError::NoConnections));
    let mut bad_keepalive = config_with(vec![]);
    bad_keepalive.keepalive.count_max = 0;
    assert_eq!(bad_keepalive.validate(), Err(ConfigError::KeepaliveNotPositive));
    let mut blank = connection();
    blank.name = "  ".into();
    assert_eq!(config_with(vec![blank]).validate(), Err(ConfigError::EmptyName));
    let mut no_host = connection();
    no_host.host = Some(" ".into());
    assert_eq!(
        config_with(vec![no_host]).validate(),
        Err(ConfigError::EmptyHost("primary".into()))
    );
    let mut no_forwards = connection();
    no_forwards.forwards.clear();
    assert_eq!(
        config_with(vec![no_forwards]).validate(),
        Err(ConfigError::NoForwards("primary".into()))
    );
    let mut empty_forward = connection();
    empty_forward.forwards[0].forward = "   ".into();
    assert_eq!(
        config_with(vec![empty_forward]).validate(),
        Err(ConfigError::EmptyForward("primary".into()))
    );
    let mut bad_static = connection();
    bad_static.forwards[0].forward = "8080:host".into();
    assert_eq!(
        config_with(vec![bad_static]).validate(),
        Err(ConfigError::InvalidStaticForward {
            connection: "primary".into(),
            forward: "8080:host".into(),
            mode: ForwardMode::Local,
        })
    );
    assert_eq!(
        config_with(vec![connection(), connection()]).validate(),
        Err(ConfigError::DuplicateName("primary".into()))
    );
}

#[test]
fn static_forward_specs_need_numeric_ports() {
    let mut c = connection();
    c.forwards[0].forward = "0.0.0.0:8080:127.0.0.1:80".into();
    assert!(config_with(vec![c.clone()]).validate().is_ok());
    c.forwards[0].forward = "8080:127.0.0.1:http".into();
    assert!(config_with(vec![c.clone()]).validate().is_err());
    c.forwards[0].forward = "+8080:127.0.0.1:65535".into();
    assert!(config_with(vec![c.clone()]).validate().is_ok());
    c.forwards[0].forward = "8080:127.0.0.1:65536".into();
    assert!(config_with(vec![c]).validate().is_err());
}

#[test]
fn defaults_match_the_documented_values() {
    let k = KeepaliveConfig::default();
    assert_eq!((k.interval, k.count_max, k.connect_timeout), (30, 3, 15));
    let r = RetryConfig::default();
    assert_eq!((r.initial_seconds, r.maximum_seconds, r.stable_seconds), (1, 60, 60));
}

#[test]
fn home_config_path_joins_components() {
    assert_eq!(home_config_path("/home/alice", '/'), "/home/alice/.config/autossh/config.toml");
    assert_eq!(home_config_path("/home/alice/", '/'), "/home/alice/.config/autossh/config.toml");
    assert_eq!(home_config_path("C:\\Users\\bob", '\\'), "C:\\Users\\bob\\.config\\autossh\\config.toml");
}

#[test]
fn split_forward_spec_keeps_ipv6_brackets() {
    assert_eq!(split_forward_spec("[::1]:1080"), vec!["[::1]", "1080"]);
    assert_eq!(split_forward_spec("a:b::c"), vec!["a", "b", "", "c"]);
}

#[test]
fn dynamic_forward_port_must_be_one_to_65535() {
    let mut c = connection();
    c.forwards = vec![ForwardConfig {
        enabled: true,
        mode: ForwardMode::Dynamic,
        forward: "0".into(),
        description: None,
    }];
    assert!(config_with(vec![c.clone()]).validate().is_err());
    c.forwards[0].forward = "127.0.0.1:0".into();
    assert!(config_with(vec![c.clone()]).validate().is_err());
    c.forwards[0].forward = "127.0.0.1:1".into();
    assert!(config_with(vec![c.clone()]).validate().is_ok());
    c.forwards[0].forward = "65535".into();
    assert!(config_with(vec![c.clone()]).validate().is_ok());
    c.forwards[0].forward = "65536".into();
    assert!(config_with(vec![c]).validate().is_err());
}

#[test]
fn split_forward_parts_rejoin_to_the_spec() {
    for spec in ["[::1]:1080", "a:b::c", "0.0.0.0:8080:[fe80::1]:80", "", "1080"] {
        let parts = split_forward_spec(spec);
        assert_eq!(parts.join(":"), spec);
    }
    assert_eq!(split_forward_spec("0.0.0.0:8080:[fe80::1]:80").len(), 4);
    assert_eq!(split_forward_spec("").len(), 1);
}

#[test]
fn home_dir_prefers_home_then_userprofile_on_windows() {
    assert_eq!(home_dir_from(Some("/home/a".into()), Some("C:\\Users\\a".into()), true), "/home/a");
    assert_eq!(home_dir_from(None, Some("C:\\Users\\a".into()), true), "C:\\Users\\a");
    assert_eq!(home_dir_from(None, Some("C:\\Users\\a".into()), false), ".");
    assert_eq!(home_dir_from(None, None, true), ".");
    assert_eq!(home_dir_from(Some("/home/a".into()), None, false), "/home/a");
}
