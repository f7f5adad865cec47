use fetchline::host_config::{
    load_host_config, put_config, validate_host_config, ConfigNotice, HostConfig, SavedConfig,
};
use fetchline::host_log::{
    enabled, host_config_path, host_log_path, log_archive_extension, log_is_full,
    log_level_from_environment, log_line, rotate_log_file, startup_options, LogLevel, PathBase,
    Rename, TransportMode,
};
use fetchline::text::{
    has_prefix, push_hex_byte, push_signed_decimal, same_text, trim, utf8_text,
};
use std::collections::HashMap;

fn arguments(arguments: &[&str]) -> Vec<String> {
    arguments.iter().map(|argument| argument.to_string()).collect()
}

#[test]
fn persists_and_loads_host_configuration() {
    let mut config = HostConfig::default();
    config.endpoint.host = "192.168.178.146".to_owned();
    config.joints[1].enabled = false;

    let stored = put_config(config).unwrap();
    let (loaded, warning) = load_host_config(SavedConfig::Parsed(stored));
    assert_eq!(loaded.endpoint.host, "192.168.178.146");
    assert!(!loaded.joints[1].enabled);
    assert!(warning.is_none());
}

#[test]
fn invalid_saved_configuration_falls_back_to_defaults() {
    let (loaded, warning) =
        load_host_config(SavedConfig::Unusable("expected ident".to_owned()));
    assert_eq!(loaded.endpoint.host, HostConfig::default().endpoint.host);
    assert_eq!(loaded.joints.len(), 6);
    assert!(matches!(
        warning,
        Some(ConfigNotice::Ignored(reason)) if reason == "expected ident"
    ));

    let mut config = HostConfig::default();
    config.motor.id = 254;
    let (loaded, warning) = load_host_config(SavedConfig::Parsed(config));
    assert_eq!(loaded.motor.id, 1);
    assert!(matches!(
        warning,
        Some(ConfigNotice::Ignored(reason)) if reason == "motor ID must be between 1 and 253"
    ));

    let (loaded, warning) =
        load_host_config(SavedConfig::Unreadable("permission denied".to_owned()));
    assert_eq!(loaded.motor.id, 1);
    assert!(matches!(
        warning,
        Some(ConfigNotice::Unreadable(reason)) if reason == "permission denied"
    ));

    let (loaded, warning) = load_host_config(SavedConfig::Missing);
    assert_eq!(loaded.endpoint.port, 3333);
    assert!(warning.is_none());
}

#[test]
fn configuration_api_persists_shared_settings() {
    let mut config = HostConfig::default();
    config.endpoint.host = "192.168.178.146".to_owned();
    config.motor.enabled = false;
    let stored = put_config(config).unwrap();
    assert_eq!(stored.endpoint.host, "192.168.178.146");
    assert!(!stored.motor.enabled);
    let (loaded, notice) = load_host_config(SavedConfig::Parsed(stored));
    assert_eq!(loaded.endpoint.host, "192.168.178.146");
    assert!(notice.is_none());
}

#[test]
fn stored_host_names_have_no_space_around_them() {
    let mut config = HostConfig::default();
    config.endpoint.host = " 192.168.178.146\n".to_owned();
    let stored = put_config(config).unwrap();
    assert_eq!(stored.endpoint.host, "192.168.178.146");
    let again = put_config(stored).unwrap();
    assert_eq!(again.endpoint.host, "192.168.178.146");
}

#[test]
fn configuration_api_rejects_invalid_servo_settings() {
    let mut config = HostConfig::default();
    config.joints.clear();
    assert_eq!(
        put_config(config).unwrap_err(),
        "exactly six position servo configurations are required"
    );
}

#[test]
fn the_default_configuration_controls_seven_servos() {
    let config = HostConfig::default();
    assert_eq!(config.endpoint.host, "192.168.1.123");
    assert_eq!(
        (config.motor.id, config.motor.enabled, config.motor.speed_percent),
        (1, true, 25)
    );
    assert_eq!(config.motor.acceleration, 20);
    let ids: Vec<u8> = config.joints.iter().map(|joint| joint.id).collect();
    assert_eq!(ids, [2, 3, 4, 5, 6, 7]);
    assert!(config
        .joints
        .iter()
        .all(|joint| joint.enabled && joint.acceleration == 20 && joint.torque_percent == 100));
    assert_eq!(validate_host_config(&config), Ok(()));
}

#[test]
fn explains_what_is_wrong_with_a_configuration() {
    let refuse = |change: fn(&mut HostConfig)| {
        let mut config = HostConfig::default();
        change(&mut config);
        validate_host_config(&config).unwrap_err()
    };
    assert_eq!(
        refuse(|config| config.endpoint.host = " ".to_owned()),
        "MCU host and TCP port are required"
    );
    assert_eq!(
        refuse(|config| config.endpoint.port = 0),
        "MCU host and TCP port are required"
    );
    assert_eq!(refuse(|config| config.motor.id = 0), "motor ID must be between 1 and 253");
    assert_eq!(
        refuse(|config| config.motor.speed_percent = 101),
        "motor speed percentage must be between 0 and 100"
    );
    assert_eq!(
        refuse(|config| config.joints[5].id = 255),
        "servo IDs must be between 1 and 253"
    );
    assert_eq!(
        refuse(|config| {
            config.joints[3].torque_percent = 101;
            config.joints[4].id = 0;
        }),
        "holding torque percentage must be between 0 and 100"
    );
}

#[test]
fn rotates_host_logs_without_losing_recent_archives() {
    let mut files = HashMap::from([(0, "current"), (1, "previous"), (2, "older"), (3, "oldest")]);
    for Rename { from, to } in rotate_log_file([true, true]) {
        let contents = files.remove(&from).unwrap();
        files.insert(to, contents);
    }
    files.insert(0, "new");
    assert_eq!(files[&0], "new");
    assert_eq!(files[&1], "current");
    assert_eq!(files[&2], "previous");
    assert_eq!(files[&3], "older");
    assert_eq!(rotate_log_file([false, false]), [Rename { from: 0, to: 1 }]);
    assert_eq!(
        rotate_log_file([false, true]),
        [Rename { from: 2, to: 3 }, Rename { from: 0, to: 1 }]
    );
    assert_eq!(log_archive_extension(1), "log.1");
    assert!(log_is_full(5 * 1024 * 1024) && !log_is_full(5 * 1024 * 1024 - 1));
}

#[test]
fn reads_the_command_line() {
    assert_eq!(
        startup_options(&arguments(&[])),
        Ok(("0.0.0.0:8787".to_owned(), TransportMode::Controller))
    );
    assert_eq!(
        startup_options(&arguments(&["127.0.0.1:9000", "--debug-raw-tunnel"])),
        Ok(("127.0.0.1:9000".to_owned(), TransportMode::DebugRawTunnel))
    );
    assert_eq!(
        startup_options(&arguments(&["--debug-raw-tunnel", "--debug-raw-tunnel"])),
        Ok(("0.0.0.0:8787".to_owned(), TransportMode::DebugRawTunnel))
    );
    assert_eq!(
        startup_options(&arguments(&["a", "b"])),
        Err("usage: fetchline-host [--debug-raw-tunnel] [listen-address]")
    );
}

#[test]
fn chooses_where_files_stand() {
    assert_eq!(host_log_path(true, true), (PathBase::Xdg, "fetchline-host/fetchline-host.log"));
    assert_eq!(
        host_log_path(false, true),
        (PathBase::Home, ".local/state/fetchline-host/fetchline-host.log")
    );
    assert_eq!(
        host_log_path(false, false),
        (PathBase::WorkingDirectory, "fetchline-host.log")
    );
    assert_eq!(host_config_path(true, false), (PathBase::Xdg, "fetchline-host/config.json"));
    assert_eq!(
        host_config_path(false, true),
        (PathBase::Home, ".config/fetchline-host/config.json")
    );
    assert_eq!(
        host_config_path(false, false),
        (PathBase::WorkingDirectory, "fetchline-host-config.json")
    );
}

#[test]
fn selects_and_writes_log_levels() {
    for (value, level) in [
        (Some("debug"), LogLevel::Debug),
        (Some("trace"), LogLevel::Trace),
        (Some("warn"), LogLevel::Warn),
        (Some("error"), LogLevel::Error),
        (Some("info"), LogLevel::Info),
        (Some("DEBUG"), LogLevel::Info),
        (None, LogLevel::Info),
    ] {
        assert_eq!(log_level_from_environment(value), level);
    }
    assert!(enabled(LogLevel::Warn, LogLevel::Info));
    assert!(enabled(LogLevel::Info, LogLevel::Info));
    assert!(!enabled(LogLevel::Debug, LogLevel::Info));
    assert_eq!(
        log_line(Some((1700000000, 7)), LogLevel::Info, "started"),
        "1700000000.007 INFO  started"
    );
    assert_eq!(log_line(Some((1, 42)), LogLevel::Error, ""), "1.042 ERROR ");
    assert_eq!(log_line(Some((0, 999)), LogLevel::Warn, "x"), "0.999 WARN  x");
    assert_eq!(log_line(None, LogLevel::Debug, "x"), "before-unix-epoch DEBUG x");
}

#[test]
fn handles_text_like_the_standard_library() {
    for text in ["", " a ", "\u{2003}\u{85}b\tc\u{a0}", "\u{200b}", "x"] {
        assert_eq!(trim(text), text.trim());
    }
    assert!(has_prefix("abc", "ab") && has_prefix("abc", "") && !has_prefix("a", "ab"));
    assert!(same_text("\u{fc}", "\u{fc}") && !same_text("a", "b") && !same_text("a", "ab"));
    let mut text = String::new();
    push_signed_decimal(&mut text, i64::MIN);
    push_signed_decimal(&mut text, 0);
    push_hex_byte(&mut text, 0x0f);
    push_hex_byte(&mut text, 0xa0);
    assert_eq!(text, "-922337203685477580800fa0");
    assert_eq!(utf8_text("gr\u{fc}n".as_bytes()), Some("gr\u{fc}n"));
    assert_eq!(utf8_text(&[0xc3]), None);
}
