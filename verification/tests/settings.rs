use thor::config::{ConfigSource, LogLevel, Settings};

fn sample(level: &str) -> Settings {
    Settings {
        logging_level: level.to_string(),
        crl_url: "http://crl".to_string(),
        tls_definition: "tls.json".to_string(),
        crl_update_interval: 60,
        downstream_addr: "0.0.0.0:8883".to_string(),
        upstream_addr: "127.0.0.1:1883".to_string(),
        peer_cert_as_username: true,
        peer_cert_as_clientid: false,
    }
}

#[test]
fn settings_are_loaded_from_three_layers() {
    let mut seen: Vec<ConfigSource> = Vec::new();
    let s: Result<Settings, String> = Settings::new("config.toml".to_string(), |sources| {
        seen = sources;
        Ok(sample("info"))
    });
    assert_eq!(s.unwrap().crl_update_interval, 60);
    assert_eq!(seen.len(), 3);
    match &seen[0] {
        ConfigSource::File { path, required } => {
            assert_eq!(path, "config.toml");
            assert!(*required);
        }
        other => panic!("unexpected {:?}", other),
    }
    match &seen[1] {
        ConfigSource::NamedFile { name, required } => {
            assert_eq!(name, "local-config");
            assert!(!*required);
        }
        other => panic!("unexpected {:?}", other),
    }
    match &seen[2] {
        ConfigSource::Environment { prefix } => assert_eq!(prefix, "TH"),
        other => panic!("unexpected {:?}", other),
    }
}

#[test]
fn settings_loader_error_is_returned() {
    let s: Result<Settings, String> =
        Settings::new("x.toml".to_string(), |_| Err("missing field".to_string()));
    assert_eq!(s.unwrap_err(), "missing field");
}

#[test]
fn log_levels() {
    assert_eq!(sample("debug").log_level(), LogLevel::Debug);
    assert_eq!(sample("warn").log_level(), LogLevel::Warn);
    assert_eq!(sample("error").log_level(), LogLevel::Error);
    assert_eq!(sample("info").log_level(), LogLevel::Info);
    assert_eq!(sample("INFO").log_level(), LogLevel::Trace);
    assert_eq!(sample("").log_level(), LogLevel::Trace);
}

#[test]
fn interrupt_and_kill_stop_the_daemon() {
    assert!(thor::signals::stops_daemon(signal_hook::consts::SIGINT));
    assert!(thor::signals::stops_daemon(signal_hook::consts::SIGKILL));
    assert!(!thor::signals::stops_daemon(signal_hook::consts::SIGTERM));
    assert!(!thor::signals::stops_daemon(signal_hook::consts::SIGHUP));
}
