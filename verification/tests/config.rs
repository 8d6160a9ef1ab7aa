use reverse_proxy::config::{
    default_health_check_interval, default_health_check_path, default_health_check_timeout,
    default_listen_addr, Algorithm, BackendConfig, Config, ConfigError, ConfigFile, FileOutcome,
};

fn empty_file() -> ConfigFile {
    ConfigFile {
        listen_addr: None,
        algorithm: None,
        health_check_interval_secs: None,
        health_check_timeout_secs: None,
        health_check_path: None,
        backends: None,
    }
}

#[test]
fn defaults_have_their_documented_values() {
    assert_eq!(default_health_check_interval(), 5);
    assert_eq!(default_health_check_timeout(), 2);
    assert_eq!(default_health_check_path(), "/health");
    assert_eq!(default_listen_addr(), "127.0.0.1:8080");
    assert_eq!(Algorithm::default(), Algorithm::RoundRobin);
}

#[test]
fn an_empty_file_stands_for_the_defaults() {
    let config = Config::load("config.toml", FileOutcome::Parsed(empty_file())).unwrap();
    assert_eq!(config.listen_addr, "127.0.0.1:8080");
    assert_eq!(config.algorithm, Algorithm::RoundRobin);
    assert_eq!(config.health_check_interval_secs, 5);
    assert_eq!(config.health_check_timeout_secs, 2);
    assert_eq!(config.health_check_path, "/health");
    assert!(config.backends.is_empty());
}

#[test]
fn a_full_file_is_taken_as_it_is() {
    let file = ConfigFile {
        listen_addr: Some("0.0.0.0:80".to_string()),
        algorithm: Some(Algorithm::LeastConnections),
        health_check_interval_secs: Some(3),
        health_check_timeout_secs: Some(1),
        health_check_path: Some("/ping".to_string()),
        backends: Some(vec![
            BackendConfig {
                addr: "http://127.0.0.1:9001".to_string(),
            },
            BackendConfig {
                addr: "http://127.0.0.1:9002".to_string(),
            },
        ]),
    };
    let config = file.complete().clone();
    assert_eq!(config.listen_addr, "0.0.0.0:80");
    assert_eq!(config.algorithm, Algorithm::LeastConnections);
    assert_eq!(config.health_check_interval_secs, 3);
    assert_eq!(config.health_check_timeout_secs, 1);
    assert_eq!(config.health_check_path, "/ping");
    let addrs: Vec<&str> = config.backends.iter().map(|b| b.addr.as_str()).collect();
    assert_eq!(addrs, vec!["http://127.0.0.1:9001", "http://127.0.0.1:9002"]);
}

#[test]
fn a_file_that_cannot_be_read_is_named_in_the_error() {
    let error = Config::load("a.toml", FileOutcome::Unreadable("gone".to_string())).unwrap_err();
    assert!(matches!(error, ConfigError::Read { .. }));
    assert_eq!(error.message(), "failed to read config file a.toml: gone");
}

#[test]
fn a_file_that_cannot_be_parsed_is_named_in_the_error() {
    let error = Config::load("a.toml", FileOutcome::Malformed("bad".to_string())).unwrap_err();
    assert!(matches!(error, ConfigError::Parse { .. }));
    assert_eq!(error.message(), "failed to parse config file a.toml: bad");
}

#[test]
fn algorithms_are_reported_by_name() {
    assert_eq!(Algorithm::RoundRobin.label(), "RoundRobin");
    assert_eq!(Algorithm::LeastConnections.label(), "LeastConnections");
}
