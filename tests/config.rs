use monitor_server::settings::{Config, Setting};

#[test]
fn test_load_config_defaults() {
    let config = Config::from_file("nonexistent_config").unwrap();
    assert_eq!(config.server_address, "0.0.0.0");
    assert_eq!(config.server_port, 8550);
    assert_eq!(config.htpasswd_path, "/etc/monitor_server/htpasswd");
    assert_eq!(config.services_path, "/etc/monitor_server/services.toml");
}

#[test]
fn test_load_config_override() {
    // The settings that the `test_config` file holds.
    let config = Config::from_settings(
        Setting::Missing,
        Setting::Missing,
        Setting::Found("127.0.0.1".to_string()),
        Setting::Found(8080),
        Setting::Found("/custom/path/htpasswd".to_string()),
        Setting::Missing,
    )
    .unwrap();
    assert_eq!(config.server_address, "127.0.0.1");
    assert_eq!(config.server_port, 8080);
    assert_eq!(config.htpasswd_path, "/custom/path/htpasswd");
}

#[test]
fn missing_settings_take_their_defaults() {
    let config = Config::from_settings(
        Setting::Missing,
        Setting::Missing,
        Setting::Missing,
        Setting::Missing,
        Setting::Missing,
        Setting::Missing,
    )
    .unwrap();
    assert_eq!(config.log_level, "info");
    assert_eq!(config.log_file, "server.log");
    assert_eq!(config.server_address, "0.0.0.0");
    assert_eq!(config.server_port, 8550);
}

#[test]
fn found_settings_replace_defaults() {
    let config = Config::from_settings(
        Setting::Found("debug".to_string()),
        Setting::Missing,
        Setting::Found("127.0.0.1".to_string()),
        Setting::Found(8080),
        Setting::Found("/custom/path/htpasswd".to_string()),
        Setting::Missing,
    )
    .unwrap();
    assert_eq!(config.log_level, "debug");
    assert_eq!(config.server_address, "127.0.0.1");
    assert_eq!(config.server_port, 8080);
    assert_eq!(config.htpasswd_path, "/custom/path/htpasswd");
    assert_eq!(config.services_path, "/etc/monitor_server/services.toml");
}

#[test]
fn an_unreadable_setting_fails_the_configuration() {
    let err = config::ConfigError::Message("bad port".to_string());
    let r = Config::from_settings(
        Setting::Missing,
        Setting::Missing,
        Setting::Missing,
        Setting::Invalid(err),
        Setting::Missing,
        Setting::Missing,
    );
    assert!(r.is_err());
}
