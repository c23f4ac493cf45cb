use omarchy_batch_monitor::config::{
    config_path, config_path_in, example_path_from, Config, ConfigError, FileConfig,
};

fn no_file() -> FileConfig {
    FileConfig { api_key: None, organization: None, project: None, refresh_secs: None }
}

#[test]
fn cli_key_wins_over_env_and_file() {
    let file = FileConfig {
        api_key: Some("sk-file".to_string()),
        organization: Some("org-file".to_string()),
        project: Some("proj-file".to_string()),
        refresh_secs: Some(30),
    };
    let c = Config::resolve(
        Some("sk-cli".to_string()),
        None,
        Some("sk-env".to_string()),
        None,
        None,
        file,
    )
    .unwrap();
    assert_eq!(c.api_key, "sk-cli");
    assert_eq!(c.organization.as_deref(), Some("org-file"));
    assert_eq!(c.project.as_deref(), Some("proj-file"));
    assert_eq!(c.refresh_secs, 30);
}

#[test]
fn env_key_wins_over_file() {
    let file = FileConfig { api_key: Some("sk-file".to_string()), ..no_file() };
    let c = Config::resolve(
        None,
        Some(60),
        Some("sk-env".to_string()),
        Some("org-env".to_string()),
        Some("proj-env".to_string()),
        file,
    )
    .unwrap();
    assert_eq!(c.api_key, "sk-env");
    assert_eq!(c.organization.as_deref(), Some("org-env"));
    assert_eq!(c.project.as_deref(), Some("proj-env"));
    assert_eq!(c.refresh_secs, 60);
}

#[test]
fn file_key_is_the_last_resort() {
    let file = FileConfig { api_key: Some("sk-file".to_string()), ..no_file() };
    let c = Config::resolve(None, None, None, None, None, file).unwrap();
    assert_eq!(c.api_key, "sk-file");
    assert!(c.organization.is_none() && c.project.is_none());
    assert_eq!(c.refresh_secs, 15);
}

#[test]
fn missing_key_is_an_error() {
    let r = Config::resolve(None, Some(10), None, Some("org".to_string()), None, no_file());
    let e = r.unwrap_err();
    assert_eq!(e, ConfigError::MissingApiKey);
    assert_eq!(
        e.message(),
        "no OpenAI API key found. Set OPENAI_API_KEY, pass --api-key, or add api_key to the config file"
    );
}

#[test]
fn refresh_interval_is_at_least_three() {
    let c = Config::resolve(Some("k".to_string()), Some(1), None, None, None, no_file()).unwrap();
    assert_eq!(c.refresh_secs, 3);
    let file = FileConfig { refresh_secs: Some(0), ..no_file() };
    let c = Config::resolve(Some("k".to_string()), None, None, None, None, file).unwrap();
    assert_eq!(c.refresh_secs, 3);
    let file = FileConfig { refresh_secs: Some(100), ..no_file() };
    let c = Config::resolve(Some("k".to_string()), Some(4), None, None, None, file).unwrap();
    assert_eq!(c.refresh_secs, 4);
}

#[test]
fn config_path_in_joins_file_name() {
    assert_eq!(
        config_path_in(Some(b"/home/alice/.config/omarchy-batch-monitor".to_vec()), b'/'),
        Some(b"/home/alice/.config/omarchy-batch-monitor/config.toml".to_vec())
    );
    assert_eq!(config_path_in(Some(b"/".to_vec()), b'/'), Some(b"/config.toml".to_vec()));
    assert_eq!(config_path_in(Some(b"/etc/app/".to_vec()), b'/'), Some(b"/etc/app/config.toml".to_vec()));
    assert_eq!(config_path_in(Some(Vec::new()), b'/'), Some(b"config.toml".to_vec()));
    assert_eq!(config_path_in(None, b'/'), None);
}

#[test]
fn config_path_in_keeps_non_utf8_bytes() {
    assert_eq!(
        config_path_in(Some(vec![b'/', 0xff, b'x']), b'/'),
        Some(vec![b'/', 0xff, b'x', b'/', b'c', b'o', b'n', b'f', b'i', b'g', b'.', b't', b'o', b'm', b'l'])
    );
}

#[test]
fn config_path_in_uses_the_given_separator() {
    assert_eq!(
        config_path_in(Some(b"C:\\Users\\alice\\AppData".to_vec()), b'\\'),
        Some(b"C:\\Users\\alice\\AppData\\config.toml".to_vec())
    );
    assert_eq!(
        config_path_in(Some(b"C:\\data\\".to_vec()), b'\\'),
        Some(b"C:\\data\\config.toml".to_vec())
    );
    assert_eq!(config_path_in(Some(b"C:/data/".to_vec()), b'\\'), Some(b"C:/data/config.toml".to_vec()));
}

#[test]
fn example_path_names_config_file() {
    let p = Config::example_path();
    assert!(p.ends_with("config.toml"));
    match config_path() {
        Some(path) => assert_eq!(p, String::from_utf8_lossy(&path)),
        None => assert_eq!(p, "~/.config/omarchy-batch-monitor/config.toml"),
    }
}

#[test]
fn example_path_from_uses_the_path_or_the_fallback() {
    assert_eq!(
        example_path_from(Some(b"/home/alice/.config/omarchy-batch-monitor/config.toml".to_vec())),
        "/home/alice/.config/omarchy-batch-monitor/config.toml"
    );
    assert_eq!(example_path_from(Some(vec![b'/', 0xff, b'a'])), "/\u{FFFD}a");
    assert_eq!(example_path_from(None), "~/.config/omarchy-batch-monitor/config.toml");
}
