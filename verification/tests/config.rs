use imgen::config::{config_dir, config_path, Config};
use std::path::Path;

#[test]
fn test_get_config_path_returns_some() {
    let path = config_path(None, Some("/home/user")).expect("Config path should be Some");
    assert!(Path::new(&path).ends_with(Path::new("imgen").join("config.json")));
}

#[test]
fn test_config_path_prefers_xdg_config_home() {
    assert_eq!(
        config_path(Some("/xdg"), Some("/home/user")),
        Some("/xdg/imgen/config.json".to_string())
    );
    assert_eq!(config_dir(Some("/xdg/"), None), Some("/xdg/imgen".to_string()));
}

#[test]
fn test_config_path_falls_back_to_home() {
    assert_eq!(
        config_path(None, Some("/home/user")),
        Some("/home/user/.config/imgen/config.json".to_string())
    );
    assert_eq!(config_dir(None, Some("/home/user")), Some("/home/user/.config/imgen".to_string()));
}

#[test]
fn test_config_path_without_environment() {
    assert_eq!(config_path(None, None), None);
    assert_eq!(config_dir(None, None), None);
}

#[test]
fn test_default_config_has_no_key() {
    assert_eq!(Config::default().openai_api_key, None);
}
