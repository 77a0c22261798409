use auto_nvm::config::Config;

#[test]
fn test_default_config() {
    let config = Config::default();
    assert!(!config.quiet);
    assert!(!config.is_quiet());
}

#[test]
fn test_config_from_cli() {
    let config = Config::from_cli(true);
    assert!(config.quiet);
    assert!(config.is_quiet());

    let config = Config::from_cli(false);
    assert!(!config.quiet);
    assert!(!config.is_quiet());
}

#[test]
fn test_new_config() {
    let config = Config::new();
    assert!(!config.quiet);
}
