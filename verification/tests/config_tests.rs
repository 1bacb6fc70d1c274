use easyfirewall::config::Config;
use std::path::PathBuf;

#[test]
fn test_default_config() {
    let config = Config::default();
    assert_eq!(config.backend, "nftables");
    assert_eq!(config.tick_rate_ms, 250);
    assert_eq!(PathBuf::from(&config.log_file), PathBuf::from("/var/log/easyfirewall.log"));
    assert_eq!(PathBuf::from(&config.export_dir), PathBuf::from("~/.easyfirewall/exports"));
    assert_eq!(config.auto_save, false);
}

#[test]
fn test_load_config() {
    let config = Config::load().unwrap();
    assert_eq!(config.backend, "nftables");
}

#[test]
fn load_gives_the_default_paths() {
    let config = Config::load().unwrap();
    assert_eq!(config.log_file(), "/var/log/easyfirewall.log");
    assert_eq!(config.export_dir(), "~/.easyfirewall/exports");
    assert_eq!(config.tick_rate_ms, 250);
    assert!(!config.auto_save);
}
