use autocopy::config::AppConfig;
use autocopy::copy::is_skip_entry;

#[test]
fn test_default_config() {
    let config = AppConfig::default();
    assert_eq!(config.max_versions, 3);
    assert!(!config.schedule_enabled);
    assert!(config.schedule_time.is_none());
}

#[test]
fn test_skip_files() {
    assert!(is_skip_entry("C:/Thumbs.db"));
    assert!(is_skip_entry("D:/folder/desktop.ini"));
    assert!(!is_skip_entry("D:/folder/document.txt"));
}
