use xfinder::config::default_scan_paths;
use xfinder::config::{AppConfig, IndexingConfig};

#[test]
fn test_default_config() {
    let config = AppConfig::default();
    assert!(!config.scan_paths.is_empty());
    assert_eq!(config.indexing.min_ngram_size, 2);
    assert_eq!(config.indexing.max_ngram_size, 20);
    assert_eq!(config.ui.results_display_limit, 50);
}

#[test]
fn test_config_default() {
    let config = AppConfig::default();
    assert_eq!(config.indexing.min_ngram_size, 2);
    assert_eq!(config.indexing.max_ngram_size, 20);
    assert_eq!(config.ui.results_display_limit, 50);
    assert_eq!(config.system.scheduler_hour, 2);
    assert_eq!(config.system.scheduler_minute, 0);
    assert!(!config.system.autostart_enabled);
    assert!(!config.system.scheduler_enabled);
}

#[test]
fn default_exclusions_hold_the_usual_noise() {
    let config = AppConfig::default();
    assert_eq!(config.exclusions.extensions, vec![".tmp", ".log", ".cache", ".bak"]);
    assert_eq!(
        config.exclusions.patterns,
        vec!["node_modules", ".git", "__pycache__", "target/debug", "target/release"]
    );
    assert!(config.exclusions.dirs.is_empty());
    assert_eq!(config.indexing.max_files_to_index, 100_000);
}

#[test]
fn file_budget_follows_the_limit_switch() {
    let mut ix = IndexingConfig::default();
    assert_eq!(ix.file_budget(), 100_000);
    ix.no_file_limit = true;
    assert_eq!(ix.file_budget(), usize::MAX);
}

#[test]
fn scan_folder_prefers_downloads_then_home() {
    let d = Some("/home/u/Downloads".to_string());
    let h = Some("/home/u".to_string());
    assert_eq!(default_scan_paths(d.clone(), h.clone()), vec!["/home/u/Downloads"]);
    assert_eq!(default_scan_paths(None, h), vec!["/home/u"]);
    assert_eq!(default_scan_paths(None, None), vec![""]);
    let c = AppConfig::with_scan_folders(d, None);
    assert_eq!(c.scan_paths, vec!["/home/u/Downloads"]);
    assert_eq!(c.indexing.max_ngram_size, 20);
}
