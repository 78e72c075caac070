use oqab::config::{AppConfig, FileSearchConfig};
use oqab::traversal::TraversalMode;

#[test]
fn test_app_config_defaults() {
    let config = AppConfig {
        root_dir: String::from("/test/path"),
        extension: None,
        name: None,
        pattern: None,
        min_size: None,
        max_size: None,
        newer_than: None,
        older_than: None,
        size: None,
        depth: None,
        threads: None,
        follow_links: None,
        show_progress: None,
        quiet: None,
    };

    assert_eq!(config.root_dir, String::from("/test/path"));
    assert_eq!(config.extension, None);
    assert_eq!(config.name, None);
    assert_eq!(config.pattern, None);
    assert_eq!(config.min_size, None);
    assert_eq!(config.max_size, None);
    assert_eq!(config.newer_than, None);
    assert_eq!(config.older_than, None);
    assert_eq!(config.size, None);
    assert_eq!(config.depth, None);
    assert_eq!(config.threads, None);
    assert_eq!(config.follow_links, None);
    assert_eq!(config.show_progress, None);
}

#[test]
fn test_file_search_config() {
    let mut config = FileSearchConfig::new();
    config.path = Some(String::from("/test/path"));
    config.file_extension = Some(String::from("txt"));
    config.file_name = Some(String::from("test"));
    config.advanced_search = true;
    config.thread_count = Some(4);
    config.show_progress = true;
    config.recursive = true;
    config.follow_symlinks = false;
    config.traversal_mode = Default::default();
    config.min_size = Some(1000);
    config.max_size = Some(5000);
    config.newer_than = Some(String::from("2023-01-01"));
    config.older_than = Some(String::from("2023-12-31"));

    assert_eq!(config.path, Some(String::from("/test/path")));
    assert_eq!(config.file_extension, Some(String::from("txt")));
    assert_eq!(config.file_name, Some(String::from("test")));
    assert!(config.advanced_search);
    assert_eq!(config.thread_count, Some(4));
    assert!(config.show_progress);
    assert!(config.recursive);
    assert!(!config.follow_symlinks);
    assert_eq!(config.min_size, Some(1000));
    assert_eq!(config.max_size, Some(5000));
    assert_eq!(config.newer_than, Some(String::from("2023-01-01")));
    assert_eq!(config.older_than, Some(String::from("2023-12-31")));
}

#[test]
fn test_file_search_config_defaults() {
    let mut config = FileSearchConfig::new();
    config.path = None;
    config.file_extension = None;
    config.file_name = None;
    config.advanced_search = false;
    config.thread_count = None;
    config.show_progress = false;
    config.recursive = false;
    config.follow_symlinks = false;
    config.traversal_mode = Default::default();
    config.min_size = None;
    config.max_size = None;
    config.newer_than = None;
    config.older_than = None;

    assert_eq!(config.path, None);
    assert_eq!(config.file_extension, None);
    assert_eq!(config.file_name, None);
    assert!(!config.advanced_search);
    assert_eq!(config.thread_count, None);
    assert!(!config.show_progress);
    assert!(!config.recursive);
    assert!(!config.follow_symlinks);
    assert_eq!(config.min_size, None);
    assert_eq!(config.max_size, None);
    assert_eq!(config.newer_than, None);
    assert_eq!(config.older_than, None);
}

#[test]
fn new_config_has_the_documented_defaults() {
    let config = FileSearchConfig::new();
    assert!(config.show_progress);
    assert!(config.recursive);
    assert!(!config.follow_symlinks);
    assert!(!config.advanced_search);
    assert_eq!(config.traversal_mode, TraversalMode::BreadthFirst);
    assert_eq!(config.max_depth, None);
    assert_eq!(config.get_path(), ".");
}

#[test]
fn get_path_prefers_the_configured_path() {
    let mut config = FileSearchConfig::new();
    config.path = Some(String::from("/srv/data"));
    assert_eq!(config.get_path(), "/srv/data");
    let copy = config.duplicate();
    assert_eq!(copy.path, Some(String::from("/srv/data")));
}
