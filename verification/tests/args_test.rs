use oqab::args::{Args, ArgsError, ConfigSource, TraversalType};
use oqab::commands::{
    create_command, run, AdvancedSearchCommand, AdvancedSearchError, CommandKind, SearchCommand,
    SearchCommandError, SearchService, StandardSearchCommand,
};
use oqab::config::{ConfigError, FileSearchConfig};
use oqab::entry::{DirNode, FileEntry};
use oqab::manager::ConfigManager;
use oqab::observer::ObserverKind;
use oqab::platform::{OsFamily, Platform};
use oqab::standard_search::SearchError;
use oqab::traversal::TraversalMode;

#[test]
fn to_config_writes_the_command_line_over_the_defaults() {
    let mut args = Args::new();
    args.path = Some(String::from("/src"));
    args.extension = Some(String::from("rs"));
    args.workers = Some(3);
    args.traversal = Some(TraversalType::DepthFirst);
    args.min_size = Some(String::from("1kb"));
    args.max_size = Some(String::from("huge"));
    args.newer_than = Some(String::from("2024-01-01"));
    args.no_recursive = true;
    args.silent = true;
    let config = args.to_config();
    assert_eq!(config.path.as_deref(), Some("/src"));
    assert_eq!(config.file_extension.as_deref(), Some("rs"));
    assert_eq!(config.thread_count, Some(3));
    assert_eq!(config.traversal_mode, TraversalMode::DepthFirst);
    assert_eq!(config.min_size, Some(1024));
    assert_eq!(config.max_size, None);
    assert_eq!(config.newer_than.as_deref(), Some("2024-01-01"));
    assert!(!config.recursive);
    assert!(!config.show_progress);
    assert!(!config.follow_symlinks);
}

#[test]
fn validation_refuses_bad_values() {
    let mut args = Args::new();
    assert!(args.validate(false).is_ok());
    args.workers = Some(0);
    assert!(matches!(args.validate(true), Err(ArgsError::InvalidValue(_))));
    args.workers = Some(1);
    args.path = Some(String::from("/missing"));
    assert!(matches!(args.validate(false), Err(ArgsError::InvalidValue(_))));
    assert!(args.validate(true).is_ok());
    args.min_size = Some(String::from("big"));
    assert!(args.validate(true).is_err());
    args.min_size = Some(String::from("5mb"));
    args.older_than = Some(String::from("2023-13-01"));
    assert!(args.validate(true).is_err());
    args.older_than = Some(String::from("2023-12-01"));
    assert!(args.validate(true).is_ok());
}

#[test]
fn positional_query_becomes_the_name() {
    let mut args = Args::new();
    args.query = Some(String::from("main.rs"));
    let config = args.process(true, ConfigSource::NotRequested).unwrap();
    assert_eq!(config.file_name.as_deref(), Some("main.rs"));
    args.extension = Some(String::from("rs"));
    let config = args.process(true, ConfigSource::NotRequested).unwrap();
    assert_eq!(config.file_name, None);
}

#[test]
fn loaded_configuration_is_overlaid_by_explicit_options() {
    let mut loaded = FileSearchConfig::new();
    loaded.file_extension = Some(String::from("txt"));
    loaded.file_name = Some(String::from("notes"));
    loaded.min_size = Some(7);
    loaded.follow_symlinks = true;
    let mut args = Args::new();
    args.extension = Some(String::from("md"));
    args.quiet = true;
    args.no_recursive = true;
    let config = args.process(true, ConfigSource::Loaded(loaded)).unwrap();
    assert_eq!(config.file_extension.as_deref(), Some("md"));
    assert_eq!(config.file_name.as_deref(), Some("notes"));
    assert_eq!(config.min_size, Some(7));
    assert!(config.follow_symlinks);
    assert!(!config.show_progress);
    assert!(!config.recursive);

    assert!(matches!(
        args.process(true, ConfigSource::Missing),
        Err(ArgsError::ConfigLoadError(_))
    ));
    assert!(matches!(
        args.process(true, ConfigSource::Unreadable(String::from("bad json"))),
        Err(ArgsError::ConfigLoadError(_))
    ));
    args.workers = Some(0);
    assert!(matches!(
        args.process(true, ConfigSource::Missing),
        Err(ArgsError::InvalidValue(_))
    ));
}

#[test]
fn validate_config_wants_something_to_look_for() {
    let mut args = Args::new();
    let mut config = FileSearchConfig::new();
    assert!(!args.validate_config(&config));
    config.pattern = Some(String::from("x"));
    assert!(args.validate_config(&config));
    args.help = true;
    assert!(args.validate_config(&FileSearchConfig::new()));
}

#[test]
fn command_follows_the_configuration() {
    let mut config = FileSearchConfig::new();
    assert_eq!(create_command(&config), CommandKind::Help);
    config.file_name = Some(String::from("a"));
    assert_eq!(create_command(&config), CommandKind::Search);
    config.fuzzy = true;
    assert_eq!(create_command(&config), CommandKind::Fuzzy);
    config.pattern = Some(String::from("x"));
    assert_eq!(create_command(&config), CommandKind::Grep);
    config.help = true;
    assert_eq!(create_command(&config), CommandKind::Help);
}

#[test]
fn run_defaults_to_the_platform_root_with_a_warning() {
    let args = Args::new();
    let mut config = FileSearchConfig::new();
    config.file_extension = Some(String::from("rs"));
    let plan = run(&args, config.duplicate(), &Platform::new(OsFamily::Linux));
    assert_eq!(plan.config.path.as_deref(), Some("/"));
    assert!(plan.warns_of_root);
    assert_eq!(plan.command, CommandKind::Search);

    config.path = Some(String::from("/home"));
    let plan = run(&args, config.duplicate(), &Platform::new(OsFamily::Linux));
    assert!(!plan.warns_of_root);

    let plan = run(&args, FileSearchConfig::new(), &Platform::new(OsFamily::Windows));
    assert_eq!(plan.config.path, None);
    assert!(!plan.warns_of_root);
    assert_eq!(plan.command, CommandKind::Help);
}

#[test]
fn platform_knows_roots_and_common_paths() {
    let linux = Platform::new(OsFamily::Linux);
    assert_eq!(linux.root_directory(), "/");
    assert!(linux.is_root_path("/"));
    assert!(!linux.is_root_path("/home"));
    assert_eq!(linux.common_search_paths(), vec!["/etc", "/usr", "/var", "/home", "/opt"]);
    let windows = Platform::new(OsFamily::Windows);
    assert_eq!(windows.root_directory(), "C:\\");
    assert!(windows.is_root_path("c:\\"));
    assert!(windows.is_root_path("C:\\"));
    assert!(windows.is_root_path("\\"));
    assert!(!windows.is_root_path("/"));
    assert_eq!(windows.common_search_paths().len(), 4);
    assert_eq!(Platform::new(OsFamily::MacOs).common_search_paths().len(), 6);
    let other = Platform::new(OsFamily::Other);
    assert_eq!(other.root_directory(), ".");
    assert!(!other.is_root_path("."));
    assert_eq!(other.common_search_paths(), vec!["."]);
}

#[test]
fn manager_takes_the_first_initialization_only() {
    let mut manager = ConfigManager::new();
    assert!(!manager.is_initialized());
    let mut first = FileSearchConfig::new();
    first.file_name = Some(String::from("first"));
    manager.initialize(first);
    let mut second = FileSearchConfig::new();
    second.file_name = Some(String::from("second"));
    manager.initialize(second.duplicate());
    assert!(manager.is_initialized());
    assert_eq!(manager.get_config().file_name.as_deref(), Some("first"));
    manager.update_config(second);
    assert_eq!(manager.get_config().file_name.as_deref(), Some("second"));
}

#[test]
fn commands_check_their_configuration() {
    let mut config = FileSearchConfig::new();
    let service = SearchService::new();
    assert!(matches!(
        service.validate_config(&config, true, true),
        Err(SearchError::NoCriteriaError)
    ));
    config.file_name = Some(String::from("a"));
    assert!(service.validate_config(&config, true, true).is_ok());
    match service.validate_config(&config, true, false) {
        Err(SearchError::InvalidPathError(path)) => assert_eq!(path, "."),
        other => panic!("unexpected: {:?}", other),
    }
    let standard = StandardSearchCommand::new(config.duplicate());
    assert!(standard.validate_config(true).is_ok());
    assert!(matches!(standard.validate_config(false), Err(SearchCommandError::PathError(_))));
    let advanced = AdvancedSearchCommand::new(config.duplicate());
    assert!(advanced.validate_config(true, true).is_ok());
    assert!(matches!(
        advanced.validate_config(false, false),
        Err(AdvancedSearchError::InvalidPathError(_))
    ));
    assert!(matches!(
        AdvancedSearchCommand::new(FileSearchConfig::new()).validate_config(true, true),
        Err(AdvancedSearchError::NoCriteriaError)
    ));
}

#[test]
fn search_command_picks_observer_and_settings() {
    let mut config = FileSearchConfig::new();
    config.file_extension = Some(String::from("rs"));
    config.max_depth = Some(2);
    let command = SearchCommand::new(&config);
    assert_eq!(command.create_observer().kind(), ObserverKind::Tracking);
    let app = command.create_app_config("/cwd");
    assert_eq!(app.root_dir, "/cwd");
    assert_eq!(app.extension.as_deref(), Some("rs"));
    assert_eq!(app.depth, Some(2));
    assert_eq!(app.follow_links, Some(false));
    config.show_progress = false;
    config.path = Some(String::from("/p"));
    let command = SearchCommand::new(&config);
    assert_eq!(command.create_observer().kind(), ObserverKind::Silent);
    assert_eq!(command.create_app_config("/cwd").root_dir, "/p");
}

#[test]
fn errors_read_as_one_line() {
    assert_eq!(
        ConfigError::ParseError(String::from("c.json")).message(),
        "Failed to parse config file: c.json"
    );
    assert_eq!(
        ArgsError::InvalidValue(String::from("x")).message(),
        "Invalid argument value: x"
    );
}

#[test]
fn service_searches_for_name_extension_or_both() {
    let tree = DirNode::dir(
        "/r",
        vec![
            DirNode::leaf(FileEntry::file("/r/main.rs", 1, 0)),
            DirNode::leaf(FileEntry::file("/r/main.txt", 1, 0)),
            DirNode::leaf(FileEntry::file("/r/lib.rs", 1, 0)),
        ],
    );
    let service = SearchService::new();
    let mut config = FileSearchConfig::new();
    assert!(matches!(
        service.execute_standard_search(&config, Some(&tree)),
        Err(SearchError::NoCriteriaError)
    ));
    config.file_name = Some(String::from("main"));
    assert_eq!(
        service.execute_standard_search(&config, Some(&tree)).unwrap(),
        vec!["/r/main.rs", "/r/main.txt"]
    );
    config.file_extension = Some(String::from("rs"));
    assert_eq!(service.execute_standard_search(&config, Some(&tree)).unwrap(), vec!["/r/main.rs"]);
    assert_eq!(service.execute_advanced_search(&config, Some(&tree)).unwrap(), vec!["/r/main.rs"]);
    config.file_name = None;
    assert_eq!(
        service.execute_advanced_search(&config, Some(&tree)).unwrap(),
        vec!["/r/main.rs", "/r/lib.rs"]
    );
    assert!(matches!(
        service.execute_standard_search(&config, None),
        Err(SearchError::InvalidPathError(_))
    ));
    assert!(matches!(
        service.execute_advanced_search(&config, Some(&tree.children[0])),
        Err(SearchError::InvalidPathError(_))
    ));
}

#[test]
fn help_names_every_option() {
    let lines = oqab::commands::HelpCommand::new().execute();
    assert_eq!(lines[0], "USAGE:");
    assert_eq!(lines.len(), 27);
    for flag in ["--path", "--ext", "--name", "--grep", "--workers", "--save-config", "--older-than"]
    {
        assert!(lines.iter().any(|l| l.contains(flag)), "{}", flag);
    }
}

#[test]
fn search_command_runs_either_search() {
    let tree = DirNode::dir(
        "/r",
        vec![
            DirNode::dir("/r/.cache", vec![DirNode::leaf(FileEntry::file("/r/.cache/x.rs", 1, 0))]),
            DirNode::leaf(FileEntry::file("/r/main.rs", 1, 0)),
            DirNode::leaf(FileEntry::file("/r/notes.txt", 1, 0)),
        ],
    );
    let mut config = FileSearchConfig::new();
    config.file_extension = Some(String::from("rs"));
    assert_eq!(
        SearchCommand::new(&config).execute(&tree, "/cwd").unwrap(),
        vec!["/r/main.rs", "/r/.cache/x.rs"]
    );
    config.advanced_search = true;
    assert_eq!(SearchCommand::new(&config).execute(&tree, "/cwd").unwrap(), vec!["/r/main.rs"]);
    config.older_than = Some(String::from("tomorrow"));
    assert!(matches!(
        SearchCommand::new(&config).execute(&tree, "/cwd"),
        Err(SearchError::InvalidArgument(_))
    ));
    config.older_than = None;
    assert!(matches!(
        SearchCommand::new(&config).execute(&tree.children[1], "/cwd"),
        Err(SearchError::InvalidPathError(_))
    ));
}

#[test]
fn search_commands_map_the_errors_of_the_service() {
    let tree = DirNode::dir("/r", vec![DirNode::leaf(FileEntry::file("/r/main.rs", 1, 0))]);
    let mut config = FileSearchConfig::new();
    assert!(matches!(
        StandardSearchCommand::new(config.duplicate()).execute(Some(&tree)),
        Err(SearchCommandError::NoCriteriaError)
    ));
    assert!(matches!(
        AdvancedSearchCommand::new(config.duplicate()).execute(Some(&tree)),
        Err(AdvancedSearchError::NoCriteriaError)
    ));
    config.file_name = Some(String::from("main"));
    let standard = StandardSearchCommand::new(config.duplicate());
    assert_eq!(standard.execute(Some(&tree)).unwrap(), vec!["/r/main.rs"]);
    assert!(matches!(standard.execute(None), Err(SearchCommandError::PathError(p)) if p == "."));
    assert!(matches!(
        standard.execute(Some(&tree.children[0])),
        Err(SearchCommandError::FinderError(_))
    ));
    let advanced = AdvancedSearchCommand::new(config.duplicate());
    assert_eq!(advanced.execute(Some(&tree)).unwrap(), vec!["/r/main.rs"]);
    assert!(matches!(advanced.execute(None), Err(AdvancedSearchError::InvalidPathError(_))));
}
