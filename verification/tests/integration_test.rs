use oqab::config::FileSearchConfig;
use oqab::entry::{DirNode, FileEntry};
use oqab::observer::{SearchObserver, TrackingObserver};
use oqab::standard_search::{match_file, resolve_dates, search_directory, SearchError};

fn create_test_file(path: &str, size: u64) -> DirNode {
    DirNode::leaf(FileEntry::file(path, size, 1_700_000_000))
}

fn create_test_directory() -> DirNode {
    DirNode::dir(
        "/t",
        vec![
            DirNode::dir(
                "/t/subdir1",
                vec![
                    create_test_file("/t/subdir1/file3.txt", 1500),
                    create_test_file("/t/subdir1/image.jpg", 3000),
                ],
            ),
            DirNode::dir(
                "/t/subdir2",
                vec![
                    DirNode::dir(
                        "/t/subdir2/subdir3",
                        vec![create_test_file("/t/subdir2/subdir3/config.txt", 500)],
                    ),
                    create_test_file("/t/subdir2/document.pdf", 5000),
                ],
            ),
            create_test_file("/t/file1.txt", 1000),
            create_test_file("/t/file2.log", 2000),
        ],
    )
}

fn size_of(tree: &DirNode, path: &str) -> Option<u64> {
    if tree.entry.path == path {
        return tree.entry.size;
    }
    tree.children.iter().find_map(|child| size_of(child, path))
}

#[test]
fn test_search_directory_with_size_filter() {
    let tree = create_test_directory();
    let mut config = FileSearchConfig::new();
    config.path = Some(String::from("/t"));
    config.show_progress = true;
    config.recursive = true;
    config.min_size = Some(2000);

    let mut observer = TrackingObserver::new();
    let results = search_directory(&tree, &config, &mut observer).expect("Search operation failed");

    assert_eq!(results.len(), 3);
    for path in &results {
        assert!(size_of(&tree, path).expect("Failed to get file metadata") >= 2000);
    }
}

#[test]
fn test_recursive_search() {
    let tree = create_test_directory();

    let mut non_recursive_config = FileSearchConfig::new();
    non_recursive_config.path = Some(String::from("/t"));
    non_recursive_config.show_progress = false;
    non_recursive_config.recursive = false;

    let mut observer1 = TrackingObserver::new();
    let non_recursive_results = search_directory(&tree, &non_recursive_config, &mut observer1)
        .expect("Non-recursive search failed");
    assert_eq!(non_recursive_results.len(), 2);

    let mut recursive_config = FileSearchConfig::new();
    recursive_config.path = Some(String::from("/t"));
    recursive_config.show_progress = false;
    recursive_config.recursive = true;

    let mut observer2 = TrackingObserver::new();
    let recursive_results = search_directory(&tree, &recursive_config, &mut observer2)
        .expect("Recursive search failed");
    assert_eq!(recursive_results.len(), 6);
    assert_eq!(observer2.files_count(), 6);
    assert_eq!(observer2.directories_count(), 4);
}

#[test]
fn scenario_non_recursive_versus_recursive() {
    let tree = DirNode::dir(
        "/r",
        vec![
            create_test_file("/r/a.rs", 1),
            create_test_file("/r/b.txt", 1),
            DirNode::dir(
                "/r/sub",
                vec![create_test_file("/r/sub/c.rs", 1), create_test_file("/r/sub/d.log", 1)],
            ),
        ],
    );
    let mut config = FileSearchConfig::new();
    config.file_extension = Some(String::from("rs"));
    config.recursive = false;
    let mut observer = TrackingObserver::new();
    assert_eq!(search_directory(&tree, &config, &mut observer).unwrap(), vec!["/r/a.rs"]);
    config.recursive = true;
    let mut observer = TrackingObserver::new();
    assert_eq!(
        search_directory(&tree, &config, &mut observer).unwrap(),
        vec!["/r/a.rs", "/r/sub/c.rs"]
    );
    config.max_depth = Some(0);
    let mut observer = TrackingObserver::new();
    assert_eq!(search_directory(&tree, &config, &mut observer).unwrap(), vec!["/r/a.rs"]);
}

#[test]
fn standard_search_refuses_a_bad_root_and_a_bad_date() {
    let config = FileSearchConfig::new();
    let mut observer = TrackingObserver::new();
    match search_directory(&create_test_file("/t/file1.txt", 1), &config, &mut observer) {
        Err(SearchError::InvalidPathError(path)) => assert_eq!(path, "/t/file1.txt"),
        other => panic!("unexpected: {:?}", other),
    }
    let mut dated = FileSearchConfig::new();
    dated.newer_than = Some(String::from("01/02/2023"));
    assert!(matches!(
        search_directory(&create_test_directory(), &dated, &mut observer),
        Err(SearchError::InvalidArgument(_))
    ));
    assert_eq!(observer.directories_count(), 0);
}

#[test]
fn match_file_applies_every_criterion() {
    let mut config = FileSearchConfig::new();
    config.file_extension = Some(String::from(".TXT"));
    config.file_name = Some(String::from("REPORT"));
    config.min_size = Some(10);
    config.max_size = Some(20);
    config.newer_than = Some(String::from("1970-01-02"));
    config.older_than = Some(String::from("1970-01-03"));
    let dates = resolve_dates(&config).unwrap();
    let good = FileEntry::file("/d/annual-report.txt", 15, 86_400);
    assert!(match_file(&good, &config, &dates));
    assert!(!match_file(&FileEntry::file("/d/annual-report.md", 15, 86_400), &config, &dates));
    assert!(!match_file(&FileEntry::file("/d/annual.txt", 15, 86_400), &config, &dates));
    assert!(!match_file(&FileEntry::file("/d/report.txt", 9, 86_400), &config, &dates));
    assert!(!match_file(&FileEntry::file("/d/report.txt", 21, 86_400), &config, &dates));
    assert!(!match_file(&FileEntry::file("/d/report.txt", 15, 86_399), &config, &dates));
    assert!(match_file(&FileEntry::file("/d/report.txt", 15, 259_199), &config, &dates));
    assert!(!match_file(&FileEntry::file("/d/report.txt", 15, 259_200), &config, &dates));

    let open = FileSearchConfig::new();
    let none = resolve_dates(&open).unwrap();
    let mut bare = FileEntry::file("/d/x", 0, 0);
    bare.size = None;
    bare.modified = None;
    assert!(match_file(&bare, &open, &none));
}

#[test]
fn search_errors_read_as_one_line() {
    assert_eq!(SearchError::NoCriteriaError.message(), "No search criteria provided");
    assert_eq!(
        SearchError::InvalidPathError(String::from("/x")).message(),
        "Invalid search path: /x"
    );
}

#[test]
fn test_finder_factory_create_standard_finder() {
    let tree = create_test_directory();

    let app_config = oqab::config::AppConfig {
        root_dir: String::from("/t"),
        extension: Some("txt".to_string()),
        name: None,
        pattern: None,
        min_size: None,
        max_size: None,
        newer_than: None,
        older_than: None,
        size: None,
        depth: None,
        threads: Some(2),
        follow_links: Some(false),
        show_progress: Some(true),
        quiet: None,
    };

    let mut finder = oqab::factory::FinderFactory::create_standard_finder(&app_config)
        .expect("Finder could not be made");
    let results = finder.find(&tree).expect("Find operation failed");

    assert_eq!(results.len(), 3);
    for path in &results {
        assert!(path.ends_with(".txt"));
    }
}

#[test]
fn standard_finder_registers_every_criterion() {
    let mut settings = oqab::config::AppConfig::new("/t");
    settings.name = Some(String::from("file"));
    settings.pattern = Some(String::from(r"subdir1|file1"));
    settings.min_size = Some(1000);
    settings.max_size = Some(1500);
    settings.newer_than = Some(String::from("2023-11-14"));
    settings.older_than = Some(String::from("2023-11-14"));
    settings.depth = Some(1);
    let mut finder = oqab::factory::FinderFactory::create_standard_finder(&settings).unwrap();
    assert_eq!(finder.filter_registry.len(), 6);
    assert_eq!(finder.filter_registry.position("min_size"), Some(2));
    let mut results = finder.find(&create_test_directory()).unwrap();
    results.sort();
    assert_eq!(results, vec!["/t/file1.txt", "/t/subdir1/file3.txt"]);

    settings.size = Some(1200);
    let mut finder = oqab::factory::FinderFactory::create_standard_finder(&settings).unwrap();
    assert_eq!(finder.filter_registry.len(), 5);
    assert_eq!(finder.find(&create_test_directory()).unwrap(), vec!["/t/subdir1/file3.txt"]);

    settings.older_than = Some(String::from("never"));
    assert!(matches!(
        oqab::factory::FinderFactory::create_standard_finder(&settings),
        Err(oqab::filters::FilterError::InvalidDate(_))
    ));
    settings.older_than = None;
    settings.pattern = Some(String::from("("));
    assert!(matches!(
        oqab::factory::FinderFactory::create_standard_finder(&settings),
        Err(oqab::filters::FilterError::InvalidPattern(_))
    ));
}

#[test]
fn regex_finder_gates_the_walk_by_path() {
    let settings = oqab::config::AppConfig::new("/t");
    let mut finder = oqab::factory::FinderFactory::create_regex_finder(
        &settings,
        None,
        Some("subdir2"),
    )
    .unwrap();
    let mut results = finder.find(&create_test_directory()).unwrap();
    results.sort();
    assert_eq!(
        results,
        vec!["/t/file1.txt", "/t/file2.log", "/t/subdir1/file3.txt", "/t/subdir1/image.jpg"]
    );
    let mut plain =
        oqab::factory::FinderFactory::create_regex_finder(&settings, None, None).unwrap();
    assert_eq!(plain.find(&create_test_directory()).unwrap().len(), 6);
    assert!(oqab::factory::FinderFactory::create_regex_finder(&settings, Some("["), None).is_err());
}

#[test]
fn finder_takes_the_compiled_expression_it_is_given() {
    let settings = oqab::config::AppConfig::new("/t");
    let expression = oqab::pattern::Pattern::compile(r"\.txt$", false).unwrap();
    let mut finder =
        oqab::factory::FinderFactory::standard_finder_with(&settings, Some(expression)).unwrap();
    assert_eq!(finder.filter_registry.len(), 1);
    assert_eq!(finder.filter_registry.position("pattern"), Some(0));
    assert!(matches!(finder.traversal_strategy, oqab::traversal::TraversalPolicy::Default(_)));
    let mut results = finder.find(&create_test_directory()).unwrap();
    results.sort();
    assert_eq!(
        results,
        vec!["/t/file1.txt", "/t/subdir1/file3.txt", "/t/subdir2/subdir3/config.txt"]
    );

    let mut open = oqab::factory::FinderFactory::standard_finder_with(&settings, None).unwrap();
    assert_eq!(open.filter_registry.len(), 0);
    assert_eq!(open.find(&create_test_directory()).unwrap().len(), 6);
}

#[test]
fn finder_with_compiled_expressions_fails_on_a_bad_date_only() {
    let mut settings = oqab::config::AppConfig::new("/t");
    settings.pattern = Some(String::from("("));
    let finder = oqab::factory::FinderFactory::standard_finder_with(&settings, None);
    assert!(finder.is_ok());
    settings.newer_than = Some(String::from("2023-02-30"));
    assert!(matches!(
        oqab::factory::FinderFactory::standard_finder_with(&settings, None),
        Err(oqab::filters::FilterError::InvalidDate(_))
    ));
    let allow = oqab::pattern::Pattern::compile("subdir", false).unwrap();
    assert!(matches!(
        oqab::factory::FinderFactory::regex_finder_with(&settings, None, Some(allow), None),
        Err(oqab::filters::FilterError::InvalidDate(_))
    ));
}

#[test]
fn regex_finder_with_compiled_expressions_gates_the_walk() {
    let settings = oqab::config::AppConfig::new("/t");
    let deny = oqab::pattern::Pattern::compile("subdir2", false).unwrap();
    let expression = oqab::pattern::Pattern::compile("file", false).unwrap();
    let mut finder = oqab::factory::FinderFactory::regex_finder_with(
        &settings,
        Some(expression),
        None,
        Some(deny),
    )
    .unwrap();
    assert!(matches!(finder.traversal_strategy, oqab::traversal::TraversalPolicy::Regex(_)));
    let mut results = finder.find(&create_test_directory()).unwrap();
    results.sort();
    assert_eq!(results, vec!["/t/file1.txt", "/t/file2.log", "/t/subdir1/file3.txt"]);

    let mut plain =
        oqab::factory::FinderFactory::regex_finder_with(&settings, None, None, None).unwrap();
    assert!(matches!(plain.traversal_strategy, oqab::traversal::TraversalPolicy::Default(_)));
    assert_eq!(plain.find(&create_test_directory()).unwrap().len(), 6);
}

#[test]
fn regex_finder_reports_a_bad_expression_before_a_bad_date() {
    let mut settings = oqab::config::AppConfig::new("/t");
    settings.older_than = Some(String::from("soon"));
    assert!(matches!(
        oqab::factory::FinderFactory::create_regex_finder(&settings, Some("ok"), None),
        Err(oqab::filters::FilterError::InvalidDate(_))
    ));
    assert!(matches!(
        oqab::factory::FinderFactory::create_regex_finder(&settings, Some("ok"), Some("[")),
        Err(oqab::filters::FilterError::InvalidPattern(_))
    ));
    settings.pattern = Some(String::from("(a"));
    assert!(matches!(
        oqab::factory::FinderFactory::create_regex_finder(&settings, None, None),
        Err(oqab::filters::FilterError::InvalidPattern(_))
    ));
    assert!(matches!(
        oqab::factory::FinderFactory::create_standard_finder(&settings),
        Err(oqab::filters::FilterError::InvalidPattern(_))
    ));
}

#[test]
fn standard_search_compares_names_in_lower_case() {
    let tree = DirNode::dir(
        "/u",
        vec![
            create_test_file("/u/ÀB.TXT", 1),
            create_test_file("/u/àb.ét", 1),
            create_test_file("/u/ab.txt", 1),
            create_test_file("/u/Σ.ÉT", 1),
        ],
    );
    let mut by_name = FileSearchConfig::new();
    by_name.file_name = Some(String::from("Àb"));
    let mut observer = TrackingObserver::new();
    assert_eq!(
        search_directory(&tree, &by_name, &mut observer).unwrap(),
        vec!["/u/ÀB.TXT", "/u/àb.ét"]
    );
    let mut by_extension = FileSearchConfig::new();
    by_extension.file_extension = Some(String::from(".Ét"));
    let mut observer = TrackingObserver::new();
    assert_eq!(
        search_directory(&tree, &by_extension, &mut observer).unwrap(),
        vec!["/u/àb.ét", "/u/Σ.ÉT"]
    );
    let entry = FileEntry::file("/u/Σ.ÉT", 1, 0);
    let dates = resolve_dates(&by_extension).unwrap();
    assert!(match_file(&entry, &by_extension, &dates));
    by_extension.file_name = Some(String::from("σ"));
    assert!(match_file(&entry, &by_extension, &dates));
    by_extension.file_name = Some(String::from("s"));
    assert!(!match_file(&entry, &by_extension, &dates));
}

#[test]
fn standard_search_returns_no_path_twice() {
    let tree = DirNode::dir(
        "/v",
        vec![
            create_test_file("/v/a.txt", 1),
            DirNode::dir("/v/d", vec![create_test_file("/v/a.txt", 1), create_test_file("/v/d/b.txt", 1)]),
            create_test_file("/v/a.txt", 1),
        ],
    );
    let mut config = FileSearchConfig::new();
    config.file_extension = Some(String::from("txt"));
    let mut observer = TrackingObserver::new();
    assert_eq!(
        search_directory(&tree, &config, &mut observer).unwrap(),
        vec!["/v/a.txt", "/v/d/b.txt"]
    );
    assert_eq!(observer.files_count(), 2);
    config.traversal_mode = oqab::traversal::TraversalMode::DepthFirst;
    let mut observer = TrackingObserver::new();
    assert_eq!(
        search_directory(&tree, &config, &mut observer).unwrap(),
        vec!["/v/a.txt", "/v/d/b.txt"]
    );
}

#[test]
fn finder_factories_tell_a_large_expression_from_a_bad_one() {
    let mut settings = oqab::config::AppConfig::new("/t");
    settings.pattern = Some(String::from(r"\w{1000}"));
    assert!(matches!(
        oqab::factory::FinderFactory::create_standard_finder(&settings),
        Err(oqab::filters::FilterError::PatternTooLarge(_))
    ));
    assert!(matches!(
        oqab::factory::FinderFactory::create_regex_finder(&settings, Some("("), None),
        Err(oqab::filters::FilterError::InvalidPattern(_))
    ));
    assert!(matches!(
        oqab::factory::FinderFactory::create_regex_finder(&settings, None, Some("ok")),
        Err(oqab::filters::FilterError::PatternTooLarge(_))
    ));
    settings.pattern = Some(String::from(")"));
    settings.newer_than = Some(String::from("never"));
    assert!(matches!(
        oqab::factory::FinderFactory::create_regex_finder(&settings, Some(r"\w{1000}"), None),
        Err(oqab::filters::FilterError::PatternTooLarge(_))
    ));
    assert!(matches!(
        oqab::factory::FinderFactory::create_standard_finder(&settings),
        Err(oqab::filters::FilterError::InvalidPattern(_))
    ));
    settings.pattern = Some(String::from("a|b"));
    assert!(matches!(
        oqab::factory::FinderFactory::create_standard_finder(&settings),
        Err(oqab::filters::FilterError::InvalidDate(_))
    ));
    settings.newer_than = None;
    assert!(oqab::factory::FinderFactory::create_standard_finder(&settings).is_ok());
}
