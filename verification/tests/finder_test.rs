use oqab::entry::{DirNode, EntryKind, FileEntry, SnapshotStep};
use oqab::factory::{FileFinderBuilder, FinderFactory};
use oqab::filters::{ExtensionFilter, NameFilter, Predicate, SizeFilter};
use oqab::finder::{FileFinder, FinderConfig, FinderError};
use oqab::observer::{Observer, SearchObserver, SilentObserver, TrackingObserver};
use oqab::traversal::{DefaultTraversalStrategy, TraversalPolicy};
use oqab::walk::step_down;

fn file(path: &str) -> DirNode {
    DirNode::leaf(FileEntry::file(path, 12, 0))
}

fn sized(path: &str, size: u64) -> DirNode {
    DirNode::leaf(FileEntry::file(path, size, 0))
}

fn sorted(mut paths: Vec<String>) -> Vec<String> {
    paths.sort();
    paths
}

fn names(paths: &[&str]) -> Vec<String> {
    paths.iter().map(|p| p.to_string()).collect()
}

fn scenario_tree() -> DirNode {
    DirNode::dir(
        "/r",
        vec![
            file("/r/a.rs"),
            file("/r/b.txt"),
            DirNode::dir("/r/sub", vec![file("/r/sub/c.rs"), file("/r/sub/d.log")]),
        ],
    )
}

fn finder_with(filters: Vec<(&str, Predicate)>, max_depth: Option<usize>) -> FileFinder {
    let mut builder = FileFinderBuilder::new()
        .with_config(FinderConfig { num_threads: 1, follow_links: false, max_depth })
        .with_observer(Observer::Tracking(TrackingObserver::new()));
    for (name, filter) in filters {
        builder = builder.with_filter(name, filter);
    }
    builder.build()
}

#[test]
fn test_find_files_with_matching_extension() {
    let tree = DirNode::dir(
        "/tmp/t",
        vec![
            file("/tmp/t/file1.txt"),
            file("/tmp/t/file2.pdf"),
            file("/tmp/t/file3.txt"),
            DirNode::dir(
                "/tmp/t/subdir",
                vec![file("/tmp/t/subdir/file4.txt"), file("/tmp/t/subdir/file5.pdf")],
            ),
        ],
    );
    let mut finder = FinderFactory::create_extension_finder(".txt");
    let results = finder.find(&tree).unwrap();
    assert_eq!(results.len(), 3);
}

#[test]
fn test_find_files_with_no_matches() {
    let tree = DirNode::dir("/tmp/t", vec![file("/tmp/t/file1.txt"), file("/tmp/t/file2.pdf")]);
    let mut finder = FinderFactory::create_extension_finder(".xlsx");
    let results = finder.find(&tree).unwrap();
    assert_eq!(results.len(), 0);
}

#[test]
fn scenario_extension_only() {
    let mut finder =
        finder_with(vec![("extension", Predicate::Extension(ExtensionFilter::new("rs")))], None);
    let results = finder.find(&scenario_tree()).unwrap();
    assert_eq!(sorted(results), names(&["/r/a.rs", "/r/sub/c.rs"]));
}

#[test]
fn scenario_name_and_extension() {
    let tree = DirNode::dir(
        "/r",
        vec![
            file("/r/main.rs"),
            file("/r/lib.rs"),
            file("/r/main.txt"),
            DirNode::dir("/r/other", vec![file("/r/other/main.rs")]),
        ],
    );
    let mut finder = finder_with(
        vec![
            ("name", Predicate::Name(NameFilter::new("main"))),
            ("extension", Predicate::Extension(ExtensionFilter::new("rs"))),
        ],
        None,
    );
    let results = finder.find(&tree).unwrap();
    assert_eq!(sorted(results), names(&["/r/main.rs", "/r/other/main.rs"]));

    let mut combined = FinderFactory::create_combined_finder("main", "rs");
    assert_eq!(
        sorted(combined.find(&tree).unwrap()),
        names(&["/r/main.rs", "/r/other/main.rs"])
    );
}

#[test]
fn scenario_size_range() {
    let tree = DirNode::dir(
        "/r",
        vec![sized("/r/small", 500), sized("/r/medium", 1500), sized("/r/large", 2500)],
    );
    let mut finder =
        finder_with(vec![("size", Predicate::Size(SizeFilter::range(1000, 2000)))], None);
    assert_eq!(finder.find(&tree).unwrap(), names(&["/r/medium"]));
}

fn deep_tree() -> DirNode {
    DirNode::dir(
        "/r",
        vec![
            file("/r/f0.rs"),
            DirNode::dir(
                "/r/1",
                vec![
                    file("/r/1/f1.rs"),
                    DirNode::dir(
                        "/r/1/2",
                        vec![
                            file("/r/1/2/f2.rs"),
                            DirNode::dir(
                                "/r/1/2/3",
                                vec![
                                    file("/r/1/2/3/f3.rs"),
                                    DirNode::dir("/r/1/2/3/4", vec![file("/r/1/2/3/4/f4.rs")]),
                                ],
                            ),
                        ],
                    ),
                ],
            ),
        ],
    )
}

#[test]
fn scenario_depth_cap() {
    let mut finder = finder_with(
        vec![("extension", Predicate::Extension(ExtensionFilter::new("rs")))],
        Some(2),
    );
    let results = finder.find(&deep_tree()).unwrap();
    assert_eq!(sorted(results), names(&["/r/1/2/f2.rs", "/r/1/f1.rs", "/r/f0.rs"]));
}

#[test]
fn depth_zero_looks_at_the_root_only() {
    let mut finder = finder_with(vec![], Some(0));
    assert_eq!(finder.find(&deep_tree()).unwrap(), names(&["/r/f0.rs"]));
    let tracker = finder.observer_registry.find_tracking_observer().unwrap();
    assert_eq!(tracker.directories_count(), 1);
}

#[test]
fn empty_root_gives_one_directory_event_and_no_match() {
    let mut finder = FileFinderBuilder::new()
        .with_observer(Observer::Silent(SilentObserver::new()))
        .build();
    let results = finder.find(&DirNode::dir("/empty", vec![])).unwrap();
    assert!(results.is_empty());
    assert_eq!(finder.observer_registry.files_count(), 0);
    assert_eq!(finder.observer_registry.directories_count(), 1);
}

#[test]
fn root_that_is_no_directory_is_refused() {
    let mut finder = FileFinderBuilder::new().build();
    match finder.find(&file("/r/a.rs")) {
        Err(FinderError::InvalidPath(path)) => assert_eq!(path, "/r/a.rs"),
        other => panic!("unexpected: {:?}", other),
    }
    assert!(FileFinder::validate_root("/r", true, true).is_ok());
    assert!(matches!(
        FileFinder::validate_root("/r", false, false),
        Err(FinderError::InvalidPath(_))
    ));
    assert!(matches!(
        FileFinder::validate_root("/r", true, false),
        Err(FinderError::InvalidPath(_))
    ));
}

#[test]
fn rejecting_predicate_empties_the_results() {
    let mut finder = finder_with(
        vec![
            ("extension", Predicate::Extension(ExtensionFilter::new("rs"))),
            ("nothing", Predicate::Size(SizeFilter::range(2, 1))),
        ],
        None,
    );
    assert!(finder.find(&scenario_tree()).unwrap().is_empty());
}

#[test]
fn unreadable_directory_is_passed_over() {
    let tree = DirNode::dir(
        "/r",
        vec![
            file("/r/a.rs"),
            DirNode::unreadable("/r/locked"),
            DirNode::dir("/r/open", vec![file("/r/open/b.rs")]),
        ],
    );
    let mut finder = finder_with(vec![], None);
    let results = finder.find(&tree).unwrap();
    assert_eq!(sorted(results), names(&["/r/a.rs", "/r/open/b.rs"]));
    let tracker = finder.observer_registry.find_tracking_observer().unwrap();
    assert_eq!(tracker.directories_count(), 3);
}

#[test]
fn tracking_count_equals_the_number_of_results() {
    let mut finder = finder_with(vec![], None);
    let results = finder.find(&deep_tree()).unwrap();
    let tracker = finder.observer_registry.find_tracking_observer().unwrap();
    assert_eq!(tracker.files_count(), results.len());
    assert_eq!(results.len(), 5);
}

#[test]
fn same_search_twice_gives_the_same_set() {
    let mut first = finder_with(vec![], None);
    let mut second = finder_with(vec![], None);
    assert_eq!(
        sorted(first.find(&scenario_tree()).unwrap()),
        sorted(second.find(&scenario_tree()).unwrap())
    );
}

#[test]
fn dotted_and_plain_extension_give_the_same_results() {
    let mut plain = FinderFactory::create_extension_finder("rs");
    let mut dotted = FinderFactory::create_extension_finder(".rs");
    assert_eq!(plain.find(&scenario_tree()).unwrap(), dotted.find(&scenario_tree()).unwrap());
}

#[test]
fn hidden_entries_are_skipped_by_the_default_policy() {
    let tree = DirNode::dir(
        "/r",
        vec![
            file("/r/.secret"),
            file("/r/seen"),
            DirNode::dir("/r/.git", vec![file("/r/.git/config")]),
        ],
    );
    let mut skipping = FileFinderBuilder::new().build();
    assert_eq!(skipping.find(&tree).unwrap(), names(&["/r/seen"]));
    let mut all = FileFinderBuilder::new()
        .with_traversal_strategy(TraversalPolicy::Default(DefaultTraversalStrategy::new(false)))
        .build();
    assert_eq!(all.find(&tree).unwrap().len(), 3);
}

#[test]
fn links_are_followed_only_on_request_and_files_are_reported_once() {
    let target = FileEntry::file("/data/a.rs", 1, 0).with_canonical("/data/a.rs");
    let through = FileEntry::file("/r/link.rs", 1, 0).with_canonical("/data/a.rs").through_link();
    let linked_dir = DirNode {
        entry: FileEntry::directory("/data").with_canonical("/data").through_link(),
        readable: true,
        children: vec![DirNode::leaf(target.duplicate())],
    };
    let unresolved = DirNode {
        entry: FileEntry::directory("/r/broken").through_link(),
        readable: true,
        children: vec![file("/r/broken/x.rs")],
    };
    let tree = || {
        DirNode::dir(
            "/r",
            vec![
                DirNode::leaf(through.duplicate()),
                DirNode {
                    entry: linked_dir.entry.duplicate(),
                    readable: true,
                    children: vec![DirNode::leaf(target.duplicate())],
                },
                DirNode {
                    entry: unresolved.entry.duplicate(),
                    readable: true,
                    children: vec![file("/r/broken/x.rs")],
                },
                DirNode::leaf(FileEntry {
                    path: String::from("/r/dangling"),
                    kind: EntryKind::Symlink,
                    via_link: true,
                    size: None,
                    modified: None,
                    hidden_attribute: false,
                    canonical: None,
                }),
            ],
        )
    };
    let mut staying = FileFinderBuilder::new().build();
    assert!(staying.find(&tree()).unwrap().is_empty());
    let mut following = FileFinderBuilder::new().with_follow_links(true).build();
    assert_eq!(following.find(&tree()).unwrap(), names(&["/r/link.rs"]));
}

#[test]
fn direct_collection_needs_no_observer() {
    let found = FileFinder::collect_files_direct(
        &scenario_tree(),
        &TraversalPolicy::Default(DefaultTraversalStrategy::new(true)),
        &oqab::registry::FilterRegistry::new(),
        &FinderConfig { num_threads: 1, follow_links: false, max_depth: None },
        Some(0),
    );
    assert_eq!(found, names(&["/r/a.rs", "/r/b.txt"]));
}

#[test]
fn default_config_has_at_least_one_worker() {
    let config = FinderConfig::default();
    assert!(config.num_threads >= 1);
    assert!(!config.follow_links);
    assert_eq!(config.max_depth, None);
}

#[test]
fn finder_errors_read_as_one_line() {
    assert_eq!(FinderError::InvalidPath(String::from("/x")).message(), "Invalid path: /x");
    assert_eq!(
        FinderError::DirectoryAccess(String::from("/y")).message(),
        "Directory access error: /y"
    );
    assert_eq!(FinderError::WorkerPool(String::from("z")).message(), "Worker pool error: z");
}

#[test]
fn a_directory_is_read_once_for_a_snapshot() {
    let mut read = oqab::entry::ReadDirectories::new();
    let plain = FileEntry::directory("/r/a").with_canonical("/r/a");
    let linked = FileEntry::directory("/r/link").with_canonical("/r/a").through_link();
    let other = FileEntry::directory("/r/other").with_canonical("/r/b").through_link();
    let unresolved = FileEntry::directory("/r/x").through_link();
    assert_eq!(read.take_up(&FileEntry::file("/r/f", 1, 0), true), SnapshotStep::Keep);
    assert_eq!(read.take_up(&plain, false), SnapshotStep::Read);
    assert_eq!(read.take_up(&plain, false), SnapshotStep::Leave);
    assert_eq!(read.take_up(&linked, true), SnapshotStep::Leave);
    assert_eq!(read.take_up(&linked, false), SnapshotStep::Keep);
    assert_eq!(read.take_up(&other, false), SnapshotStep::Keep);
    assert_eq!(read.take_up(&other, true), SnapshotStep::Read);
    assert_eq!(read.take_up(&other, true), SnapshotStep::Leave);
    assert_eq!(read.take_up(&unresolved, true), SnapshotStep::Keep);
}

#[test]
fn the_levels_left_shrink_by_one_until_none_is_left() {
    assert_eq!(step_down(None), Some(None));
    assert_eq!(step_down(Some(3)), Some(Some(2)));
    assert_eq!(step_down(Some(1)), Some(Some(0)));
    assert_eq!(step_down(Some(0)), None);
}

#[test]
fn a_snapshot_leaves_out_a_directory_it_already_holds() {
    let listed = vec![file("/r/a/x.rs")];
    let read = DirNode::placed(SnapshotStep::Read, FileEntry::directory("/r/a"), Some(listed))
        .unwrap();
    assert!(read.readable);
    assert_eq!(read.children.len(), 1);
    let refused =
        DirNode::placed(SnapshotStep::Read, FileEntry::directory("/r/b"), None).unwrap();
    assert!(!refused.readable);
    assert_eq!(refused.entry.path, "/r/b");
    let kept = DirNode::placed(SnapshotStep::Keep, FileEntry::file("/r/f", 1, 0), None).unwrap();
    assert!(kept.readable);
    assert!(kept.children.is_empty());
    assert!(DirNode::placed(SnapshotStep::Leave, FileEntry::directory("/r/a"), None).is_none());

    let tree = DirNode::dir("/r", vec![read, refused, kept]);
    let mut finder = finder_with(vec![], None);
    let found = finder.find(&tree).unwrap();
    assert_eq!(sorted(found), names(&["/r/a/x.rs", "/r/f"]));
    assert_eq!(finder.observer_registry.directories_count(), 3);
}
