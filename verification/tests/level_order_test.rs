use oqab::config::FileSearchConfig;
use oqab::entry::{DirNode, FileEntry};
use oqab::finder::{paths, FinderConfig, FinderRules};
use oqab::level_order::{levels_below, walk_by_levels};
use oqab::observer::{SearchObserver, SilentObserver, TrackingObserver};
use oqab::registry::FilterRegistry;
use oqab::standard_search::search_directory;
use oqab::traversal::{DefaultTraversalStrategy, TraversalMode, TraversalPolicy};

fn file(path: &str) -> DirNode {
    DirNode::leaf(FileEntry::file(path, 1, 0))
}

fn tree() -> DirNode {
    DirNode::dir(
        "/r",
        vec![
            DirNode::dir(
                "/r/a",
                vec![DirNode::dir("/r/a/deep", vec![file("/r/a/deep/3.rs")]), file("/r/a/2.rs")],
            ),
            file("/r/1.rs"),
            DirNode::dir("/r/b", vec![file("/r/b/2.rs")]),
        ],
    )
}

#[test]
fn breadth_first_finds_shallow_files_first() {
    let mut config = FileSearchConfig::new();
    config.traversal_mode = TraversalMode::BreadthFirst;
    let mut observer = TrackingObserver::new();
    assert_eq!(
        search_directory(&tree(), &config, &mut observer).unwrap(),
        vec!["/r/1.rs", "/r/a/2.rs", "/r/b/2.rs", "/r/a/deep/3.rs"]
    );
    assert_eq!(observer.files_count(), 4);
    assert_eq!(observer.directories_count(), 4);
}

#[test]
fn depth_first_finishes_a_directory_before_its_siblings() {
    let mut config = FileSearchConfig::new();
    config.traversal_mode = TraversalMode::DepthFirst;
    let mut observer = TrackingObserver::new();
    assert_eq!(
        search_directory(&tree(), &config, &mut observer).unwrap(),
        vec!["/r/a/deep/3.rs", "/r/a/2.rs", "/r/1.rs", "/r/b/2.rs"]
    );
    assert_eq!(observer.directories_count(), 4);
}

#[test]
fn both_orders_find_the_same_files() {
    let mut breadth = FileSearchConfig::new();
    breadth.file_extension = Some(String::from("rs"));
    breadth.max_depth = Some(1);
    let mut depth = breadth.duplicate();
    depth.traversal_mode = TraversalMode::DepthFirst;
    let mut first = search_directory(&tree(), &breadth, &mut SilentObserver::new()).unwrap();
    let mut second = search_directory(&tree(), &depth, &mut SilentObserver::new()).unwrap();
    assert_eq!(first, vec!["/r/1.rs", "/r/a/2.rs", "/r/b/2.rs"]);
    first.sort();
    second.sort();
    assert_eq!(first, second);
}

#[test]
fn level_order_reports_the_shallowest_path_of_a_file() {
    let deep = FileEntry::file("/r/a/copy.rs", 1, 0).with_canonical("/data/x.rs");
    let shallow = FileEntry::file("/r/x.rs", 1, 0).with_canonical("/data/x.rs");
    let tree = DirNode::dir(
        "/r",
        vec![DirNode::dir("/r/a", vec![DirNode::leaf(deep)]), DirNode::leaf(shallow)],
    );
    let policy = TraversalPolicy::Default(DefaultTraversalStrategy::new(false));
    let filters = FilterRegistry::new();
    let config = FinderConfig { num_threads: 1, follow_links: false, max_depth: None };
    let rules = FinderRules { config: &config, traversal: &policy, filters: &filters };
    let mut observer = SilentObserver::new();
    let mut matched = Vec::new();
    walk_by_levels(&tree, Some(5), &rules, &mut observer, &mut matched);
    assert_eq!(paths(&matched), vec!["/r/x.rs"]);
    assert_eq!(observer.files_count(), 1);
    assert_eq!(observer.directories_count(), 2);
}

#[test]
fn height_counts_levels_of_directories() {
    assert_eq!(levels_below(&file("/x")), Some(0));
    assert_eq!(levels_below(&DirNode::dir("/r", vec![file("/r/x")])), Some(0));
    assert_eq!(levels_below(&tree()), Some(2));
}
