use oqab::entry::FileEntry;
use oqab::traverser::{ListingFailure, Pending, Traverser, TraverserConfig, TraverserError};

fn config(max_depth: Option<usize>, exclude: &[&str]) -> TraverserConfig {
    TraverserConfig {
        max_depth,
        follow_symlinks: false,
        exclude_patterns: exclude.iter().map(|p| p.to_string()).collect(),
    }
}

#[test]
fn traversal_is_breadth_first_and_lists_nothing_twice() {
    let mut traverser = Traverser::new("/r", config(None, &["target"]));
    let root = traverser.next_directory().unwrap();
    assert_eq!((root.path.as_str(), root.depth), ("/r", 0));
    let yielded = traverser.accept(
        &root,
        &vec![
            FileEntry::file("/r/a.rs", 1, 0),
            FileEntry::directory("/r/src"),
            FileEntry::directory("/r/target"),
            FileEntry::directory("/r/src"),
            FileEntry::directory("/r/link").through_link(),
        ],
    );
    assert_eq!(yielded, vec!["/r/a.rs", "/r/src", "/r/src", "/r/link"]);
    let src = traverser.next_directory().unwrap();
    assert_eq!((src.path.as_str(), src.depth), ("/r/src", 1));
    assert!(traverser.accept(&src, &Vec::new()).is_empty());
    assert!(traverser.next_directory().is_none());
    assert!(traverser.is_finished());
}

#[test]
fn depth_limit_stops_the_queueing() {
    let mut traverser = Traverser::new("/r", config(Some(0), &[]));
    let root = traverser.next_directory().unwrap();
    let yielded = traverser.accept(&root, &vec![FileEntry::directory("/r/src")]);
    assert_eq!(yielded, vec!["/r/src"]);
    assert!(traverser.next_directory().is_none());
    let deep = Pending { path: String::from("/x"), depth: usize::MAX };
    traverser.accept(&deep, &vec![FileEntry::directory("/x/y")]);
    assert!(traverser.is_finished());
}

#[test]
fn exclude_patterns_are_substrings_of_the_path() {
    let excluding = config(None, &[".git", "node_modules"]);
    assert!(Traverser::should_include("/r/src/main.rs", &excluding));
    assert!(!Traverser::should_include("/r/.git/config", &excluding));
    assert!(!Traverser::should_include("/r/web/node_modules", &excluding));
    assert!(Traverser::should_include("/r/.git", &config(None, &[])));
}

#[test]
fn failures_are_told_apart() {
    assert!(matches!(
        Traverser::failure("/p", ListingFailure::PermissionDenied),
        TraverserError::PermissionDenied(p) if p == "/p"
    ));
    assert!(matches!(Traverser::failure("/p", ListingFailure::OtherIo), TraverserError::Io(_)));
    assert!(matches!(
        Traverser::failure("/p", ListingFailure::NotIo),
        TraverserError::InvalidPath(_)
    ));
}
