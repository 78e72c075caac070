use oqab::observer::{
    NullObserver, Observer, ObserverKind, ProgressReporter, SearchObserver, SilentObserver,
    TrackingObserver,
};
use oqab::registry::ObserverRegistry;

#[test]
fn test_tracking_observer() {
    let mut observer = TrackingObserver::new();

    observer.file_found("/path/to/file1.txt");
    observer.file_found("/path/to/file2.txt");
    observer.file_found("/path/to/subdir/file3.txt");

    observer.directory_processed("/path");
    observer.directory_processed("/path/to");
    observer.directory_processed("/path/to/subdir");

    assert_eq!(observer.files_count(), 3);
    assert_eq!(observer.directories_count(), 3);

    let found_files = observer.get_found_files();
    assert_eq!(found_files.len(), 3);

    let expected_files = [
        String::from("/path/to/file1.txt"),
        String::from("/path/to/file2.txt"),
        String::from("/path/to/subdir/file3.txt"),
    ];

    for expected in &expected_files {
        assert!(found_files.contains(expected));
    }

    let locked_files = observer.lock_found_files();
    assert_eq!(locked_files.len(), 3);
}

#[test]
fn test_silent_observer() {
    let mut observer = SilentObserver::new();

    observer.file_found("/path/to/file1.txt");
    observer.file_found("/path/to/file2.txt");
    observer.directory_processed("/path/to");

    // The silent observer prints nothing but keeps both counters.
    assert_eq!(observer.files_count(), 2);
    assert_eq!(observer.directories_count(), 1);
}

#[test]
fn test_observer_trait_object() {
    let mut observer: Observer = Observer::Tracking(TrackingObserver::new());

    observer.file_found("/path/to/file.txt");
    observer.directory_processed("/path/to");

    assert_eq!(observer.files_count(), 1);
    assert_eq!(observer.directories_count(), 1);

    let tracking_observer = observer.as_tracking().unwrap();
    let found_files = tracking_observer.get_found_files();
    assert_eq!(found_files.len(), 1);
    assert_eq!(found_files[0], String::from("/path/to/file.txt"));
}

#[test]
fn null_observer_counts_nothing() {
    let mut observer = NullObserver::new();
    observer.file_found("/a");
    observer.directory_processed("/");
    assert_eq!(observer.files_count(), 0);
    assert_eq!(observer.directories_count(), 0);
}

#[test]
fn progress_reporter_holds_a_line_at_every_step() {
    let mut reporter = ProgressReporter::new();
    for _ in 0..99 {
        reporter.file_found("/early");
    }
    assert!(reporter.take_lines().is_empty());
    reporter.file_found("/hundredth");
    let lines = reporter.take_lines();
    assert_eq!(lines.len(), 1);
    assert!(lines[0].for_files);
    assert_eq!(lines[0].count, 100);
    assert_eq!(lines[0].latest, "/hundredth");
    assert!(reporter.take_lines().is_empty());

    for _ in 0..50 {
        reporter.directory_processed("/dir");
    }
    let lines = reporter.take_lines();
    assert_eq!(lines.len(), 1);
    assert!(!lines[0].for_files);
    assert_eq!(lines[0].count, 50);
    assert_eq!(reporter.files_count(), 100);
    assert_eq!(reporter.directories_count(), 50);
}

#[test]
fn snapshot_copies_counters_and_then_counts_alone() {
    let mut first = SilentObserver::new();
    first.file_found("/a");
    let mut second = first.snapshot();
    second.file_found("/b");
    assert_eq!(first.files_count(), 1);
    assert_eq!(second.files_count(), 2);

    let mut tracker = TrackingObserver::new();
    tracker.file_found("/a");
    let copy = tracker.snapshot();
    tracker.file_found("/b");
    assert_eq!(copy.files_count(), 1);
    assert_eq!(copy.get_found_files(), vec![String::from("/a")]);
}

#[test]
fn merge_appends_paths_and_adds_counts() {
    let mut left = TrackingObserver::new();
    left.file_found("/a");
    left.directory_processed("/");
    let mut right = TrackingObserver::new();
    right.file_found("/b");
    right.file_found("/c");
    right.directory_processed("/x");
    left.merge_from(&right);
    assert_eq!(left.files_count(), 3);
    assert_eq!(left.directories_count(), 2);
    assert_eq!(
        left.get_found_files(),
        vec![String::from("/a"), String::from("/b"), String::from("/c")]
    );
}

#[test]
fn registry_notifies_in_order_and_sums_counts() {
    let mut registry = ObserverRegistry::new();
    registry.register(Observer::Silent(SilentObserver::new()));
    registry.register(Observer::Null(NullObserver::new()));
    registry.register(Observer::Tracking(TrackingObserver::new()));
    registry.notify_file_found("/a.rs");
    registry.notify_file_found("/b.rs");
    registry.notify_directory_processed("/");
    assert_eq!(registry.files_count(), 4);
    assert_eq!(registry.directories_count(), 2);
    let tracker = registry.find_tracking_observer().unwrap();
    assert_eq!(tracker.get_found_files(), vec![String::from("/a.rs"), String::from("/b.rs")]);
    assert!(registry.get_observer_of_type(ObserverKind::Progress).is_none());
    assert_eq!(
        registry.get_observer_of_type(ObserverKind::Silent).unwrap().files_count(),
        2
    );
}

#[test]
fn default_registry_holds_one_null_observer() {
    let registry = ObserverRegistry::default();
    assert_eq!(registry.observers.len(), 1);
    assert_eq!(registry.observers[0].kind(), ObserverKind::Null);
    assert_eq!(registry.files_count(), 0);
}
