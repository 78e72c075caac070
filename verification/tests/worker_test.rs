use oqab::entry::{EntryKind, FileEntry};
use oqab::factory::FileFinderBuilder;
use oqab::filters::{ExtensionFilter, Predicate};
use oqab::observer::{Observer, TrackingObserver};
use oqab::session::SearchSession;
use oqab::worker::{DirectoryWork, WorkerAction, WorkerMessage, WorkerPool};

fn dir(path: &str) -> DirectoryWork {
    DirectoryWork { entry: FileEntry::directory(path), remaining: None }
}

#[test]
fn workers_take_directories_before_files() {
    let mut pool = WorkerPool::new(2, 8);
    assert!(pool.submit_file(FileEntry::file("/a", 1, 0)));
    assert!(pool.submit_directory(dir("/d")));
    assert!(matches!(pool.worker_step(), WorkerAction::ProcessDirectory(w) if w.entry.path == "/d"));
    assert!(matches!(pool.worker_step(), WorkerAction::ProcessFile(e) if e.path == "/a"));
    assert!(matches!(pool.worker_step(), WorkerAction::Idle));
    assert!(!pool.is_idle());
    pool.finish_item();
    pool.finish_item();
    assert!(pool.is_idle());
}

#[test]
fn full_queues_and_stopped_pools_refuse() {
    let mut pool = WorkerPool::new(1, 1);
    assert!(pool.submit_directory(dir("/a")));
    assert!(!pool.submit_directory(dir("/b")));
    assert!(pool.submit_file(FileEntry::file("/f", 1, 0)));
    assert!(!pool.submit_file(FileEntry::file("/g", 1, 0)));
    pool.request_stop();
    assert!(pool.is_stopped());
    assert!(matches!(pool.worker_step(), WorkerAction::Exit));
    assert!(!pool.submit_directory(dir("/c")));
    assert_eq!(pool.live_workers(), 0);
    assert_eq!(pool.drain(), (1, 1));
}

#[test]
fn every_worker_leaves_after_completion() {
    let mut pool = WorkerPool::new(3, 4);
    assert!(pool.submit_directory(dir("/a")));
    pool.complete();
    assert!(matches!(pool.worker_step(), WorkerAction::ProcessDirectory(_)));
    let mut exits = 0;
    while pool.live_workers() > 0 {
        match pool.worker_step() {
            WorkerAction::Exit => exits += 1,
            other => panic!("unexpected: {:?}", other),
        }
    }
    assert_eq!(exits, 3);
    assert!(matches!(pool.worker_step(), WorkerAction::Exit));
}

#[test]
fn join_leaves_no_live_worker() {
    let mut pool = WorkerPool::new(4, 4);
    assert!(pool.submit_file(FileEntry::file("/f", 1, 0)));
    pool.join();
    assert_eq!(pool.live_workers(), 0);
    assert!(pool.is_stopped());
    assert_eq!(pool.drain(), (0, 1));
}

#[test]
fn pool_driven_search_finds_what_the_walk_finds() {
    let mut finder = FileFinderBuilder::new()
        .with_filter("extension", Predicate::Extension(ExtensionFilter::new("rs")))
        .with_max_depth(1)
        .with_observer(Observer::Tracking(TrackingObserver::new()))
        .build();
    let listing = |path: &str| -> Option<Vec<FileEntry>> {
        match path {
            "/r" => Some(vec![
                FileEntry::file("/r/a.rs", 1, 0),
                FileEntry::file("/r/b.txt", 1, 0),
                FileEntry::directory("/r/sub"),
                FileEntry::directory("/r/locked"),
            ]),
            "/r/sub" => Some(vec![
                FileEntry::file("/r/sub/c.rs", 1, 0),
                FileEntry::directory("/r/sub/deep"),
                FileEntry {
                    path: String::from("/r/sub/odd"),
                    kind: EntryKind::Other,
                    via_link: false,
                    size: None,
                    modified: None,
                    hidden_attribute: false,
                    canonical: None,
                },
            ]),
            "/r/sub/deep" => Some(vec![FileEntry::file("/r/sub/deep/d.rs", 1, 0)]),
            _ => None,
        }
    };
    let mut session = SearchSession::new();
    let mut pool = WorkerPool::new(2, 16);
    let seed = finder.seed(&mut session, &FileEntry::directory("/r")).unwrap();
    assert!(pool.submit_directory(seed));
    let mut completed = false;
    loop {
        match pool.worker_step() {
            WorkerAction::ProcessDirectory(work) => {
                let entries = listing(&work.entry.path);
                for message in finder.expand_directory(&mut session, &work, entries.as_ref()) {
                    match message {
                        WorkerMessage::Directory(w) => assert!(pool.submit_directory(w)),
                        WorkerMessage::File(e) => assert!(pool.submit_file(e)),
                        WorkerMessage::Done => unreachable!(),
                    }
                }
                pool.finish_item();
            }
            WorkerAction::ProcessFile(entry) => {
                finder.test_file(&mut session, &entry);
                pool.finish_item();
            }
            WorkerAction::Forwarded => {}
            WorkerAction::Idle => {
                assert!(pool.is_idle());
                assert!(!completed);
                pool.complete();
                completed = true;
            }
            WorkerAction::Exit => {
                if pool.live_workers() == 0 {
                    break;
                }
            }
        }
    }
    let mut results = finder.results(&session);
    results.sort();
    assert_eq!(results, vec!["/r/a.rs", "/r/sub/c.rs"]);
    assert!(finder.seed(&mut session, &FileEntry::file("/r/a.rs", 1, 0)).is_err());
}

#[test]
fn a_directory_is_handed_out_once() {
    let mut finder = FileFinderBuilder::new().with_follow_links(true).build();
    let mut session = SearchSession::new();
    let root = FileEntry::directory("/r").with_canonical("/r");
    let seed = finder.seed(&mut session, &root).unwrap();
    let entries = vec![
        FileEntry::directory("/r/a").with_canonical("/r/a"),
        FileEntry::directory("/r/loop").with_canonical("/r").through_link(),
        FileEntry::directory("/r/again").with_canonical("/r/a").through_link(),
        FileEntry::directory("/r/unresolved").through_link(),
    ];
    let messages = finder.expand_directory(&mut session, &seed, Some(&entries));
    assert_eq!(messages.len(), 1);
    assert!(matches!(&messages[0], WorkerMessage::Directory(w) if w.entry.path == "/r/a"));
}

#[test]
fn the_same_file_is_matched_once() {
    let mut finder = FileFinderBuilder::new().build();
    let mut session = SearchSession::new();
    let first = FileEntry::file("/r/a", 1, 0).with_canonical("/data/a");
    let second = FileEntry::file("/r/link", 1, 0).with_canonical("/data/a");
    let third = FileEntry::file("/r/b", 1, 0);
    assert!(finder.test_file(&mut session, &first));
    assert!(!finder.test_file(&mut session, &second));
    assert!(!finder.test_file(&mut session, &first));
    assert!(finder.test_file(&mut session, &third));
    assert_eq!(finder.results(&session), vec!["/r/a", "/r/b"]);
    assert_eq!(session.matched_entries().len(), 2);
}
