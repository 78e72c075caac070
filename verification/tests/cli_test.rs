use oqab::cli::{
    decimal_text, parse_decimal, CommandLineParser, FindFilesCommand, HyperFindFilesCommand,
    ParsedCommand, ProgressObserver, TraversalStrategy,
};
use oqab::entry::{DirNode, FileEntry};

fn words(args: &[&str]) -> Vec<String> {
    args.iter().map(|a| a.to_string()).collect()
}

fn usage_for(program: &str) -> String {
    let lines = [
        format!("Usage: {} <directory_path> <file_extension> [options]", program),
        "Options:".to_string(),
        "-f, --fast          Use the faster hyper search implementation".to_string(),
        "-p, --progress      Show progress during search".to_string(),
        "-e, --errors        Show directory access errors".to_string(),
        "-n, --name <value>  Filter by file name (contains search)".to_string(),
        "-r, --recursive     Search directories recursively (default: true)".to_string(),
        "-d, --depth <num>   Maximum directory depth to search (default: unlimited)".to_string(),
        "--no-hidden         Skip hidden files and directories".to_string(),
        "--no-follow-links   Don't follow symbolic links".to_string(),
        "--traversal <type>  Directory traversal strategy:".to_string(),
        "- standard     Default traversal".to_string(),
        "- git-aware    Respect .gitignore files (default for --fast)".to_string(),
        "- breadth-first Use breadth-first traversal".to_string(),
        String::new(),
        "Examples:".to_string(),
        format!("{} . rs                     Find all .rs files in current directory", program),
        format!("{} . rs -n main             Find .rs files containing 'main' in filename", program),
        format!(
            "{} /path txt -f -p          Find all .txt files with fast search and progress",
            program
        ),
        format!(
            "{} . rs --depth 2 --no-hidden  Only search 2 levels deep, skip hidden files",
            program
        ),
    ];
    lines.join("\n")
}

#[test]
fn too_few_words_are_refused() {
    assert_eq!(CommandLineParser::parse_args(&words(&[])).unwrap_err(), usage_for("program"));
    assert_eq!(
        CommandLineParser::parse_args(&words(&["oqab", "."])).unwrap_err(),
        usage_for("oqab")
    );
    assert_eq!(
        CommandLineParser::parse_args(&words(&["/usr/bin/find it"])).unwrap_err(),
        usage_for("/usr/bin/find it")
    );
}

#[test]
fn the_usage_text_names_the_program_five_times() {
    let text = oqab::cli::usage("seek");
    assert_eq!(text, usage_for("seek"));
    assert_eq!(text.matches("seek").count(), 5);
    assert_eq!(text.lines().count(), 20);
    assert!(text.starts_with("Usage: seek <directory_path> <file_extension> [options]\n"));
    assert!(text.ends_with("skip hidden files"));
}

#[test]
fn plain_words_give_the_standard_command() {
    match CommandLineParser::parse_args(&words(&["oqab", ".", "rs", "--depth", "2", "--no-hidden"]))
    {
        Ok(ParsedCommand::Standard(c)) => {
            assert_eq!(c.directory, ".");
            assert_eq!(c.extension, ".rs");
            assert_eq!(c.name, None);
            assert_eq!(c.max_depth, Some(2));
            assert!(c.skip_hidden);
        }
        other => panic!("unexpected: {:?}", other),
    }
}

#[test]
fn fast_progress_or_name_give_the_hyper_command() {
    match CommandLineParser::parse_args(&words(&[
        "oqab",
        "/src",
        ".txt",
        "-n",
        "main",
        "-e",
        "--traversal=breadth-first",
        "--no-follow-links",
        "-d=x",
    ])) {
        Ok(ParsedCommand::Hyper(c)) => {
            assert_eq!(c.directory, "/src");
            assert_eq!(c.extension, ".txt");
            assert_eq!(c.name.as_deref(), Some("main"));
            assert_eq!(c.traversal_strategy, TraversalStrategy::BreadthFirst);
            assert!(!c.show_progress);
            assert!(c.show_errors);
            assert!(!c.follow_links);
            assert_eq!(c.max_depth, None);
        }
        other => panic!("unexpected: {:?}", other),
    }
    assert!(matches!(
        CommandLineParser::parse_args(&words(&["oqab", ".", "rs", "-p"])),
        Ok(ParsedCommand::Hyper(_))
    ));
    match CommandLineParser::parse_args(&words(&["oqab", ".", "rs", "--fast", "--git-aware"])) {
        Ok(ParsedCommand::Hyper(c)) => {
            assert_eq!(c.traversal_strategy, TraversalStrategy::GitAware);
            assert!(c.follow_links);
        }
        other => panic!("unexpected: {:?}", other),
    }
}

#[test]
fn parameter_values_come_in_two_forms() {
    let flags = words(&["-n", "--name"]);
    let value = |args: &[&str]| CommandLineParser::extract_parameter_value(&words(args), &flags);
    assert_eq!(value(&["--name=a"]).as_deref(), Some("a"));
    assert_eq!(value(&["-n", "b"]).as_deref(), Some("b"));
    assert_eq!(value(&["-n", "b", "--name=a"]).as_deref(), Some("a"));
    assert_eq!(value(&["-n=", "x"]).as_deref(), Some(""));
    assert_eq!(value(&["x", "-n"]), None);
    assert_eq!(value(&[]), None);
    assert_eq!(value(&["--names=a"]), None);
}

#[test]
fn decimal_numbers_are_read_exactly() {
    assert_eq!(parse_decimal("0"), Some(0));
    assert_eq!(parse_decimal("0042"), Some(42));
    assert_eq!(parse_decimal(&usize::MAX.to_string()), Some(usize::MAX));
    assert_eq!(parse_decimal("99999999999999999999999999"), None);
    assert_eq!(parse_decimal(""), None);
    assert_eq!(parse_decimal("12a"), None);
    assert_eq!(parse_decimal("-1"), None);
}


fn small_tree() -> DirNode {
    DirNode::dir(
        "/r",
        vec![
            DirNode::leaf(FileEntry::file("/r/main.rs", 1, 0)),
            DirNode::leaf(FileEntry::file("/r/lib.rs", 1, 0)),
            DirNode::leaf(FileEntry::file("/r/.hidden.rs", 1, 0)),
            DirNode::dir("/r/sub", vec![DirNode::leaf(FileEntry::file("/r/sub/main.rs", 1, 0))]),
        ],
    )
}

#[test]
fn decimal_text_is_read_back() {
    assert_eq!(decimal_text(0), "0");
    assert_eq!(decimal_text(7), "7");
    assert_eq!(decimal_text(1234567890), "1234567890");
    assert_eq!(decimal_text(usize::MAX), usize::MAX.to_string());
    assert_eq!(parse_decimal(&decimal_text(4096)), Some(4096));
}

#[test]
fn find_command_reports_what_it_found() {
    let command = FindFilesCommand::new(String::from("/r"), String::from(".rs"))
        .with_name(String::from("main"))
        .with_skip_hidden(true);
    let outcome = command.execute(&small_tree());
    assert_eq!(outcome.code, 0);
    assert_eq!(
        outcome.lines,
        vec![
            "Found 2 file(s) with name 'main' and extension '.rs':",
            "/r/main.rs",
            "/r/sub/main.rs"
        ]
    );
    let shallow = FindFilesCommand::new(String::from("/r"), String::from(".rs"))
        .with_max_depth(Some(0));
    assert_eq!(
        shallow.execute(&small_tree()).lines,
        vec!["Found 3 file(s) with extension '.rs':", "/r/main.rs", "/r/lib.rs", "/r/.hidden.rs"]
    );
    let none = FindFilesCommand::new(String::from("/r"), String::from(".py"));
    assert_eq!(
        none.execute(&small_tree()).lines,
        vec!["No files with extension '.py' found in '/r'"]
    );
    let named = none.with_name(String::from("x"));
    assert_eq!(
        named.report(&Vec::new()),
        vec!["No files with name 'x' and extension '.py' found in '/r'"]
    );
}

#[test]
fn find_command_fails_on_a_root_that_is_no_directory() {
    let command = FindFilesCommand::new(String::from("/r/main.rs"), String::from(".rs"));
    let outcome = command.execute(&DirNode::leaf(FileEntry::file("/r/main.rs", 1, 0)));
    assert_eq!(outcome.code, 1);
    assert_eq!(outcome.lines, vec!["Error: Invalid path: /r/main.rs"]);
    let hyper = HyperFindFilesCommand::new(String::from("/r/main.rs"), String::from(".rs"));
    assert_eq!(hyper.execute(&DirNode::leaf(FileEntry::file("/r/main.rs", 1, 0))).code, 1);
}

#[test]
fn hyper_command_reports_behind_its_progress() {
    let command = HyperFindFilesCommand::new(String::from("/r"), String::from("rs"))
        .with_skip_hidden(true)
        .with_max_depth(Some(0));
    let outcome = command.execute(&small_tree());
    assert_eq!(outcome.code, 0);
    assert_eq!(outcome.lines, vec!["", "Matching files:", "/r/main.rs", "/r/lib.rs"]);
    assert!(command.report(&Vec::new()).is_empty());
    let quiet = command.with_progress(false);
    assert_eq!(
        quiet.execute(&small_tree()).lines,
        vec!["Found 2 file(s) with extension 'rs':", "/r/main.rs", "/r/lib.rs"]
    );
    let finder = quiet.finder();
    assert!(finder.config.num_threads >= 1);
    assert_eq!(finder.config.max_depth, Some(0));
    assert_eq!(finder.observer_registry.observers.len(), 1);
}

#[test]
fn progress_observer_words_every_hundredth_event() {
    let mut observer = ProgressObserver::new(true);
    for _ in 0..99 {
        assert_eq!(observer.on_file_found(), None);
    }
    assert_eq!(observer.on_file_found().as_deref(), Some("Found 100 files so far..."));
    for _ in 0..99 {
        assert_eq!(observer.on_directory_entered(), None);
    }
    assert_eq!(observer.on_directory_entered().as_deref(), Some("Scanned 100 directories..."));
    assert_eq!(
        observer.on_directory_error("/locked", "permission denied").as_deref(),
        Some("Error accessing '/locked': permission denied")
    );
    assert_eq!(
        observer.on_search_completed(42),
        vec![
            "",
            "Search completed:",
            "  Directories scanned: 100",
            "  Files found: 42",
            "  Errors encountered: 1"
        ]
    );
    let mut silent = ProgressObserver::new(false);
    assert_eq!(silent.on_directory_error("/locked", "x"), None);
    assert_eq!(silent.errors, 1);
}
