use oqab::config::FileSearchConfig;
use oqab::grep::{GrepCommand, OpenFailure, OutputLine};
use oqab::pattern::{CompileError, Pattern};

fn lines(text: &[&str]) -> Vec<Option<String>> {
    text.iter().map(|l| Some(l.to_string())).collect()
}

fn paths(out: &[OutputLine]) -> Vec<String> {
    out.iter()
        .filter_map(|l| match l {
            OutputLine::Path(p) => Some(p.clone()),
            _ => None,
        })
        .collect()
}

#[test]
fn scenario_grep_files_with_matches() {
    let mut config = FileSearchConfig::new();
    config.pattern = Some(String::from("world"));
    config.files_with_matches = true;
    let command = GrepCommand::new(&config);
    let pattern = command.compile_pattern().unwrap();
    let mut reported = Vec::new();
    let mut out = Vec::new();
    for (path, content) in [("x.txt", lines(&["hello", "world"])), ("y.txt", lines(&["goodbye"]))] {
        let matches = GrepCommand::search_file(path, &content, &pattern);
        out.extend(command.process_file(path, &matches, &mut reported));
    }
    assert_eq!(paths(&out), vec![String::from("x.txt")]);
    assert_eq!(out.len(), 1);
}

#[test]
fn matches_carry_one_based_line_numbers() {
    let pattern = Pattern::compile("o", false).unwrap();
    let content = vec![
        Some(String::from("one")),
        None,
        Some(String::from("three")),
        Some(String::from("four")),
    ];
    let matches = GrepCommand::search_file("f", &content, &pattern);
    assert_eq!(matches.len(), 2);
    assert_eq!((matches[0].line_number, matches[0].line.as_str()), (1, "one"));
    assert_eq!((matches[1].line_number, matches[1].line.as_str()), (4, "four"));
    assert_eq!(matches[1].path, "f");
}

#[test]
fn case_folding_is_a_compile_flag() {
    let mut config = FileSearchConfig::new();
    config.pattern = Some(String::from("error"));
    let strict = GrepCommand::new(&config).compile_pattern().unwrap();
    assert!(!strict.is_match("An ERROR occurred"));
    config.ignore_case = true;
    let folding = GrepCommand::new(&config).compile_pattern().unwrap();
    assert!(folding.is_match("An ERROR occurred"));
    assert_eq!(folding.as_text(), "error");
}

#[test]
fn bad_pattern_is_refused() {
    let mut config = FileSearchConfig::new();
    config.pattern = Some(String::from("(unclosed"));
    assert!(GrepCommand::new(&config).compile_pattern().is_err());
    assert!(Pattern::compile("[a-", false).is_err());
}

#[test]
fn per_line_report_has_header_lines_and_blank() {
    let mut config = FileSearchConfig::new();
    config.pattern = Some(String::from("a"));
    config.line_number = true;
    let command = GrepCommand::new(&config);
    let pattern = command.compile_pattern().unwrap();
    let matches = GrepCommand::search_file("f.txt", &lines(&["a", "b", "aa"]), &pattern);
    let mut reported = Vec::new();
    let out = command.process_file("f.txt", &matches, &mut reported);
    assert_eq!(out.len(), 4);
    assert!(matches!(&out[0], OutputLine::Header(p) if p == "f.txt"));
    assert!(matches!(&out[1], OutputLine::Line(Some(1), t) if t == "a"));
    assert!(matches!(&out[2], OutputLine::Line(Some(3), t) if t == "aa"));
    assert!(matches!(&out[3], OutputLine::Blank));
    assert!(reported.is_empty());

    config.line_number = false;
    let command = GrepCommand::new(&config);
    let out = command.process_file("f.txt", &matches, &mut reported);
    assert!(matches!(&out[1], OutputLine::Line(None, _)));
    assert!(command.process_file("g.txt", &Vec::new(), &mut reported).is_empty());
}

#[test]
fn files_only_mode_reports_each_path_once() {
    let mut config = FileSearchConfig::new();
    config.pattern = Some(String::from("a"));
    config.files_with_matches = true;
    config.line_number = true;
    let command = GrepCommand::new(&config);
    let pattern = command.compile_pattern().unwrap();
    let matches = GrepCommand::search_file("f.txt", &lines(&["a", "a"]), &pattern);
    let mut reported = Vec::new();
    assert_eq!(command.process_file("f.txt", &matches, &mut reported).len(), 1);
    assert_eq!(command.process_file("f.txt", &matches, &mut reported).len(), 0);
    assert_eq!(reported, vec![String::from("f.txt")]);
}

#[test]
fn unreadable_files_are_passed_over_and_other_failures_reported() {
    assert!(GrepCommand::on_open_failure("/f", OpenFailure::PermissionDenied).is_ok());
    assert_eq!(
        GrepCommand::on_open_failure("/f", OpenFailure::Other),
        Err(String::from("Failed to open file: /f"))
    );
}

#[test]
fn a_malformed_expression_fails_with_the_message_of_the_compiler() {
    let expected = regex::Regex::new("[a-").unwrap_err().to_string();
    match Pattern::compile("[a-", true) {
        Err(CompileError::Malformed(message)) => assert_eq!(message, expected),
        other => panic!("unexpected: {:?}", other),
    }
    let failure = Pattern::compile("a{2,1}", false).unwrap_err();
    assert!(matches!(failure, CompileError::Malformed(_)));
    assert!(!failure.message().is_empty());
    let mut config = FileSearchConfig::new();
    config.pattern = Some(String::from("(unclosed"));
    assert!(matches!(
        GrepCommand::new(&config).compile_pattern(),
        Err(CompileError::Malformed(_))
    ));
}

#[test]
fn an_expression_over_the_size_limit_fails_as_too_large() {
    match Pattern::compile(r"\w{1000}", false) {
        Err(CompileError::TooLarge(message)) => {
            assert_eq!(message, "Compiled regex exceeds size limit of 10485760 bytes.")
        }
        other => panic!("unexpected: {:?}", other),
    }
    assert!(Pattern::compile(r"\w{3}", false).is_ok());
}

#[test]
fn a_pattern_matches_by_its_own_source_and_case() {
    let exact = Pattern::compile("^ab+$", false).unwrap();
    let folding = Pattern::compile("^ab+$", true).unwrap();
    assert_eq!(exact.as_text(), "^ab+$");
    assert!(exact.is_match("abb"));
    assert!(!exact.is_match("ABB"));
    assert!(folding.is_match("ABB"));
    assert!(!folding.is_match("ba"));
    assert_eq!(folding.as_text(), "^ab+$");
}
