use oqab::entry::FileEntry;
use oqab::filters::{
    CompositeFilter, DateFilter, ExtensionFilter, Filter, FilterError, FilterOperation,
    FilterResult, NameFilter, Predicate, RegexFilter, SizeFilter, TypedCompositeFilter,
};
use oqab::registry::FilterRegistry;

fn file(path: &str) -> FileEntry {
    FileEntry::file(path, 0, 0)
}

fn sized(path: &str, size: u64) -> FileEntry {
    FileEntry::file(path, size, 0)
}

#[test]
fn test_name_filter() {
    let file_path = file("/tmp/work/test.txt");
    let filter = NameFilter::new("test.txt");

    assert_eq!(filter.filter(&file_path), FilterResult::Accept);

    let other_file = file("/tmp/work/other.txt");
    assert_eq!(filter.filter(&other_file), FilterResult::Reject);

    assert_eq!(filter.filter(&FileEntry::directory("/tmp/work")), FilterResult::Accept);

    let wildcard_filter = NameFilter::new("*");
    assert_eq!(wildcard_filter.filter(&other_file), FilterResult::Accept);
}

#[test]
fn test_extension_filter() {
    let txt_file = file("/tmp/work/file.txt");
    let jpg_file = file("/tmp/work/image.jpg");
    let no_ext_file = file("/tmp/work/file");

    let filter = ExtensionFilter::new("txt");

    assert_eq!(filter.filter(&txt_file), FilterResult::Accept);
    assert_eq!(filter.filter(&jpg_file), FilterResult::Reject);
    assert_eq!(filter.filter(&no_ext_file), FilterResult::Reject);
    assert_eq!(filter.filter(&FileEntry::directory("/tmp/work")), FilterResult::Accept);

    let wildcard_filter = ExtensionFilter::new("*");
    assert_eq!(wildcard_filter.filter(&jpg_file), FilterResult::Accept);

    let empty_filter = ExtensionFilter::new("");
    assert_eq!(empty_filter.filter(&no_ext_file), FilterResult::Accept);
}

#[test]
fn test_size_filter() {
    let small_file = sized("/tmp/work/small.txt", 500);
    let medium_file = sized("/tmp/work/medium.txt", 1500);
    let large_file = sized("/tmp/work/large.txt", 2500);

    let min_filter = SizeFilter::min(1000);
    assert_eq!(min_filter.filter(&small_file), FilterResult::Reject);
    assert_eq!(min_filter.filter(&medium_file), FilterResult::Accept);
    assert_eq!(min_filter.filter(&large_file), FilterResult::Accept);

    let max_filter = SizeFilter::max(2000);
    assert_eq!(max_filter.filter(&small_file), FilterResult::Accept);
    assert_eq!(max_filter.filter(&medium_file), FilterResult::Accept);
    assert_eq!(max_filter.filter(&large_file), FilterResult::Reject);

    let range_filter = SizeFilter::range(1000, 2000);
    assert_eq!(range_filter.filter(&small_file), FilterResult::Reject);
    assert_eq!(range_filter.filter(&medium_file), FilterResult::Accept);
    assert_eq!(range_filter.filter(&large_file), FilterResult::Reject);

    assert_eq!(min_filter.filter(&FileEntry::directory("/tmp/work")), FilterResult::Accept);
}

#[test]
fn size_filter_bounds_are_inclusive() {
    let f = SizeFilter::range(1000, 2000);
    assert_eq!(f.filter(&sized("/t/a", 1000)), FilterResult::Accept);
    assert_eq!(f.filter(&sized("/t/a", 2000)), FilterResult::Accept);
    assert_eq!(f.filter(&sized("/t/a", 999)), FilterResult::Reject);
    assert_eq!(f.filter(&sized("/t/a", 2001)), FilterResult::Reject);
}

#[test]
fn unreadable_metadata_is_rejected() {
    let mut entry = file("/t/a.rs");
    entry.size = None;
    entry.modified = None;
    assert_eq!(SizeFilter::new(None, None).filter(&entry), FilterResult::Reject);
    assert_eq!(DateFilter::new(None, None).filter(&entry), FilterResult::Reject);
    assert_eq!(ExtensionFilter::new("rs").filter(&entry), FilterResult::Accept);
}

#[test]
fn extension_is_normalized_and_case_is_folded() {
    let entry = file("/src/Main.RS");
    assert_eq!(ExtensionFilter::new("rs").filter(&entry), FilterResult::Accept);
    assert_eq!(ExtensionFilter::new(".rs").filter(&entry), FilterResult::Accept);
    assert_eq!(ExtensionFilter::new("..rs").filter(&entry), FilterResult::Accept);
    assert_eq!(ExtensionFilter::new("r").filter(&entry), FilterResult::Reject);
    assert_eq!(ExtensionFilter::new("rs").filter(&file("/src/.rs")), FilterResult::Reject);
    assert_eq!(ExtensionFilter::new("gz").filter(&file("/a/b.tar.gz")), FilterResult::Accept);
    assert_eq!(ExtensionFilter::new("").filter(&file("/a.b/c")), FilterResult::Accept);
}

#[test]
fn name_filter_is_a_substring_match() {
    let entry = file("/src/main_loop.rs");
    assert_eq!(NameFilter::new("main").filter(&entry), FilterResult::Accept);
    assert_eq!(NameFilter::new("loop.rs").filter(&entry), FilterResult::Accept);
    assert_eq!(NameFilter::new("src").filter(&entry), FilterResult::Reject);
    assert_eq!(NameFilter::new("MAIN").filter(&entry), FilterResult::Reject);
    assert_eq!(NameFilter::case_insensitive("MAIN").filter(&entry), FilterResult::Accept);
    assert_eq!(NameFilter::new("").filter(&entry), FilterResult::Accept);
}

#[test]
fn ignoring_case_reaches_beyond_ascii_for_names_only() {
    let entry = file("/src/ÉTÉ.RS");
    assert_eq!(NameFilter::case_insensitive("été").filter(&entry), FilterResult::Accept);
    assert_eq!(NameFilter::case_insensitive("Été.rs").filter(&entry), FilterResult::Accept);
    assert_eq!(NameFilter::new("été").filter(&entry), FilterResult::Reject);
    assert_eq!(NameFilter::case_insensitive("ete").filter(&entry), FilterResult::Reject);
    assert_eq!(ExtensionFilter::new("rs").filter(&entry), FilterResult::Accept);
    assert_eq!(ExtensionFilter::new("ÉT").filter(&file("/a/b.ét")), FilterResult::Reject);
    assert_eq!(ExtensionFilter::new("ét").filter(&file("/a/b.ét")), FilterResult::Accept);
}

#[test]
fn regex_filter_matches_the_whole_path() {
    let filter = RegexFilter::new(r"^/src/.*\.rs$").unwrap();
    assert_eq!(filter.filter(&file("/src/a/b.rs")), FilterResult::Accept);
    assert_eq!(filter.filter(&file("/lib/b.rs")), FilterResult::Reject);
    assert_eq!(filter.filter(&FileEntry::directory("/lib")), FilterResult::Accept);
}

#[test]
fn regex_filter_rejects_a_bad_pattern() {
    match RegexFilter::new("foo(bar") {
        Err(FilterError::InvalidPattern(message)) => assert!(!message.is_empty()),
        other => panic!("unexpected: {:?}", other),
    }
}

#[test]
fn regex_filter_tells_a_large_pattern_from_a_bad_one() {
    match RegexFilter::new(r"\pL{2000}") {
        Err(FilterError::PatternTooLarge(message)) => assert!(message.contains("size limit")),
        other => panic!("unexpected: {:?}", other),
    }
    assert!(matches!(RegexFilter::new(r"\pL{2}"), Ok(_)));
    assert!(matches!(RegexFilter::new(r"\p{NoSuchClass}"), Err(FilterError::InvalidPattern(_))));
    assert!(matches!(
        oqab::filters::regex::compile_optional(Some("*")),
        Err(FilterError::InvalidPattern(_))
    ));
    assert!(matches!(oqab::filters::regex::compile_optional(None), Ok(None)));
    assert!(matches!(oqab::filters::regex::compile_optional(Some("")), Ok(Some(_))));
}

#[test]
fn regex_policy_reports_the_first_failure() {
    use_policy(Some("("), Some(r"\w{1000}"), true);
    use_policy(Some(r"\w{1000}"), Some("("), false);
    use_policy(None, Some("("), true);
    use_policy(Some("a"), Some(r"\w{1000}"), false);
    assert!(oqab::traversal::RegexTraversalStrategy::new(Some("a"), Some("b")).is_ok());
    assert!(oqab::traversal::RegexTraversalStrategy::new(None, None).is_ok());
}

fn use_policy(allow: Option<&str>, deny: Option<&str>, malformed: bool) {
    match oqab::traversal::RegexTraversalStrategy::new(allow, deny) {
        Err(FilterError::InvalidPattern(_)) => assert!(malformed),
        Err(FilterError::PatternTooLarge(_)) => assert!(!malformed),
        other => panic!("unexpected: {:?}", other),
    }
}

#[test]
fn date_filter_reads_iso_dates_as_utc_days() {
    let newer = DateFilter::newer_than("1970-01-02").unwrap();
    assert_eq!(newer.filter(&FileEntry::file("/a", 0, 86_399)), FilterResult::Reject);
    assert_eq!(newer.filter(&FileEntry::file("/a", 0, 86_400)), FilterResult::Accept);

    let older = DateFilter::older_than("1970-01-01").unwrap();
    assert_eq!(older.filter(&FileEntry::file("/a", 0, 86_399)), FilterResult::Accept);
    assert_eq!(older.filter(&FileEntry::file("/a", 0, 86_400)), FilterResult::Reject);

    let range = DateFilter::date_range("2015-05-15", "2015-05-15").unwrap();
    assert_eq!(range.filter(&FileEntry::file("/a", 0, 1_431_647_999)), FilterResult::Reject);
    assert_eq!(range.filter(&FileEntry::file("/a", 0, 1_431_648_000)), FilterResult::Accept);
    assert_eq!(range.filter(&FileEntry::file("/a", 0, 1_431_734_399)), FilterResult::Accept);
    assert_eq!(range.filter(&FileEntry::file("/a", 0, 1_431_734_400)), FilterResult::Reject);
    assert_eq!(range.filter(&FileEntry::directory("/d")), FilterResult::Accept);
}

#[test]
fn date_filter_rejects_what_is_no_date() {
    match DateFilter::newer_than("yesterday") {
        Err(FilterError::InvalidDate(message)) => assert!(!message.is_empty()),
        other => panic!("unexpected: {:?}", other),
    }
    assert!(matches!(DateFilter::older_than("2023-02-30"), Err(FilterError::InvalidDate(_))));
    assert!(matches!(
        DateFilter::date_range("2023-01-01", "soon"),
        Err(FilterError::InvalidDate(_))
    ));
}

#[test]
fn day_bounds_follow_the_epoch() {
    assert_eq!(oqab::filters::date::start_of_day(719_163), 0);
    assert_eq!(oqab::filters::date::end_of_day(719_163), 86_399);
    assert_eq!(oqab::filters::date::start_of_day(719_162), -86_400);
}

#[test]
fn composite_and_returns_the_first_refusal() {
    let mut all = CompositeFilter::new(FilterOperation::And);
    assert_eq!(all.filter(&file("/a.txt")), FilterResult::Accept);
    all.add_filter(Predicate::Name(NameFilter::new("main")));
    all.add_filter(Predicate::Extension(ExtensionFilter::new("rs")));
    assert_eq!(all.filter(&file("/x/main.rs")), FilterResult::Accept);
    assert_eq!(all.filter(&file("/x/main.txt")), FilterResult::Reject);
    assert_eq!(all.filter(&file("/x/lib.rs")), FilterResult::Reject);
}

#[test]
fn composite_or_accepts_if_any_child_accepts() {
    let any = CompositeFilter::new_with_filters(
        Predicate::Extension(ExtensionFilter::new("rs")),
        Predicate::Extension(ExtensionFilter::new("toml")),
        FilterOperation::Or,
    );
    assert_eq!(any.filter(&file("/a.rs")), FilterResult::Accept);
    assert_eq!(any.filter(&file("/a.toml")), FilterResult::Accept);
    assert_eq!(any.filter(&file("/a.lock")), FilterResult::Reject);
    let nested = CompositeFilter::new(FilterOperation::And)
        .with_filter(Predicate::Composite(any))
        .with_filter(Predicate::Size(SizeFilter::max(10)));
    assert_eq!(nested.filter(&sized("/a.rs", 10)), FilterResult::Accept);
    assert_eq!(nested.filter(&sized("/a.rs", 11)), FilterResult::Reject);
}

#[test]
fn extension_and_name_composite() {
    let both = CompositeFilter::with_extension_and_name(".rs", "main");
    assert_eq!(both.filter(&file("/main.rs")), FilterResult::Accept);
    assert_eq!(both.filter(&file("/main.txt")), FilterResult::Reject);
}

#[test]
fn typed_composite_combines_two_filters() {
    let and = TypedCompositeFilter::new(
        NameFilter::new("main"),
        ExtensionFilter::new("rs"),
        FilterOperation::And,
    );
    assert_eq!(and.filter(&file("/main.rs")), FilterResult::Accept);
    assert_eq!(and.filter(&file("/main.txt")), FilterResult::Reject);
    let or = TypedCompositeFilter::new(
        NameFilter::new("main"),
        ExtensionFilter::new("rs"),
        FilterOperation::Or,
    );
    assert_eq!(or.filter(&file("/lib.rs")), FilterResult::Accept);
    assert_eq!(or.filter(&file("/lib.txt")), FilterResult::Reject);
}

#[test]
fn registry_keeps_order_and_replaces_by_name() {
    let mut registry = FilterRegistry::new();
    assert_eq!(registry.apply_all(&file("/anything")), FilterResult::Accept);
    registry.register("extension", Predicate::Extension(ExtensionFilter::new("rs")));
    registry.register("size", Predicate::Size(SizeFilter::max(100)));
    assert_eq!(registry.len(), 2);
    assert_eq!(registry.position("size"), Some(1));
    assert_eq!(registry.apply_all(&sized("/a.rs", 100)), FilterResult::Accept);
    assert_eq!(registry.apply_all(&sized("/a.rs", 101)), FilterResult::Reject);

    registry.register("extension", Predicate::Extension(ExtensionFilter::new("txt")));
    assert_eq!(registry.len(), 2);
    assert_eq!(registry.position("extension"), Some(0));
    assert_eq!(registry.apply_all(&sized("/a.rs", 1)), FilterResult::Reject);
    assert_eq!(registry.apply_all(&sized("/a.txt", 1)), FilterResult::Accept);

    assert!(registry.get("size").is_some());
    assert!(registry.get("name").is_none());
    assert!(registry.remove("size").is_some());
    assert!(registry.remove("size").is_none());
    assert_eq!(registry.len(), 1);
    assert_eq!(registry.apply_all(&sized("/a.txt", 1000)), FilterResult::Accept);
}
