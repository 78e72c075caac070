use oqab::commands::FuzzyCommand;
use oqab::config::FileSearchConfig;
use oqab::fuzzy::{insert_ranked, keeps, rank, FuzzyMatch};

fn scored(path: &str, score: i64) -> FuzzyMatch {
    FuzzyMatch { path: path.to_string(), score }
}

#[test]
fn ranking_puts_the_highest_score_first() {
    let ranked = rank(vec![scored("a", 10), scored("b", 30), scored("c", 20), scored("d", 30)]);
    let order: Vec<(&str, i64)> = ranked.iter().map(|m| (m.path.as_str(), m.score)).collect();
    assert_eq!(order, vec![("b", 30), ("d", 30), ("c", 20), ("a", 10)]);
    let mut list = vec![scored("x", 5)];
    insert_ranked(&mut list, scored("y", 5));
    insert_ranked(&mut list, scored("z", 9));
    let order: Vec<&str> = list.iter().map(|m| m.path.as_str()).collect();
    assert_eq!(order, vec!["z", "x", "y"]);
}

#[test]
fn threshold_must_be_exceeded() {
    assert!(keeps(Some(51), 50));
    assert!(!keeps(Some(50), 50));
    assert!(!keeps(None, 50));
}

#[test]
fn fuzzy_search_scores_file_names_not_paths() {
    let mut config = FileSearchConfig::new();
    config.file_name = Some(String::from("config"));
    config.fuzzy_threshold = Some(1);
    let files = vec![
        String::from("/config/readme.md"),
        String::from("/etc/app/config.toml"),
        String::from("/etc/app/cnofig"),
        String::from("/src/my_configuration.rs"),
    ];
    let command = FuzzyCommand::new(&config);
    let kept = command.select(&files);
    let kept_paths: Vec<&str> = kept.iter().map(|m| m.path.as_str()).collect();
    assert_eq!(kept_paths, vec!["/etc/app/config.toml", "/src/my_configuration.rs"]);
    let ranked = command.process_files(&files);
    assert_eq!(ranked.len(), 2);
    assert!(ranked[0].score >= ranked[1].score);
    assert!(ranked.iter().all(|m| m.score > 1));

    config.file_name = None;
    assert!(FuzzyCommand::new(&config).process_files(&files).is_empty());
}

#[test]
fn insertion_goes_in_front_of_the_first_lower_score() {
    let mut list = vec![scored("a", 3), scored("b", 9), scored("c", 1)];
    insert_ranked(&mut list, scored("n", 5));
    let order: Vec<&str> = list.iter().map(|m| m.path.as_str()).collect();
    assert_eq!(order, vec!["n", "a", "b", "c"]);
    let mut list = vec![scored("a", 9), scored("b", 7)];
    insert_ranked(&mut list, scored("n", 1));
    let order: Vec<&str> = list.iter().map(|m| m.path.as_str()).collect();
    assert_eq!(order, vec!["a", "b", "n"]);
    let mut empty: Vec<FuzzyMatch> = Vec::new();
    insert_ranked(&mut empty, scored("n", 0));
    assert_eq!(empty.len(), 1);
}
