//! The standard search: a single-threaded descent that matches files
//! against the criteria of a configuration.

use vstd::prelude::*;
use vstd::string::StringExecFns;
use crate::config::{ConfigView, FileSearchConfig};
use crate::entry::{DirNode, EntryKind, EntryView, FileEntry};
use crate::filters::date::{date_decision, day_end, day_start, end_of_day, iso_day, parse_iso_day, start_of_day};
use crate::filters::extension::{strip_dots, without_leading_dots};
use crate::filters::name::{is_wildcard, is_wildcard_text, name_decision};
use crate::filters::size::size_decision;
use crate::filters::{DateFilter, Filter, FilterError, FilterResult, NameFilter, SizeFilter};
use crate::finder::paths;
use crate::level_order::{
    height, level_order, lemma_level_order_extends, lemma_level_order_paths_are_distinct,
    levels_below, walk_by_levels,
};
use crate::traversal::TraversalMode;
use crate::observer::SearchObserver;
use crate::text::{
    distinct, extension, file_name, lowercase, lowercase_of, same_text, texts, to_chars,
};
use crate::walk::{
    is_path_keyed, keys_of, lemma_walk_extends, lemma_walk_paths_are_distinct, levels, paths_of,
    views, walk, walk_tree, EntryRules, WalkState,
};

verus! {

/// Why a search could not be made.
#[derive(Debug)]
pub enum SearchError {
    /// Neither a name nor an extension was asked for.
    NoCriteriaError,
    /// The root is missing or is no directory; the text is its path.
    InvalidPathError(String),
    /// The search itself failed.
    ExecutionError(String),
    /// A criterion could not be read; the text says which.
    InvalidArgument(String),
}

impl SearchError {
    /// The error as one line of text.
    pub fn message(&self) -> (text: String)
        ensures
            text@ == match self {
                SearchError::NoCriteriaError => "No search criteria provided"@,
                SearchError::InvalidPathError(p) => "Invalid search path: "@ + p@,
                SearchError::ExecutionError(p) => "Search execution failed: "@ + p@,
                SearchError::InvalidArgument(p) => "Invalid argument value: "@ + p@,
            },
    {
        match self {
            SearchError::NoCriteriaError => String::from_str("No search criteria provided"),
            SearchError::InvalidPathError(p) => String::from_str("Invalid search path: ").concat(
                p.as_str(),
            ),
            SearchError::ExecutionError(p) => String::from_str("Search execution failed: ").concat(
                p.as_str(),
            ),
            SearchError::InvalidArgument(p) => String::from_str("Invalid argument value: ").concat(
                p.as_str(),
            ),
        }
    }
}

/// Figures of one finished search.
#[derive(Debug, Clone, Copy)]
pub struct SearchStats {
    pub elapsed_ms: u128,
    pub files_found: usize,
    pub dirs_processed: usize,
    pub files_processed: usize,
}

/// The bounds in seconds since the epoch that the two dates of a
/// configuration stand for: the first second of the `newer_than` day, the
/// last second of the `older_than` day. `None` where a date is set that is
/// no date.
pub open spec fn date_bounds(config: ConfigView) -> Option<DateFilter> {
    let newer = match config.newer_than {
        Some(text) => match iso_day(text) {
            Some(day) => Some(Some(day_start(day) as i64)),
            None => None,
        },
        None => Some(None),
    };
    let older = match config.older_than {
        Some(text) => match iso_day(text) {
            Some(day) => Some(Some(day_end(day) as i64)),
            None => None,
        },
        None => Some(None),
    };
    match (newer, older) {
        (Some(lo), Some(hi)) => Some(DateFilter::of(lo, hi)),
        _ => None,
    }
}

/// Reads the two dates of a configuration.
pub fn resolve_dates(config: &FileSearchConfig) -> (r: Result<DateFilter, FilterError>)
    ensures
        match date_bounds(config@) {
            Some(dates) => r == Ok::<DateFilter, FilterError>(dates),
            None => r is Err && r->Err_0 is InvalidDate,
        },
{
    let newer = match &config.newer_than {
        Some(text) => match parse_iso_day(text.as_str()) {
            Ok(day) => Some(start_of_day(day)),
            Err(e) => {
                return Err(e);
            },
        },
        None => None,
    };
    let older = match &config.older_than {
        Some(text) => match parse_iso_day(text.as_str()) {
            Ok(day) => Some(end_of_day(day)),
            Err(e) => {
                return Err(e);
            },
        },
        None => None,
    };
    Ok(DateFilter::new(newer, older))
}

/// Whether `entry` has the extension `wanted`, leading dots dropped:
/// directories pass; the wildcard passes everything; the empty text passes
/// the files without extension; any other text must equal the extension
/// when both are taken in lower case.
pub open spec fn has_extension(wanted: Seq<char>, entry: EntryView) -> bool {
    entry.is_dir() || is_wildcard(strip_dots(wanted)) || match entry.extension() {
        Some(found) => lowercase_of(found) == lowercase_of(strip_dots(wanted)),
        None => strip_dots(wanted).len() == 0,
    }
}

/// Tests whether `entry` has the extension `wanted`.
pub fn extension_is(wanted: &str, entry: &FileEntry) -> (r: bool)
    ensures
        r == has_extension(wanted@, entry@),
{
    if entry.kind == EntryKind::Directory {
        return true;
    }
    let given = to_chars(wanted);
    let bare = without_leading_dots(&given);
    if is_wildcard_text(&bare) {
        return true;
    }
    let path = to_chars(entry.path.as_str());
    let name = file_name(&path);
    match extension(&name) {
        Some(found) => same_text(&lowercase(&found), &lowercase(&bare)),
        None => bare.len() == 0,
    }
}

/// Whether `entry` meets every criterion that `config` sets: the extension,
/// with leading dots dropped, and the name, as a text that the file's name
/// holds, both compared in lower case; the size bounds; and the date bounds
/// `dates`. A criterion that is not set holds of every entry.
pub open spec fn file_matches(entry: EntryView, config: ConfigView, dates: DateFilter) -> bool {
    &&& config.file_extension matches Some(wanted) ==> has_extension(wanted, entry)
    &&& config.file_name matches Some(wanted) ==> name_decision(wanted, true, entry)
        == FilterResult::Accept
    &&& config.min_size is Some || config.max_size is Some ==> size_decision(
        config.min_size,
        config.max_size,
        entry,
    ) == FilterResult::Accept
    &&& dates.newer() is Some || dates.older() is Some ==> date_decision(
        dates.newer(),
        dates.older(),
        entry,
    ) == FilterResult::Accept
}

/// Tests `entry` against the criteria of `config` and the date bounds
/// `dates`.
pub fn match_file(entry: &FileEntry, config: &FileSearchConfig, dates: &DateFilter) -> (r: bool)
    ensures
        r == file_matches(entry@, config@, *dates),
{
    if let Some(wanted) = &config.file_extension {
        if !extension_is(wanted.as_str(), entry) {
            return false;
        }
    }
    if let Some(wanted) = &config.file_name {
        let filter = NameFilter::case_insensitive(wanted.as_str());
        if filter.filter(entry) != FilterResult::Accept {
            return false;
        }
    }
    if config.min_size.is_some() || config.max_size.is_some() {
        let filter = SizeFilter::new(config.min_size, config.max_size);
        if filter.filter(entry) != FilterResult::Accept {
            return false;
        }
    }
    if dates.has_bound() && dates.filter(entry) != FilterResult::Accept {
        return false;
    }
    true
}

/// The rules of the standard search: every directory is entered, and a
/// file matches where it meets the criteria of the configuration.
pub struct StandardRules<'a> {
    pub config: &'a FileSearchConfig,
    pub dates: DateFilter,
}

impl<'a> EntryRules for StandardRules<'a> {
    open spec fn enters(&self, entry: EntryView) -> bool {
        true
    }

    open spec fn matches(&self, entry: EntryView) -> bool {
        file_matches(entry, self.config@, self.dates)
    }

    open spec fn follows_links(&self) -> bool {
        self.config.follow_symlinks
    }

    open spec fn announces(&self) -> bool {
        true
    }

    fn may_enter(&self, entry: &FileEntry) -> (r: bool) {
        true
    }

    fn is_match(&self, entry: &FileEntry) -> (r: bool) {
        match_file(entry, self.config, &self.dates)
    }

    fn follow_links(&self) -> (r: bool) {
        self.config.follow_symlinks
    }

    fn announce_directories(&self) -> (r: bool) {
        true
    }
}

/// The levels below the root that `config` lets a search go: none where it
/// is not recursive, else as many as its depth limit says.
pub open spec fn depth_budget(config: ConfigView) -> Option<usize> {
    if config.recursive {
        config.max_depth
    } else {
        Some(0usize)
    }
}

/// The levels below the root that a search under `config` goes.
pub fn levels_to_search(config: &FileSearchConfig) -> (levels: Option<usize>)
    ensures
        levels == depth_budget(config@),
{
    if config.recursive {
        config.max_depth
    } else {
        Some(0)
    }
}

/// Walks the directory `node` with `remaining` levels left, tells
/// `observer` of every directory entered and every file matched, and adds
/// the matches to `matched`.
pub fn walk_directory<O: SearchObserver>(
    node: &DirNode,
    config: &FileSearchConfig,
    dates: DateFilter,
    remaining: Option<usize>,
    observer: &mut O,
    matched: &mut Vec<FileEntry>,
)
    ensures
        views(final(matched)@) == walk::<StandardRules, O>(
            *node,
            levels(remaining),
            StandardRules { config, dates },
            WalkState { matched: views(old(matched)@), observer: old(observer).state() },
        ).matched,
        final(observer).state() == walk::<StandardRules, O>(
            *node,
            levels(remaining),
            StandardRules { config, dates },
            WalkState { matched: views(old(matched)@), observer: old(observer).state() },
        ).observer,
{
    let rules = StandardRules { config, dates };
    walk_tree(node, remaining, &rules, observer, matched);
}

/// Whether the search of `root` under `config` goes in level order: the
/// configuration asks for breadth first, and the tree is no deeper than the
/// machine can count or the configuration limits the depth.
pub open spec fn goes_by_levels(root: DirNode, config: ConfigView) -> bool {
    config.traversal_mode == TraversalMode::BreadthFirst && (depth_budget(config) is Some
        || height(root) <= usize::MAX)
}

/// What the standard search of `root` under `config` gathers, where the
/// dates of `config` stand for the bounds `dates`: the walk in level order
/// or the depth-first walk, as the configuration asks.
pub open spec fn standard_outcome<O: SearchObserver>(
    root: DirNode,
    config: &FileSearchConfig,
    dates: DateFilter,
    observer: O::State,
) -> WalkState<O::State> {
    if goes_by_levels(root, config@) {
        level_order::<StandardRules, O>(
            root,
            levels(depth_budget(config@)),
            StandardRules { config, dates },
            WalkState { matched: Seq::empty(), observer },
        )
    } else {
        walk::<StandardRules, O>(
            root,
            levels(depth_budget(config@)),
            StandardRules { config, dates },
            WalkState { matched: Seq::empty(), observer },
        )
    }
}

/// The standard search returns no file twice: no two matches have one key,
/// and where the tree holds no path under two keys, no two have one path.
pub proof fn lemma_standard_search_is_distinct<O: SearchObserver>(
    root: DirNode,
    config: &FileSearchConfig,
    dates: DateFilter,
    observer: O::State,
)
    ensures
        distinct(keys_of(standard_outcome::<O>(root, config, dates, observer).matched)),
        is_path_keyed(root) ==> distinct(
            paths_of(standard_outcome::<O>(root, config, dates, observer).matched),
        ),
{
    let st = WalkState::<O::State> { matched: Seq::empty(), observer };
    let rules = StandardRules { config, dates };
    let remaining = levels(depth_budget(config@));
    assert(keys_of(st.matched) =~= Seq::empty());
    if goes_by_levels(root, config@) {
        lemma_level_order_extends::<StandardRules, O>(root, remaining, rules, st);
        if is_path_keyed(root) {
            lemma_level_order_paths_are_distinct::<StandardRules, O>(root, remaining, rules, st);
        }
    } else {
        lemma_walk_extends::<StandardRules, O>(root, remaining, rules, st);
        if is_path_keyed(root) {
            lemma_walk_paths_are_distinct::<StandardRules, O>(root, remaining, rules, st);
        }
    }
}

/// Searches the snapshot `root` under `config` without a worker pool.
///
/// A root that is no directory is refused, and so is a configuration with a
/// date that is no date; both before anything is walked. Otherwise the
/// paths of the matching files come back in the order in which the walk
/// found them: level by level where the configuration asks for breadth
/// first, each directory with everything below it otherwise. No file comes
/// back twice.
pub fn search_directory<O: SearchObserver>(
    root: &DirNode,
    config: &FileSearchConfig,
    observer: &mut O,
) -> (r: Result<Vec<String>, SearchError>)
    ensures
        root.entry@.kind != EntryKind::Directory ==> r is Err && r->Err_0 is InvalidPathError
            && r->Err_0->InvalidPathError_0@ == root.entry@.path,
        root.entry@.kind == EntryKind::Directory && date_bounds(config@) is None ==> r is Err
            && r->Err_0 is InvalidArgument,
        r is Err ==> final(observer).state() == old(observer).state(),
        root.entry@.kind == EntryKind::Directory && date_bounds(config@) is Some ==> r is Ok
            && texts(r->Ok_0@) == paths_of(
            standard_outcome::<O>(
                *root,
                config,
                date_bounds(config@)->0,
                old(observer).state(),
            ).matched,
        ) && final(observer).state() == standard_outcome::<O>(
            *root,
            config,
            date_bounds(config@)->0,
            old(observer).state(),
        ).observer,
        r matches Ok(found) ==> distinct(
            keys_of(
                standard_outcome::<O>(
                    *root,
                    config,
                    date_bounds(config@)->0,
                    old(observer).state(),
                ).matched,
            ),
        ),
        r matches Ok(found) ==> (is_path_keyed(*root) ==> distinct(texts(found@))),
{
    proof {
        if date_bounds(config@) is Some {
            lemma_standard_search_is_distinct::<O>(
                *root,
                config,
                date_bounds(config@)->0,
                old(observer).state(),
            );
        }
    }
    if root.entry.kind != EntryKind::Directory {
        return Err(SearchError::InvalidPathError(root.entry.path.clone()));
    }
    let dates = match resolve_dates(config) {
        Ok(dates) => dates,
        Err(e) => {
            return Err(SearchError::InvalidArgument(String::from_str("date")));
        },
    };
    let remaining = levels_to_search(config);
    let mut matched: Vec<FileEntry> = Vec::new();
    assert(views(matched@) =~= Seq::empty());
    let by_levels = match config.traversal_mode {
        TraversalMode::BreadthFirst => remaining.is_some() || levels_below(root).is_some(),
        TraversalMode::DepthFirst => false,
    };
    if by_levels {
        let rules = StandardRules { config, dates };
        walk_by_levels(root, remaining, &rules, observer, &mut matched);
    } else {
        walk_directory(root, config, dates, remaining, observer, &mut matched);
    }
    Ok(paths(&matched))
}

} // verus!
