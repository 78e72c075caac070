//! The description of one search.

use vstd::prelude::*;
use vstd::string::StringExecFns;
use crate::traversal::TraversalMode;

verus! {

/// Why a stored configuration could not be used.
#[derive(Debug)]
pub enum ConfigError {
    /// The file at this path could not be read.
    ReadError(String),
    /// The file at this path does not hold a configuration.
    ParseError(String),
    /// The file at this path could not be written.
    WriteError(String),
}

impl ConfigError {
    /// The error as one line of text.
    pub fn message(&self) -> (text: String)
        ensures
            text@ == match self {
                ConfigError::ReadError(p) => "Failed to read config file: "@ + p@,
                ConfigError::ParseError(p) => "Failed to parse config file: "@ + p@,
                ConfigError::WriteError(p) => "Failed to write config file: "@ + p@,
            },
    {
        match self {
            ConfigError::ReadError(p) => String::from_str("Failed to read config file: ").concat(
                p.as_str(),
            ),
            ConfigError::ParseError(p) => String::from_str("Failed to parse config file: ").concat(
                p.as_str(),
            ),
            ConfigError::WriteError(p) => String::from_str("Failed to write config file: ").concat(
                p.as_str(),
            ),
        }
    }
}

/// The text of an optional string.
pub open spec fn opt_text(o: Option<String>) -> Option<Seq<char>> {
    match o {
        Some(s) => Some(s@),
        None => None,
    }
}

/// A copy of an optional string.
pub fn clone_opt(o: &Option<String>) -> (r: Option<String>)
    ensures
        opt_text(r) == opt_text(*o),
{
    match o {
        Some(s) => Some(s.clone()),
        None => None,
    }
}

/// Everything that describes one search.
#[derive(Debug, Clone)]
pub struct FileSearchConfig {
    /// The root directory; the current directory where absent.
    pub path: Option<String>,
    pub file_extension: Option<String>,
    /// Text that a file's name must hold.
    pub file_name: Option<String>,
    /// Expression to look for inside the matched files.
    pub pattern: Option<String>,
    pub ignore_case: bool,
    pub line_number: bool,
    pub files_with_matches: bool,
    pub fuzzy: bool,
    /// Score that a fuzzy match must exceed.
    pub fuzzy_threshold: Option<u8>,
    pub help: bool,
    pub advanced_search: bool,
    pub thread_count: Option<usize>,
    pub show_progress: bool,
    pub quiet_mode: bool,
    pub recursive: bool,
    pub follow_symlinks: bool,
    pub traversal_mode: TraversalMode,
    /// Levels below the root that are searched; unbounded where absent.
    pub max_depth: Option<usize>,
    pub min_size: Option<u64>,
    pub max_size: Option<u64>,
    /// `YYYY-MM-DD`: files modified on that day or later.
    pub newer_than: Option<String>,
    /// `YYYY-MM-DD`: files modified on that day or earlier.
    pub older_than: Option<String>,
}

/// The mathematical value of a `FileSearchConfig`.
pub struct ConfigView {
    pub path: Option<Seq<char>>,
    pub file_extension: Option<Seq<char>>,
    pub file_name: Option<Seq<char>>,
    pub pattern: Option<Seq<char>>,
    pub ignore_case: bool,
    pub line_number: bool,
    pub files_with_matches: bool,
    pub fuzzy: bool,
    pub fuzzy_threshold: Option<u8>,
    pub help: bool,
    pub advanced_search: bool,
    pub thread_count: Option<usize>,
    pub show_progress: bool,
    pub quiet_mode: bool,
    pub recursive: bool,
    pub follow_symlinks: bool,
    pub traversal_mode: TraversalMode,
    pub max_depth: Option<usize>,
    pub min_size: Option<u64>,
    pub max_size: Option<u64>,
    pub newer_than: Option<Seq<char>>,
    pub older_than: Option<Seq<char>>,
}

impl ConfigView {
    /// The configuration of a search that nobody has configured: recursive,
    /// with progress shown, breadth first, and no criterion set.
    pub open spec fn defaults() -> ConfigView {
        ConfigView {
            path: None,
            file_extension: None,
            file_name: None,
            pattern: None,
            ignore_case: false,
            line_number: false,
            files_with_matches: false,
            fuzzy: false,
            fuzzy_threshold: None,
            help: false,
            advanced_search: false,
            thread_count: None,
            show_progress: true,
            quiet_mode: false,
            recursive: true,
            follow_symlinks: false,
            traversal_mode: TraversalMode::BreadthFirst,
            max_depth: None,
            min_size: None,
            max_size: None,
            newer_than: None,
            older_than: None,
        }
    }

    /// The root directory of the search: the path, `.` where none is set.
    pub open spec fn search_path(self) -> Seq<char> {
        match self.path {
            Some(path) => path,
            None => "."@,
        }
    }

    /// Whether a name, an extension or a content pattern is set.
    pub open spec fn has_criteria(self) -> bool {
        self.file_extension is Some || self.file_name is Some || self.pattern is Some
    }
}

impl View for FileSearchConfig {
    type V = ConfigView;

    open spec fn view(&self) -> ConfigView {
        ConfigView {
            path: opt_text(self.path),
            file_extension: opt_text(self.file_extension),
            file_name: opt_text(self.file_name),
            pattern: opt_text(self.pattern),
            ignore_case: self.ignore_case,
            line_number: self.line_number,
            files_with_matches: self.files_with_matches,
            fuzzy: self.fuzzy,
            fuzzy_threshold: self.fuzzy_threshold,
            help: self.help,
            advanced_search: self.advanced_search,
            thread_count: self.thread_count,
            show_progress: self.show_progress,
            quiet_mode: self.quiet_mode,
            recursive: self.recursive,
            follow_symlinks: self.follow_symlinks,
            traversal_mode: self.traversal_mode,
            max_depth: self.max_depth,
            min_size: self.min_size,
            max_size: self.max_size,
            newer_than: opt_text(self.newer_than),
            older_than: opt_text(self.older_than),
        }
    }
}

/// Progress is shown unless the configuration says otherwise.
pub fn default_show_progress() -> (r: bool)
    ensures
        r,
{
    true
}

/// A search is recursive unless the configuration says otherwise.
pub fn default_recursive() -> (r: bool)
    ensures
        r,
{
    true
}

impl FileSearchConfig {
    pub fn new() -> (c: FileSearchConfig)
        ensures
            c@ == ConfigView::defaults(),
    {
        FileSearchConfig {
            path: None,
            file_extension: None,
            file_name: None,
            pattern: None,
            ignore_case: false,
            line_number: false,
            files_with_matches: false,
            fuzzy: false,
            fuzzy_threshold: None,
            help: false,
            advanced_search: false,
            thread_count: None,
            show_progress: default_show_progress(),
            quiet_mode: false,
            recursive: default_recursive(),
            follow_symlinks: false,
            traversal_mode: TraversalMode::BreadthFirst,
            max_depth: None,
            min_size: None,
            max_size: None,
            newer_than: None,
            older_than: None,
        }
    }

    /// The root directory, `.` where none is set.
    pub fn get_path(&self) -> (p: &str)
        ensures
            p@ == self@.search_path(),
    {
        match &self.path {
            Some(path) => path.as_str(),
            None => ".",
        }
    }

    /// A copy of the configuration.
    pub fn duplicate(&self) -> (c: FileSearchConfig)
        ensures
            c@ == self@,
    {
        FileSearchConfig {
            path: clone_opt(&self.path),
            file_extension: clone_opt(&self.file_extension),
            file_name: clone_opt(&self.file_name),
            pattern: clone_opt(&self.pattern),
            ignore_case: self.ignore_case,
            line_number: self.line_number,
            files_with_matches: self.files_with_matches,
            fuzzy: self.fuzzy,
            fuzzy_threshold: self.fuzzy_threshold,
            help: self.help,
            advanced_search: self.advanced_search,
            thread_count: self.thread_count,
            show_progress: self.show_progress,
            quiet_mode: self.quiet_mode,
            recursive: self.recursive,
            follow_symlinks: self.follow_symlinks,
            traversal_mode: self.traversal_mode,
            max_depth: self.max_depth,
            min_size: self.min_size,
            max_size: self.max_size,
            newer_than: clone_opt(&self.newer_than),
            older_than: clone_opt(&self.older_than),
        }
    }
}

impl Default for FileSearchConfig {
    fn default() -> (c: FileSearchConfig)
        ensures
            c@ == ConfigView::defaults(),
    {
        FileSearchConfig::new()
    }
}

/// The settings from which a finder is put together.
#[derive(Debug, Clone)]
pub struct AppConfig {
    pub root_dir: String,
    pub extension: Option<String>,
    pub name: Option<String>,
    /// Expression that a file's path must match.
    pub pattern: Option<String>,
    pub min_size: Option<u64>,
    pub max_size: Option<u64>,
    pub newer_than: Option<String>,
    pub older_than: Option<String>,
    /// A lower bound on the size that takes the place of `min_size` and
    /// `max_size`.
    pub size: Option<u64>,
    pub depth: Option<usize>,
    pub threads: Option<usize>,
    pub follow_links: Option<bool>,
    pub show_progress: Option<bool>,
    pub quiet: Option<bool>,
}

impl AppConfig {
    /// Settings for a search below `root_dir` with no criterion set.
    pub fn new(root_dir: &str) -> (c: AppConfig)
        ensures
            c.root_dir@ == root_dir@,
            c.extension is None,
            c.name is None,
            c.pattern is None,
            c.min_size is None,
            c.max_size is None,
            c.newer_than is None,
            c.older_than is None,
            c.size is None,
            c.depth is None,
            c.threads is None,
            c.follow_links == Some(false),
            c.show_progress == Some(true),
            c.quiet == Some(false),
    {
        AppConfig {
            root_dir: root_dir.to_string(),
            extension: None,
            name: None,
            pattern: None,
            min_size: None,
            max_size: None,
            newer_than: None,
            older_than: None,
            size: None,
            depth: None,
            threads: None,
            follow_links: Some(false),
            show_progress: Some(true),
            quiet: Some(false),
        }
    }
}

} // verus!
