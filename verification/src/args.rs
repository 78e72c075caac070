//! The command line, once its words are told apart, and how it becomes a
//! configuration.

use vstd::prelude::*;
use vstd::string::StringExecFns;
use crate::config::{clone_opt, opt_text, ConfigView, FileSearchConfig};
use crate::filters::date::{iso_day, parse_iso_day};
use crate::size::{parse_size, size_of_text};
use crate::traversal::TraversalMode;

verus! {

/// Why the command line could not be used.
#[derive(Debug)]
pub enum ArgsError {
    ParseError(String),
    ConfigLoadError(String),
    ConfigSaveError(String),
    InvalidValue(String),
}

impl ArgsError {
    /// The error as one line of text.
    pub fn message(&self) -> (text: String)
        ensures
            text@ == match self {
                ArgsError::ParseError(m) => "Failed to parse command line arguments: "@ + m@,
                ArgsError::ConfigLoadError(m) => "Failed to load configuration: "@ + m@,
                ArgsError::ConfigSaveError(m) => "Failed to save configuration: "@ + m@,
                ArgsError::InvalidValue(m) => "Invalid argument value: "@ + m@,
            },
    {
        match self {
            ArgsError::ParseError(m) => String::from_str(
                "Failed to parse command line arguments: ",
            ).concat(m.as_str()),
            ArgsError::ConfigLoadError(m) => String::from_str(
                "Failed to load configuration: ",
            ).concat(m.as_str()),
            ArgsError::ConfigSaveError(m) => String::from_str(
                "Failed to save configuration: ",
            ).concat(m.as_str()),
            ArgsError::InvalidValue(m) => String::from_str("Invalid argument value: ").concat(
                m.as_str(),
            ),
        }
    }
}

/// The traversal orders that the command line knows: `bfs` and `dfs`.
#[derive(Debug, Clone, Copy, PartialEq, Eq, Structural)]
pub enum TraversalType {
    BreadthFirst,
    DepthFirst,
}

/// The traversal mode that a command-line word stands for.
pub open spec fn mode_of(t: TraversalType) -> TraversalMode {
    match t {
        TraversalType::BreadthFirst => TraversalMode::BreadthFirst,
        TraversalType::DepthFirst => TraversalMode::DepthFirst,
    }
}

impl TraversalType {
/// The traversal mode that the word stands for.
    pub fn to_mode(self) -> (m: TraversalMode)
        ensures
            m == mode_of(self),
    {
        match self {
            TraversalType::BreadthFirst => TraversalMode::BreadthFirst,
            TraversalType::DepthFirst => TraversalMode::DepthFirst,
        }
    }
}

/// The options of the command line.
#[derive(Debug, Clone)]
pub struct Args {
    /// The positional word: a name to look for unless another criterion is
    /// given.
    pub query: Option<String>,
    pub help: bool,
    pub path: Option<String>,
    pub extension: Option<String>,
    pub name: Option<String>,
    pub pattern: Option<String>,
    pub ignore_case: bool,
    pub line_number: bool,
    pub files_with_matches: bool,
    pub advanced: bool,
    pub silent: bool,
    pub workers: Option<usize>,
    pub config_file: Option<String>,
    pub save_config_file: Option<String>,
    pub traversal: Option<TraversalType>,
    pub quiet: bool,
    pub no_recursive: bool,
    pub follow_symlinks: bool,
    pub min_size: Option<String>,
    pub max_size: Option<String>,
    pub newer_than: Option<String>,
    pub older_than: Option<String>,
}

/// The mathematical value of `Args`.
pub struct ArgsView {
    pub query: Option<Seq<char>>,
    pub help: bool,
    pub path: Option<Seq<char>>,
    pub extension: Option<Seq<char>>,
    pub name: Option<Seq<char>>,
    pub pattern: Option<Seq<char>>,
    pub ignore_case: bool,
    pub line_number: bool,
    pub files_with_matches: bool,
    pub advanced: bool,
    pub silent: bool,
    pub workers: Option<usize>,
    pub config_file: Option<Seq<char>>,
    pub save_config_file: Option<Seq<char>>,
    pub traversal: Option<TraversalType>,
    pub quiet: bool,
    pub no_recursive: bool,
    pub follow_symlinks: bool,
    pub min_size: Option<Seq<char>>,
    pub max_size: Option<Seq<char>>,
    pub newer_than: Option<Seq<char>>,
    pub older_than: Option<Seq<char>>,
}

impl View for Args {
    type V = ArgsView;

    open spec fn view(&self) -> ArgsView {
        ArgsView {
            query: opt_text(self.query),
            help: self.help,
            path: opt_text(self.path),
            extension: opt_text(self.extension),
            name: opt_text(self.name),
            pattern: opt_text(self.pattern),
            ignore_case: self.ignore_case,
            line_number: self.line_number,
            files_with_matches: self.files_with_matches,
            advanced: self.advanced,
            silent: self.silent,
            workers: self.workers,
            config_file: opt_text(self.config_file),
            save_config_file: opt_text(self.save_config_file),
            traversal: self.traversal,
            quiet: self.quiet,
            no_recursive: self.no_recursive,
            follow_symlinks: self.follow_symlinks,
            min_size: opt_text(self.min_size),
            max_size: opt_text(self.max_size),
            newer_than: opt_text(self.newer_than),
            older_than: opt_text(self.older_than),
        }
    }
}

/// The size that an optional text stands for, `fallback` where there is no
/// text or the text is no size.
pub open spec fn size_or(text: Option<Seq<char>>, fallback: Option<u64>) -> Option<u64> {
    match text {
        Some(t) => match size_of_text(t) {
            Some(v) => Some(v),
            None => fallback,
        },
        None => fallback,
    }
}

/// The configuration `c` with the whole command line written over it: a
/// given path, worker count, traversal and readable size replace what `c`
/// holds; every other option replaces it whether given or not.
pub open spec fn applied(a: ArgsView, c: ConfigView) -> ConfigView {
    ConfigView {
        path: if a.path is Some {
            a.path
        } else {
            c.path
        },
        file_extension: a.extension,
        file_name: a.name,
        pattern: a.pattern,
        ignore_case: a.ignore_case,
        line_number: a.line_number,
        files_with_matches: a.files_with_matches,
        help: a.help,
        thread_count: if a.workers is Some {
            a.workers
        } else {
            c.thread_count
        },
        advanced_search: a.advanced,
        traversal_mode: match a.traversal {
            Some(t) => mode_of(t),
            None => c.traversal_mode,
        },
        min_size: size_or(a.min_size, c.min_size),
        max_size: size_or(a.max_size, c.max_size),
        newer_than: a.newer_than,
        older_than: a.older_than,
        show_progress: !a.quiet && !a.silent,
        recursive: !a.no_recursive,
        follow_symlinks: a.follow_symlinks,
        ..c
    }
}

/// The configuration `c` with only what the command line says explicitly
/// written over it: given values replace, set flags switch on (or, for
/// `quiet` and `no_recursive`, off), and everything else stays.
pub open spec fn overlaid(a: ArgsView, c: ConfigView) -> ConfigView {
    ConfigView {
        path: if a.path is Some {
            a.path
        } else {
            c.path
        },
        file_extension: if a.extension is Some {
            a.extension
        } else {
            c.file_extension
        },
        file_name: if a.name is Some {
            a.name
        } else {
            c.file_name
        },
        pattern: if a.pattern is Some {
            a.pattern
        } else {
            c.pattern
        },
        ignore_case: a.ignore_case || c.ignore_case,
        line_number: a.line_number || c.line_number,
        files_with_matches: a.files_with_matches || c.files_with_matches,
        thread_count: if a.workers is Some {
            a.workers
        } else {
            c.thread_count
        },
        traversal_mode: match a.traversal {
            Some(t) => mode_of(t),
            None => c.traversal_mode,
        },
        help: a.help || c.help,
        advanced_search: a.advanced || c.advanced_search,
        show_progress: !a.quiet && c.show_progress,
        recursive: !a.no_recursive && c.recursive,
        follow_symlinks: a.follow_symlinks || c.follow_symlinks,
        ..c
    }
}

/// The configuration with the positional word as the name to look for,
/// where no name, extension or content pattern is set.
pub open spec fn with_query(a: ArgsView, c: ConfigView) -> ConfigView {
    if a.query is Some && !c.has_criteria() {
        ConfigView { file_name: a.query, ..c }
    } else {
        c
    }
}

/// An optional text that, where present, is a size.
pub open spec fn size_is_readable(text: Option<Seq<char>>) -> bool {
    text matches Some(t) ==> size_of_text(t) is Some
}

/// An optional text that, where present, is a date.
pub open spec fn date_is_readable(text: Option<Seq<char>>) -> bool {
    text matches Some(t) ==> iso_day(t) is Some
}

/// The command line is valid: the worker count is not zero, a given path
/// exists, and the sizes and dates can be read.
pub open spec fn valid(a: ArgsView, path_exists: bool) -> bool {
    &&& a.workers != Some(0usize)
    &&& a.path is Some ==> path_exists
    &&& size_is_readable(a.min_size)
    &&& size_is_readable(a.max_size)
    &&& date_is_readable(a.newer_than)
    &&& date_is_readable(a.older_than)
}

/// What became of the configuration file that the command line names.
#[derive(Debug)]
pub enum ConfigSource {
    /// The command line names none.
    NotRequested,
    /// The file does not exist.
    Missing,
    /// The file could not be read as a configuration.
    Unreadable(String),
    Loaded(FileSearchConfig),
}

/// The configuration that a valid command line and its configuration file
/// give, or `None` where the file is missing or unreadable.
pub open spec fn processed(a: ArgsView, source: ConfigSource) -> Option<ConfigView> {
    match source {
        ConfigSource::NotRequested => Some(with_query(a, applied(a, ConfigView::defaults()))),
        ConfigSource::Loaded(loaded) => Some(overlaid(a, loaded@)),
        _ => None,
    }
}

fn check_size(text: &Option<String>) -> (r: bool)
    ensures
        r == size_is_readable(opt_text(*text)),
{
    match text {
        Some(t) => parse_size(t.as_str()).is_some(),
        None => true,
    }
}

fn check_date(text: &Option<String>) -> (r: bool)
    ensures
        r == date_is_readable(opt_text(*text)),
{
    match text {
        Some(t) => parse_iso_day(t.as_str()).is_ok(),
        None => true,
    }
}

fn read_size(text: &Option<String>, fallback: Option<u64>) -> (r: Option<u64>)
    ensures
        r == size_or(opt_text(*text), fallback),
{
    match text {
        Some(t) => match parse_size(t.as_str()) {
            Some(v) => Some(v),
            None => fallback,
        },
        None => fallback,
    }
}

impl Args {
    /// A command line without any option.
    pub fn new() -> (a: Args)
        ensures
            a@ == (ArgsView {
                query: None,
                help: false,
                path: None,
                extension: None,
                name: None,
                pattern: None,
                ignore_case: false,
                line_number: false,
                files_with_matches: false,
                advanced: false,
                silent: false,
                workers: None,
                config_file: None,
                save_config_file: None,
                traversal: None,
                quiet: false,
                no_recursive: false,
                follow_symlinks: false,
                min_size: None,
                max_size: None,
                newer_than: None,
                older_than: None,
            }),
    {
        Args {
            query: None,
            help: false,
            path: None,
            extension: None,
            name: None,
            pattern: None,
            ignore_case: false,
            line_number: false,
            files_with_matches: false,
            advanced: false,
            silent: false,
            workers: None,
            config_file: None,
            save_config_file: None,
            traversal: None,
            quiet: false,
            no_recursive: false,
            follow_symlinks: false,
            min_size: None,
            max_size: None,
            newer_than: None,
            older_than: None,
        }
    }

    /// Reads a size such as `10kb` or `5mb`.
    pub fn parse_size(size_str: &str) -> (r: Result<u64, ArgsError>)
        ensures
            match size_of_text(size_str@) {
                Some(v) => r == Ok::<u64, ArgsError>(v),
                None => r is Err && r->Err_0 is InvalidValue,
            },
    {
        match parse_size(size_str) {
            Some(v) => Ok(v),
            None => Err(
                ArgsError::InvalidValue(
                    String::from_str("Invalid size format: ").concat(size_str),
                ),
            ),
        }
    }

    /// The configuration that the command line alone gives.
    pub fn to_config(&self) -> (c: FileSearchConfig)
        ensures
            c@ == applied(self@, ConfigView::defaults()),
    {
        let mut config = FileSearchConfig::new();
        self.apply_to_config(&mut config);
        config
    }

    /// Writes the whole command line over `config`.
    #[verifier::rlimit(60)]
    pub fn apply_to_config(&self, config: &mut FileSearchConfig)
        ensures
            final(config)@ == applied(self@, old(config)@),
    {
        let written = FileSearchConfig {
            path: if self.path.is_some() {
                clone_opt(&self.path)
            } else {
                clone_opt(&config.path)
            },
            file_extension: clone_opt(&self.extension),
            file_name: clone_opt(&self.name),
            pattern: clone_opt(&self.pattern),
            ignore_case: self.ignore_case,
            line_number: self.line_number,
            files_with_matches: self.files_with_matches,
            fuzzy: config.fuzzy,
            fuzzy_threshold: config.fuzzy_threshold,
            help: self.help,
            advanced_search: self.advanced,
            thread_count: if self.workers.is_some() {
                self.workers
            } else {
                config.thread_count
            },
            show_progress: !self.quiet && !self.silent,
            quiet_mode: config.quiet_mode,
            recursive: !self.no_recursive,
            follow_symlinks: self.follow_symlinks,
            traversal_mode: match self.traversal {
                Some(t) => t.to_mode(),
                None => config.traversal_mode,
            },
            max_depth: config.max_depth,
            min_size: read_size(&self.min_size, config.min_size),
            max_size: read_size(&self.max_size, config.max_size),
            newer_than: clone_opt(&self.newer_than),
            older_than: clone_opt(&self.older_than),
        };
        *config = written;
    }

    /// Writes over `config` only what the command line says explicitly.
    pub fn selective_apply_to_config(&self, config: &mut FileSearchConfig)
        ensures
            final(config)@ == overlaid(self@, old(config)@),
    {
        let written = FileSearchConfig {
            path: if self.path.is_some() {
                clone_opt(&self.path)
            } else {
                clone_opt(&config.path)
            },
            file_extension: if self.extension.is_some() {
                clone_opt(&self.extension)
            } else {
                clone_opt(&config.file_extension)
            },
            file_name: if self.name.is_some() {
                clone_opt(&self.name)
            } else {
                clone_opt(&config.file_name)
            },
            pattern: if self.pattern.is_some() {
                clone_opt(&self.pattern)
            } else {
                clone_opt(&config.pattern)
            },
            ignore_case: self.ignore_case || config.ignore_case,
            line_number: self.line_number || config.line_number,
            files_with_matches: self.files_with_matches || config.files_with_matches,
            fuzzy: config.fuzzy,
            fuzzy_threshold: config.fuzzy_threshold,
            help: self.help || config.help,
            advanced_search: self.advanced || config.advanced_search,
            thread_count: if self.workers.is_some() {
                self.workers
            } else {
                config.thread_count
            },
            show_progress: !self.quiet && config.show_progress,
            quiet_mode: config.quiet_mode,
            recursive: !self.no_recursive && config.recursive,
            follow_symlinks: self.follow_symlinks || config.follow_symlinks,
            traversal_mode: match self.traversal {
                Some(t) => t.to_mode(),
                None => config.traversal_mode,
            },
            max_depth: config.max_depth,
            min_size: config.min_size,
            max_size: config.max_size,
            newer_than: clone_opt(&config.newer_than),
            older_than: clone_opt(&config.older_than),
        };
        *config = written;
    }

    /// The loaded configuration with the explicit options of the command
    /// line written over it.
    pub fn merge_with_config(&self, loaded: FileSearchConfig) -> (c: FileSearchConfig)
        ensures
            c@ == overlaid(self@, loaded@),
    {
        let mut merged = loaded;
        self.selective_apply_to_config(&mut merged);
        merged
    }

    /// Checks the command line. `path_exists` says whether the path it
    /// names, if any, exists.
    pub fn validate(&self, path_exists: bool) -> (r: Result<(), ArgsError>)
        ensures
            r is Ok <==> valid(self@, path_exists),
            r matches Err(e) ==> e is InvalidValue,
    {
        if let Some(workers) = self.workers {
            if workers == 0 {
                return Err(
                    ArgsError::InvalidValue(
                        String::from_str("Worker thread count must be greater than 0"),
                    ),
                );
            }
        }
        if let Some(path) = &self.path {
            if !path_exists {
                return Err(
                    ArgsError::InvalidValue(
                        String::from_str("Specified path does not exist: ").concat(path.as_str()),
                    ),
                );
            }
        }
        if !check_size(&self.min_size) || !check_size(&self.max_size) {
            return Err(ArgsError::InvalidValue(String::from_str("Invalid size format")));
        }
        if !check_date(&self.newer_than) || !check_date(&self.older_than) {
            return Err(ArgsError::InvalidValue(String::from_str("Invalid date format")));
        }
        Ok(())
    }

    /// Whether the configuration holds something to search for, or help is
    /// asked for.
    pub fn validate_config(&self, config: &FileSearchConfig) -> (r: bool)
        ensures
            r == (config@.has_criteria() || self@.help),
    {
        config.file_extension.is_some() || config.file_name.is_some() || config.pattern.is_some()
            || self.help
    }

    /// Turns the command line into the configuration of the search.
    ///
    /// An invalid command line is refused first. Without a configuration
    /// file, the configuration is the command line written over the
    /// defaults, with the positional word as the name where no criterion is
    /// set. With one, it is the loaded configuration with the explicit
    /// options written over it; a missing or unreadable file is refused.
    pub fn process(&self, path_exists: bool, source: ConfigSource) -> (r: Result<
        FileSearchConfig,
        ArgsError,
    >)
        ensures
            !valid(self@, path_exists) ==> r is Err && r->Err_0 is InvalidValue,
            valid(self@, path_exists) ==> match processed(self@, source) {
                Some(c) => r is Ok && r->Ok_0@ == c,
                None => r is Err && r->Err_0 is ConfigLoadError,
            },
    {
        match self.validate(path_exists) {
            Ok(()) => {},
            Err(e) => {
                return Err(e);
            },
        }
        match source {
            ConfigSource::NotRequested => {
                let mut config = self.to_config();
                if self.query.is_some() && config.file_name.is_none()
                    && config.file_extension.is_none() && config.pattern.is_none() {
                    config.file_name = clone_opt(&self.query);
                }
                Ok(config)
            },
            ConfigSource::Missing => Err(
                ArgsError::ConfigLoadError(String::from_str("Config file not found")),
            ),
            ConfigSource::Unreadable(reason) => Err(ArgsError::ConfigLoadError(reason)),
            ConfigSource::Loaded(loaded) => Ok(self.merge_with_config(loaded)),
        }
    }
}

} // verus!
