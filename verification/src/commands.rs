//! What the program does for a configuration: which command runs, and the
//! checks and choices of each.

use vstd::prelude::*;
use vstd::string::StringExecFns;
use crate::args::Args;
use crate::config::{clone_opt, opt_text, AppConfig, ConfigView, FileSearchConfig};
use crate::entry::{DirNode, EntryKind};
use crate::factory::{holds_criteria, is_simple, is_standard_finder, FinderFactory};
use crate::finder::{results_in, FileFinder, FinderConfig};
use crate::text::texts;
use crate::observer::{
    fresh, NullObserver, Observer, ObserverKind, ProgressReporter, SearchObserver, SilentObserver,
    TrackingObserver,
};
use crate::platform::{names_root, root_of, Platform};
use crate::standard_search::{date_bounds, search_directory, standard_outcome, SearchError};
use crate::walk::paths_of;

verus! {

/// The commands of the program.
#[derive(Debug, Clone, Copy, PartialEq, Eq, Structural)]
pub enum CommandKind {
    Help,
    Grep,
    Fuzzy,
    Search,
}

/// The command that a configuration asks for: help where it is asked for or
/// nothing is looked for; the content search where a pattern is set; the
/// fuzzy search where it is switched on; the file search otherwise.
pub open spec fn command_for(config: ConfigView) -> CommandKind {
    if config.help || !config.has_criteria() {
        CommandKind::Help
    } else if config.pattern is Some {
        CommandKind::Grep
    } else if config.fuzzy {
        CommandKind::Fuzzy
    } else {
        CommandKind::Search
    }
}

/// Picks the command for a configuration.
pub fn create_command(config: &FileSearchConfig) -> (kind: CommandKind)
    ensures
        kind == command_for(config@),
{
    if config.help || (config.file_extension.is_none() && config.file_name.is_none()
        && config.pattern.is_none()) {
        CommandKind::Help
    } else if config.pattern.is_some() {
        CommandKind::Grep
    } else if config.fuzzy {
        CommandKind::Fuzzy
    } else {
        CommandKind::Search
    }
}

/// What a run of the program comes to.
#[derive(Debug)]
pub struct RunPlan {
    pub config: FileSearchConfig,
    pub command: CommandKind,
    /// Whether to warn that the search starts at the root directory.
    pub warns_of_root: bool,
}

/// Whether help is what the run shows.
pub open spec fn shows_help(help_flag: bool, config: ConfigView) -> bool {
    help_flag || !config.has_criteria()
}

/// Plans a run: a search without a path starts at the platform's root
/// directory, and a search that starts there is warned of; help never is.
pub fn run(args: &Args, config: FileSearchConfig, platform: &Platform) -> (plan: RunPlan)
    ensures
        plan.config@ == (ConfigView {
            path: if config@.path is None && !shows_help(args@.help, config@) {
                Some(root_of(platform.os))
            } else {
                config@.path
            },
            ..config@
        }),
        plan.command == command_for(plan.config@),
        plan.warns_of_root == (!shows_help(args@.help, config@) && (config@.path is None
            || names_root(platform.os, config@.path->0))),
{
    let showing_help = args.help || (config.file_extension.is_none() && config.file_name.is_none()
        && config.pattern.is_none());
    let mut config = config;
    let mut warns_of_root = false;
    match &config.path {
        None => {
            if !showing_help {
                config.path = Some(platform.root_directory());
                warns_of_root = true;
            }
        },
        Some(path) => {
            if platform.is_root_path(path.as_str()) && !showing_help {
                warns_of_root = true;
            }
        },
    }
    let command = create_command(&config);
    RunPlan { config, command, warns_of_root }
}

/// The settings made of a configuration hold readable dates exactly where
/// the configuration does.
proof fn lemma_dates_agree(config: ConfigView, settings: AppConfig)
    requires
        opt_text(settings.newer_than) == config.newer_than,
        opt_text(settings.older_than) == config.older_than,
    ensures
        crate::factory::dates_are_readable(settings) == (date_bounds(config) is Some),
{
}

/// The help command.
#[derive(Debug, Clone, Copy)]
pub struct HelpCommand;

/// The text of the help command, line by line: how the program is called,
/// then one line for every option.
pub open spec fn help_text() -> Seq<Seq<char>> {
    seq![
        "USAGE:"@,
        "oqab [QUERY]"@,
        "oqab [OPTIONS] [QUERY]"@,
        "oqab --grep PATTERN [OPTIONS]"@,
        ""@,
        "OPTIONS:"@,
        "-h, --help                   Display this help message"@,
        "-p, --path <DIR>             Directory to search in (default: root directory)"@,
        "-e, --ext <EXT>              File extension to search for (e.g., 'rs' or '.rs')"@,
        "-n, --name <PATTERN>         Filter by file name pattern"@,
        "-g, --grep <PATTERN>         Search for text pattern within files"@,
        "-i, --ignore-case            Case insensitive search"@,
        "--line-number                Show line numbers in search results"@,
        "--files-with-matches         Show only filenames of files containing the pattern"@,
        "-a, --advanced               Search on the worker pool"@,
        "-s, --silent                 Suppress progress output"@,
        "-q, --quiet                  Quiet mode (less verbose output)"@,
        "-w, --workers <NUM>          Number of worker threads (default: CPU cores)"@,
        "-t, --traversal <bfs|dfs>    Traversal order"@,
        "-r, --no-recursive           Do not descend into subdirectories"@,
        "-f, --follow-symlinks        Follow symbolic links"@,
        "--min-size <SIZE>            Smallest size, e.g. 10kb"@,
        "--max-size <SIZE>            Largest size, e.g. 5mb"@,
        "--newer-than <DATE>          Modified on or after YYYY-MM-DD"@,
        "--older-than <DATE>          Modified on or before YYYY-MM-DD"@,
        "-c, --config <FILE>          Load settings from a configuration file"@,
        "--save-config <FILE>         Save current settings to a configuration file"@,
    ]
}

impl HelpCommand {
    pub fn new() -> (c: HelpCommand) {
        HelpCommand
    }

    /// The lines that the help command prints.
    pub fn execute(&self) -> (lines: Vec<String>)
        ensures
            texts(lines@) == help_text(),
    {
        let mut lines: Vec<String> = Vec::new();
        lines.push("USAGE:".to_string());
        lines.push("oqab [QUERY]".to_string());
        lines.push("oqab [OPTIONS] [QUERY]".to_string());
        lines.push("oqab --grep PATTERN [OPTIONS]".to_string());
        lines.push("".to_string());
        lines.push("OPTIONS:".to_string());
        lines.push("-h, --help                   Display this help message".to_string());
        lines.push(
            "-p, --path <DIR>             Directory to search in (default: root directory)".to_string(),
        );
        lines.push(
            "-e, --ext <EXT>              File extension to search for (e.g., 'rs' or '.rs')".to_string(),
        );
        lines.push("-n, --name <PATTERN>         Filter by file name pattern".to_string());
        lines.push("-g, --grep <PATTERN>         Search for text pattern within files".to_string());
        lines.push("-i, --ignore-case            Case insensitive search".to_string());
        lines.push("--line-number                Show line numbers in search results".to_string());
        lines.push(
            "--files-with-matches         Show only filenames of files containing the pattern".to_string(),
        );
        lines.push("-a, --advanced               Search on the worker pool".to_string());
        lines.push("-s, --silent                 Suppress progress output".to_string());
        lines.push("-q, --quiet                  Quiet mode (less verbose output)".to_string());
        lines.push(
            "-w, --workers <NUM>          Number of worker threads (default: CPU cores)".to_string(),
        );
        lines.push("-t, --traversal <bfs|dfs>    Traversal order".to_string());
        lines.push("-r, --no-recursive           Do not descend into subdirectories".to_string());
        lines.push("-f, --follow-symlinks        Follow symbolic links".to_string());
        lines.push("--min-size <SIZE>            Smallest size, e.g. 10kb".to_string());
        lines.push("--max-size <SIZE>            Largest size, e.g. 5mb".to_string());
        lines.push("--newer-than <DATE>          Modified on or after YYYY-MM-DD".to_string());
        lines.push("--older-than <DATE>          Modified on or before YYYY-MM-DD".to_string());
        lines.push(
            "-c, --config <FILE>          Load settings from a configuration file".to_string(),
        );
        lines.push(
            "--save-config <FILE>         Save current settings to a configuration file".to_string(),
        );
        assert(texts(lines@) =~= help_text());
        lines
    }
}

/// The file search of one configuration.
#[derive(Debug)]
pub struct SearchCommand<'a> {
    pub config: &'a FileSearchConfig,
}

impl<'a> SearchCommand<'a> {
    pub fn new(config: &'a FileSearchConfig) -> (c: SearchCommand<'a>)
        ensures
            c.config == config,
    {
        SearchCommand { config }
    }

    /// The settings for a finder: the criteria of the configuration, below
    /// its path or, where it has none, below `current_dir`.
    pub fn create_app_config(&self, current_dir: &str) -> (a: AppConfig)
        ensures
            a.root_dir@ == match self.config@.path {
                Some(p) => p,
                None => current_dir@,
            },
            opt_text(a.extension) == self.config@.file_extension,
            opt_text(a.name) == self.config@.file_name,
            a.pattern is None,
            a.min_size == self.config.min_size,
            a.max_size == self.config.max_size,
            opt_text(a.newer_than) == self.config@.newer_than,
            opt_text(a.older_than) == self.config@.older_than,
            a.size is None,
            a.depth == self.config.max_depth,
            a.threads == self.config.thread_count,
            a.follow_links == Some(self.config.follow_symlinks),
            a.show_progress == Some(self.config.show_progress),
            a.quiet == Some(self.config.quiet_mode),
    {
        AppConfig {
            root_dir: match &self.config.path {
                Some(p) => p.clone(),
                None => current_dir.to_string(),
            },
            extension: clone_opt(&self.config.file_extension),
            name: clone_opt(&self.config.file_name),
            pattern: None,
            min_size: self.config.min_size,
            max_size: self.config.max_size,
            newer_than: clone_opt(&self.config.newer_than),
            older_than: clone_opt(&self.config.older_than),
            size: None,
            depth: self.config.max_depth,
            threads: self.config.thread_count,
            follow_links: Some(self.config.follow_symlinks),
            show_progress: Some(self.config.show_progress),
            quiet: Some(self.config.quiet_mode),
        }
    }

    /// Whether `a` holds the settings that the command makes of its
    /// configuration.
    pub open spec fn makes(&self, current_dir: Seq<char>, a: AppConfig) -> bool {
        &&& a.root_dir@ == match self.config@.path {
            Some(p) => p,
            None => current_dir,
        }
        &&& opt_text(a.extension) == self.config@.file_extension
        &&& opt_text(a.name) == self.config@.file_name
        &&& a.pattern is None
        &&& a.min_size == self.config.min_size
        &&& a.max_size == self.config.max_size
        &&& opt_text(a.newer_than) == self.config@.newer_than
        &&& opt_text(a.older_than) == self.config@.older_than
        &&& a.size is None
        &&& a.depth == self.config.max_depth
        &&& a.threads == self.config.thread_count
        &&& a.follow_links == Some(self.config.follow_symlinks)
        &&& a.show_progress == Some(self.config.show_progress)
        &&& a.quiet == Some(self.config.quiet_mode)
    }

    /// Searches the snapshot `root`.
    ///
    /// Where the configuration asks for the advanced search, the standard
    /// finder for the command's settings searches; otherwise the standard
    /// search does, watched by the command's observer. A root that is no
    /// directory and a date that is no date are refused.
    pub fn execute(&self, root: &DirNode, current_dir: &str) -> (r: Result<
        Vec<String>,
        SearchError,
    >)
        ensures
            root.entry@.kind != EntryKind::Directory ==> r is Err,
            date_bounds(self.config@) is None ==> r is Err,
            root.entry@.kind == EntryKind::Directory && date_bounds(self.config@) is Some ==> r
                is Ok,
            r matches Err(e) ==> if root.entry@.kind != EntryKind::Directory
                && !self.config.advanced_search {
                e is InvalidPathError
            } else if date_bounds(self.config@) is None {
                e is InvalidArgument
            } else {
                e is InvalidPathError
            },
            r matches Ok(found) ==> if self.config.advanced_search {
                exists|a: AppConfig, f: FileFinder| #[trigger]
                    is_standard_finder(a, f) && self.makes(current_dir@, a) && texts(found@)
                        == results_in(f.outcome(*root))
            } else {
                texts(found@) == paths_of(
                    standard_outcome::<Observer>(
                        *root,
                        self.config,
                        date_bounds(self.config@)->0,
                        fresh(
                            if self.config.show_progress {
                                ObserverKind::Tracking
                            } else {
                                ObserverKind::Silent
                            },
                        ),
                    ).matched,
                )
            },
    {
        if self.config.advanced_search {
            let settings = self.create_app_config(current_dir);
            proof {
                lemma_dates_agree(self.config@, settings);
            }
            let mut finder = match FinderFactory::create_standard_finder(&settings) {
                Ok(finder) => finder,
                Err(e) => {
                    return Err(SearchError::InvalidArgument(String::from_str("date")));
                },
            };
            let ghost before = finder;
            match finder.find(root) {
                Ok(found) => {
                    assert(is_standard_finder(settings, before) && self.makes(
                        current_dir@,
                        settings,
                    ));
                    Ok(found)
                },
                Err(_) => Err(SearchError::InvalidPathError(root.entry.path.clone())),
            }
        } else {
            let mut observer = self.create_observer();
            search_directory(root, self.config, &mut observer)
        }
    }

    /// The observer of the search: one that tracks the matches where
    /// progress is shown, a silent one otherwise.
    pub fn create_observer(&self) -> (o: Observer)
        ensures
            o.state() == fresh(
                if self.config.show_progress {
                    ObserverKind::Tracking
                } else {
                    ObserverKind::Silent
                },
            ),
    {
        if self.config.show_progress {
            Observer::Tracking(TrackingObserver::new())
        } else {
            Observer::Silent(SilentObserver::new())
        }
    }
}

/// The fuzzy search of one configuration.
#[derive(Debug)]
pub struct FuzzyCommand<'a> {
    pub config: &'a FileSearchConfig,
}

impl<'a> FuzzyCommand<'a> {
    pub fn new(config: &'a FileSearchConfig) -> (c: FuzzyCommand<'a>)
        ensures
            c.config == config,
    {
        FuzzyCommand { config }
    }
}

/// Why a standard search command could not run.
#[derive(Debug)]
pub enum SearchCommandError {
    NoCriteriaError,
    FinderError(String),
    PathError(String),
}

/// Why an advanced search command could not run.
#[derive(Debug)]
pub enum AdvancedSearchError {
    NoCriteriaError,
    InvalidPathError(String),
    SearchExecutionError(String),
}

/// A search without the worker pool.
#[derive(Debug)]
pub struct StandardSearchCommand {
    pub config: FileSearchConfig,
}

impl StandardSearchCommand {
    pub fn new(config: FileSearchConfig) -> (c: StandardSearchCommand)
        ensures
            c.config == config,
    {
        StandardSearchCommand { config }
    }

    /// Refuses a configuration without a name and an extension, then one
    /// whose path does not exist.
    pub fn validate_config(&self, path_exists: bool) -> (r: Result<(), SearchCommandError>)
        ensures
            r is Ok <==> (self.config@.file_extension is Some || self.config@.file_name is Some)
                && path_exists,
            r matches Err(e) ==> if self.config@.file_extension is None
                && self.config@.file_name is None {
                e is NoCriteriaError
            } else {
                e is PathError && e->PathError_0@ == self.config@.search_path()
            },
    {
        if self.config.file_extension.is_none() && self.config.file_name.is_none() {
            return Err(SearchCommandError::NoCriteriaError);
        }
        if !path_exists {
            return Err(SearchCommandError::PathError(self.config.get_path().to_string()));
        }
        Ok(())
    }

    /// Searches the snapshot `root` of the configured path, `None` where
    /// the path does not exist, for the name, the extension or both.
    pub fn execute(&self, root: Option<&DirNode>) -> (r: Result<Vec<String>, SearchCommandError>)
        ensures
            self.config@.file_extension is None && self.config@.file_name is None ==> r is Err
                && r->Err_0 is NoCriteriaError,
            (self.config@.file_extension is Some || self.config@.file_name is Some) && root
                is None ==> r is Err && r->Err_0 is PathError && r->Err_0->PathError_0@
                == self.config@.search_path(),
            (self.config@.file_extension is Some || self.config@.file_name is Some) && root
                is Some && root->0.entry@.kind != EntryKind::Directory ==> r is Err && r->Err_0
                is FinderError && r->Err_0->FinderError_0@ == self.config@.search_path(),
            (self.config@.file_extension is Some || self.config@.file_name is Some) && root
                is Some && root->0.entry@.kind == EntryKind::Directory ==> r is Ok && exists|
                f: FileFinder,
            | #[trigger]
                is_simple(f) && holds_criteria(
                    f,
                    self.config@.file_name,
                    self.config@.file_extension,
                ) && texts(r->Ok_0@) == results_in(f.outcome(*root->0)),
    {
        match SearchService::new().execute_standard_search(&self.config, root) {
            Ok(found) => Ok(found),
            Err(SearchError::NoCriteriaError) => Err(SearchCommandError::NoCriteriaError),
            Err(_) => {
                let path = self.config.get_path().to_string();
                if root.is_none() {
                    Err(SearchCommandError::PathError(path))
                } else {
                    Err(SearchCommandError::FinderError(path))
                }
            },
        }
    }
}

/// A search on the worker pool with progress reporting.
#[derive(Debug)]
pub struct AdvancedSearchCommand {
    pub config: FileSearchConfig,
}

impl AdvancedSearchCommand {
    pub fn new(config: FileSearchConfig) -> (c: AdvancedSearchCommand)
        ensures
            c.config == config,
    {
        AdvancedSearchCommand { config }
    }

    /// The observer of the search: a progress reporter that has seen
    /// nothing.
    pub fn create_observer(&self) -> (o: ProgressReporter)
        ensures
            o.state() == fresh(ObserverKind::Progress),
    {
        ProgressReporter::new()
    }

    /// Refuses a configuration without a name and an extension, then one
    /// whose path does not exist or is no directory.
    pub fn validate_config(&self, path_exists: bool, path_is_directory: bool) -> (r: Result<
        (),
        AdvancedSearchError,
    >)
        ensures
            r is Ok <==> (self.config@.file_extension is Some || self.config@.file_name is Some)
                && path_exists && path_is_directory,
            r matches Err(e) ==> if self.config@.file_extension is None
                && self.config@.file_name is None {
                e is NoCriteriaError
            } else {
                e is InvalidPathError && e->InvalidPathError_0@ == self.config@.search_path()
            },
    {
        if self.config.file_extension.is_none() && self.config.file_name.is_none() {
            return Err(AdvancedSearchError::NoCriteriaError);
        }
        if !path_exists || !path_is_directory {
            return Err(AdvancedSearchError::InvalidPathError(self.config.get_path().to_string()));
        }
        Ok(())
    }

    /// Searches the snapshot `root` of the configured path, `None` where
    /// the path does not exist, for the name, the extension or both, with
    /// one worker for every processor.
    pub fn execute(&self, root: Option<&DirNode>) -> (r: Result<Vec<String>, AdvancedSearchError>)
        ensures
            self.config@.file_extension is None && self.config@.file_name is None ==> r is Err
                && r->Err_0 is NoCriteriaError,
            (self.config@.file_extension is Some || self.config@.file_name is Some) && (root
                is None || root->0.entry@.kind != EntryKind::Directory) ==> r is Err && r->Err_0
                is InvalidPathError && r->Err_0->InvalidPathError_0@
                == self.config@.search_path(),
            (self.config@.file_extension is Some || self.config@.file_name is Some) && root
                is Some && root->0.entry@.kind == EntryKind::Directory ==> r is Ok && exists|
                f: FileFinder,
            | #[trigger]
                holds_criteria(f, self.config@.file_name, self.config@.file_extension)
                    && f.config.num_threads >= 1 && !f.config.follow_links && f.config.max_depth
                    is None && f.traversal_strategy is Default
                    && !f.traversal_strategy->Default_0.skips_hidden()
                    && f.observer_registry.states() == seq![
                    fresh(
                        if self.config@.file_name is Some {
                            ObserverKind::Progress
                        } else {
                            ObserverKind::Null
                        },
                    ),
                ] && texts(r->Ok_0@) == results_in(f.outcome(*root->0)),
    {
        match SearchService::new().execute_advanced_search(&self.config, root) {
            Ok(found) => Ok(found),
            Err(SearchError::NoCriteriaError) => Err(AdvancedSearchError::NoCriteriaError),
            Err(_) => Err(AdvancedSearchError::InvalidPathError(self.config.get_path().to_string())),
        }
    }
}

/// The checks that every search shares.
#[derive(Debug, Clone, Copy)]
pub struct SearchService;

impl SearchService {
    pub fn new() -> (s: SearchService) {
        SearchService
    }

    /// Refuses a configuration without a name and an extension, then one
    /// whose path does not exist or is no directory.
    pub fn validate_config(
        &self,
        config: &FileSearchConfig,
        path_exists: bool,
        path_is_directory: bool,
    ) -> (r: Result<(), SearchError>)
        ensures
            r is Ok <==> (config@.file_extension is Some || config@.file_name is Some)
                && path_exists && path_is_directory,
            r matches Err(e) ==> if config@.file_extension is None && config@.file_name is None {
                e is NoCriteriaError
            } else {
                e is InvalidPathError && e->InvalidPathError_0@ == config@.search_path()
            },
    {
        if config.file_extension.is_none() && config.file_name.is_none() {
            return Err(SearchError::NoCriteriaError);
        }
        if !path_exists || !path_is_directory {
            return Err(SearchError::InvalidPathError(config.get_path().to_string()));
        }
        Ok(())
    }

    /// Searches the snapshot `root` of the configured path for the name,
    /// the extension or both, with a simple finder. `root` is `None` where
    /// the path does not exist.
    pub fn execute_standard_search(&self, config: &FileSearchConfig, root: Option<&DirNode>) -> (r:
        Result<Vec<String>, SearchError>)
        ensures
            config@.file_extension is None && config@.file_name is None ==> r is Err && r->Err_0
                is NoCriteriaError,
            (config@.file_extension is Some || config@.file_name is Some) && (root is None
                || root->0.entry@.kind != EntryKind::Directory) ==> r is Err && r->Err_0
                is InvalidPathError && r->Err_0->InvalidPathError_0@ == config@.search_path(),
            (config@.file_extension is Some || config@.file_name is Some) && root is Some
                && root->0.entry@.kind == EntryKind::Directory ==> r is Ok && exists|
                f: FileFinder,
            | #[trigger]
                is_simple(f) && holds_criteria(f, config@.file_name, config@.file_extension)
                    && texts(r->Ok_0@) == results_in(f.outcome(*root->0)),
    {
        let is_directory = match root {
            Some(node) => node.entry.kind == EntryKind::Directory,
            None => false,
        };
        match self.validate_config(config, root.is_some(), is_directory) {
            Ok(()) => {},
            Err(e) => {
                return Err(e);
            },
        }
        let name: Option<&str> = match &config.file_name {
            Some(n) => Some(n.as_str()),
            None => None,
        };
        let extension: Option<&str> = match &config.file_extension {
            Some(x) => Some(x.as_str()),
            None => None,
        };
        let mut finder = FinderFactory::create_finder_for(name, extension);
        let ghost before = finder;
        match root {
            Some(node) => match finder.find(node) {
                Ok(found) => {
                    assert(is_simple(before));
                    Ok(found)
                },
                Err(_) => Err(SearchError::InvalidPathError(config.get_path().to_string())),
            },
            None => Err(SearchError::InvalidPathError(config.get_path().to_string())),
        }
    }

    /// Searches like `execute_standard_search`, with one worker for every
    /// processor, links not followed, and an observer: a progress reporter
    /// where a name is asked for, a null observer otherwise.
    pub fn execute_advanced_search(&self, config: &FileSearchConfig, root: Option<&DirNode>) -> (r:
        Result<Vec<String>, SearchError>)
        ensures
            config@.file_extension is None && config@.file_name is None ==> r is Err && r->Err_0
                is NoCriteriaError,
            (config@.file_extension is Some || config@.file_name is Some) && (root is None
                || root->0.entry@.kind != EntryKind::Directory) ==> r is Err && r->Err_0
                is InvalidPathError && r->Err_0->InvalidPathError_0@ == config@.search_path(),
            (config@.file_extension is Some || config@.file_name is Some) && root is Some
                && root->0.entry@.kind == EntryKind::Directory ==> r is Ok && exists|
                f: FileFinder,
            | #[trigger]
                holds_criteria(f, config@.file_name, config@.file_extension)
                    && f.config.num_threads >= 1 && !f.config.follow_links && f.config.max_depth
                    is None && f.traversal_strategy is Default
                    && !f.traversal_strategy->Default_0.skips_hidden()
                    && f.observer_registry.states() == seq![
                    fresh(
                        if config@.file_name is Some {
                            ObserverKind::Progress
                        } else {
                            ObserverKind::Null
                        },
                    ),
                ] && texts(r->Ok_0@) == results_in(f.outcome(*root->0)),
    {
        let is_directory = match root {
            Some(node) => node.entry.kind == EntryKind::Directory,
            None => false,
        };
        match self.validate_config(config, root.is_some(), is_directory) {
            Ok(()) => {},
            Err(e) => {
                return Err(e);
            },
        }
        let name: Option<&str> = match &config.file_name {
            Some(n) => Some(n.as_str()),
            None => None,
        };
        let extension: Option<&str> = match &config.file_extension {
            Some(x) => Some(x.as_str()),
            None => None,
        };
        let mut finder = FinderFactory::create_finder_for(name, extension);
        finder.config = FinderConfig::default();
        let observer = if config.file_name.is_some() {
            Observer::Progress(ProgressReporter::new())
        } else {
            Observer::Null(NullObserver::new())
        };
        finder.observer_registry.register(observer);
        assert(finder.observer_registry.states() =~= seq![
            fresh(
                if config@.file_name is Some {
                    ObserverKind::Progress
                } else {
                    ObserverKind::Null
                },
            ),
        ]);
        let ghost before = finder;
        match root {
            Some(node) => match finder.find(node) {
                Ok(found) => {
                    assert(holds_criteria(before, config@.file_name, config@.file_extension));
                    Ok(found)
                },
                Err(_) => Err(SearchError::InvalidPathError(config.get_path().to_string())),
            },
            None => Err(SearchError::InvalidPathError(config.get_path().to_string())),
        }
    }
}

} // verus!
