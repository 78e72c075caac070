//! The positional command line: a directory, an extension, and options.

use vstd::prelude::*;
use vstd::string::StringExecFns;
use crate::entry::{DirNode, EntryKind};
use crate::factory::{holds_criteria, FinderFactory};
use crate::finder::{results_in, FileFinder, FinderConfig, FinderError};
use crate::observer::{
    fresh, next_count, NullObserver, Observer, ObserverKind, ProgressReporter,
};
use crate::text::{append_texts, from_chars, matches_at, occurs_at, tail_from, texts, to_chars};
use crate::traversal::{DefaultTraversalStrategy, TraversalPolicy};

verus! {

/// How a find command walks the tree.
#[derive(Debug, Clone, Copy, PartialEq, Eq, Structural)]
pub enum TraversalStrategy {
    Standard,
    GitAware,
    BreadthFirst,
}

impl Default for TraversalStrategy {
    fn default() -> (s: TraversalStrategy)
        ensures
            s == TraversalStrategy::Standard,
    {
        TraversalStrategy::Standard
    }
}

/// A find command that runs on the worker pool.
#[derive(Debug, Clone)]
pub struct HyperFindFilesCommand {
    pub directory: String,
    pub extension: String,
    pub name: Option<String>,
    pub traversal_strategy: TraversalStrategy,
    pub show_progress: bool,
    pub show_errors: bool,
    pub max_depth: Option<usize>,
    pub skip_hidden: bool,
    pub follow_links: bool,
}

impl HyperFindFilesCommand {
    pub fn new(directory: String, extension: String) -> (c: HyperFindFilesCommand)
        ensures
            c.directory == directory,
            c.extension == extension,
            c.name is None,
            c.traversal_strategy == TraversalStrategy::Standard,
            c.show_progress,
            !c.show_errors,
            c.max_depth is None,
            !c.skip_hidden,
            c.follow_links,
    {
        HyperFindFilesCommand {
            directory,
            extension,
            name: None,
            traversal_strategy: TraversalStrategy::Standard,
            show_progress: true,
            show_errors: false,
            max_depth: None,
            skip_hidden: false,
            follow_links: true,
        }
    }

    pub fn with_name(self, name: String) -> (c: HyperFindFilesCommand)
        ensures
            c == (HyperFindFilesCommand { name: Some(name), ..self }),
    {
        let mut c = self;
        c.name = Some(name);
        c
    }

    pub fn with_traversal_strategy(self, strategy: TraversalStrategy) -> (c: HyperFindFilesCommand)
        ensures
            c == (HyperFindFilesCommand { traversal_strategy: strategy, ..self }),
    {
        let mut c = self;
        c.traversal_strategy = strategy;
        c
    }

    pub fn with_progress(self, show_progress: bool) -> (c: HyperFindFilesCommand)
        ensures
            c == (HyperFindFilesCommand { show_progress, ..self }),
    {
        let mut c = self;
        c.show_progress = show_progress;
        c
    }

    pub fn with_error_reporting(self, show_errors: bool) -> (c: HyperFindFilesCommand)
        ensures
            c == (HyperFindFilesCommand { show_errors, ..self }),
    {
        let mut c = self;
        c.show_errors = show_errors;
        c
    }

    pub fn with_max_depth(self, depth: Option<usize>) -> (c: HyperFindFilesCommand)
        ensures
            c == (HyperFindFilesCommand { max_depth: depth, ..self }),
    {
        let mut c = self;
        c.max_depth = depth;
        c
    }

    pub fn with_skip_hidden(self, skip: bool) -> (c: HyperFindFilesCommand)
        ensures
            c == (HyperFindFilesCommand { skip_hidden: skip, ..self }),
    {
        let mut c = self;
        c.skip_hidden = skip;
        c
    }

    pub fn with_follow_links(self, follow: bool) -> (c: HyperFindFilesCommand)
        ensures
            c == (HyperFindFilesCommand { follow_links: follow, ..self }),
    {
        let mut c = self;
        c.follow_links = follow;
        c
    }
}

/// A find command that runs single-threaded.
#[derive(Debug, Clone)]
pub struct FindFilesCommand {
    pub directory: String,
    pub extension: String,
    pub name: Option<String>,
    pub max_depth: Option<usize>,
    pub skip_hidden: bool,
}

impl FindFilesCommand {
    pub fn new(directory: String, extension: String) -> (c: FindFilesCommand)
        ensures
            c.directory == directory,
            c.extension == extension,
            c.name is None,
            c.max_depth is None,
            !c.skip_hidden,
    {
        FindFilesCommand { directory, extension, name: None, max_depth: None, skip_hidden: false }
    }

    pub fn with_name(self, name: String) -> (c: FindFilesCommand)
        ensures
            c == (FindFilesCommand { name: Some(name), ..self }),
    {
        let mut c = self;
        c.name = Some(name);
        c
    }

    pub fn with_max_depth(self, depth: Option<usize>) -> (c: FindFilesCommand)
        ensures
            c == (FindFilesCommand { max_depth: depth, ..self }),
    {
        let mut c = self;
        c.max_depth = depth;
        c
    }

    pub fn with_skip_hidden(self, skip: bool) -> (c: FindFilesCommand)
        ensures
            c == (FindFilesCommand { skip_hidden: skip, ..self }),
    {
        let mut c = self;
        c.skip_hidden = skip;
        c
    }
}

/// What the positional command line asks for.
#[derive(Debug)]
pub enum ParsedCommand {
    Hyper(HyperFindFilesCommand),
    Standard(FindFilesCommand),
}

/// `flag` followed by `=`.
pub open spec fn assignment_prefix(flag: Seq<char>) -> Seq<char> {
    flag.push('=')
}

/// The value that `arg` assigns to the first of `flags` that it starts
/// with, looking at the flags from index `from` on.
pub open spec fn assigned_in(arg: Seq<char>, flags: Seq<Seq<char>>, from: int) -> Option<Seq<char>>
    decreases flags.len() - from,
{
    if 0 <= from < flags.len() {
        if occurs_at(arg, assignment_prefix(flags[from]), 0) {
            Some(arg.skip(flags[from].len() as int + 1))
        } else {
            assigned_in(arg, flags, from + 1)
        }
    } else {
        None
    }
}

/// The value of the first word, from index `from` on, that has the form
/// `flag=value`.
pub open spec fn first_assignment(args: Seq<Seq<char>>, flags: Seq<Seq<char>>, from: int) -> Option<
    Seq<char>,
>
    decreases args.len() - from,
{
    if 0 <= from < args.len() {
        match assigned_in(args[from], flags, 0) {
            Some(v) => Some(v),
            None => first_assignment(args, flags, from + 1),
        }
    } else {
        None
    }
}

/// The word behind the first word, from index `from` on, that is one of
/// `flags` and is not the last word.
pub open spec fn first_following(args: Seq<Seq<char>>, flags: Seq<Seq<char>>, from: int) -> Option<
    Seq<char>,
>
    decreases args.len() - from,
{
    if 0 <= from && from + 1 < args.len() {
        if flags.contains(args[from]) {
            Some(args[from + 1])
        } else {
            first_following(args, flags, from + 1)
        }
    } else {
        None
    }
}

/// The value of a parameter: from the first word of the form `flag=value`,
/// else from the word behind the first word that is a flag.
pub open spec fn parameter_value(args: Seq<Seq<char>>, flags: Seq<Seq<char>>) -> Option<Seq<char>> {
    match first_assignment(args, flags, 0) {
        Some(v) => Some(v),
        None => first_following(args, flags, 0),
    }
}

/// The number that a text of decimal digits spells, or `None` where the
/// text is empty, holds something else, or spells more than fits.
pub open spec fn decimal_value(text: Seq<char>) -> Option<usize> {
    decimal_prefix(text, text.len() as int)
}

/// The number that the first `n` characters of `text` spell.
pub open spec fn decimal_prefix(text: Seq<char>, n: int) -> Option<usize>
    decreases n,
{
    if n <= 0 || n > text.len() {
        None
    } else if !('0' <= text[n - 1] && text[n - 1] <= '9') {
        None
    } else if n == 1 {
        Some((text[0] as u8 - '0' as u8) as usize)
    } else {
        match decimal_prefix(text, n - 1) {
            Some(v) => if v * 10 + (text[n - 1] as u8 - '0' as u8) <= usize::MAX {
                Some((v * 10 + (text[n - 1] as u8 - '0' as u8)) as usize)
            } else {
                None
            },
            None => None,
        }
    }
}

/// Reads a number written in decimal digits.
pub fn parse_decimal(text: &str) -> (r: Option<usize>)
    ensures
        r == decimal_value(text@),
{
    let chars = to_chars(text);
    if chars.len() == 0 {
        return None;
    }
    let mut value: usize = 0;
    let mut i: usize = 0;
    while i < chars.len()
        invariant
            i <= chars.len(),
            chars.len() > 0,
            chars@ == text@,
            i > 0 ==> decimal_prefix(chars@, i as int) == Some(value),
            i == 0 ==> value == 0,
        decreases chars.len() - i,
    {
        let c = chars[i];
        if !('0' <= c && c <= '9') {
            proof {
                lemma_decimal_stays_none(chars@, (i + 1) as int, chars.len() as int);
            }
            return None;
        }
        let d = (c as u8 - 48) as usize;
        if value > (usize::MAX - d) / 10 {
            proof {
                lemma_decimal_stays_none(chars@, (i + 1) as int, chars.len() as int);
            }
            return None;
        }
        value = value * 10 + d;
        i = i + 1;
    }
    Some(value)
}

/// The decimal digits of a number, without leading zeros.
pub open spec fn decimal_digits(n: nat) -> Seq<char>
    decreases n,
{
    if n < 10 {
        seq![(('0' as u8) + n) as char]
    } else {
        decimal_digits(n / 10).push((('0' as u8) + n % 10) as char)
    }
}

/// Writes a number in decimal digits.
pub fn decimal_text(n: usize) -> (text: String)
    ensures
        text@ == decimal_digits(n as nat),
{
    from_chars(&decimal_chars(n))
}

fn decimal_chars(n: usize) -> (digits: Vec<char>)
    ensures
        digits@ == decimal_digits(n as nat),
    decreases n,
{
    if n < 10 {
        let mut digits: Vec<char> = Vec::new();
        digits.push((48u8 + n as u8) as char);
        assert(digits@ =~= decimal_digits(n as nat));
        digits
    } else {
        let mut digits = decimal_chars(n / 10);
        digits.push((48u8 + (n % 10) as u8) as char);
        digits
    }
}

/// What is written is read back as the same number.
pub proof fn lemma_decimal_round_trip(n: usize)
    ensures
        decimal_value(decimal_digits(n as nat)) == Some(n),
{
    lemma_digits_read_back(n as nat);
}

proof fn lemma_digits_read_back(n: nat)
    requires
        n <= usize::MAX,
    ensures
        decimal_digits(n).len() >= 1,
        decimal_prefix(decimal_digits(n), decimal_digits(n).len() as int) == Some(n as usize),
    decreases n,
{
    if n >= 10 {
        lemma_digits_read_back(n / 10);
        let head = decimal_digits(n / 10);
        let all = decimal_digits(n);
        lemma_prefix_of_push(head, all.last(), head.len() as int);
    }
}

proof fn lemma_prefix_of_push(text: Seq<char>, c: char, n: int)
    requires
        0 <= n <= text.len(),
    ensures
        decimal_prefix(text.push(c), n) == decimal_prefix(text, n),
    decreases n,
{
    if n > 0 {
        lemma_prefix_of_push(text, c, n - 1);
        assert(text.push(c)[n - 1] == text[n - 1]);
        if n > 1 {
            assert(text.push(c)[0] == text[0]);
        }
    }
}

proof fn lemma_decimal_stays_none(text: Seq<char>, n: int, m: int)
    requires
        1 <= n <= m <= text.len(),
        decimal_prefix(text, n) is None,
    ensures
        decimal_prefix(text, m) is None,
    decreases m - n,
{
    if n < m {
        lemma_decimal_stays_none(text, n, m - 1);
    }
}

/// The known words for a traversal strategy; any other word means the
/// standard one.
pub open spec fn strategy_named(word: Seq<char>) -> TraversalStrategy {
    if word == "git-aware"@ {
        TraversalStrategy::GitAware
    } else if word == "breadth-first"@ {
        TraversalStrategy::BreadthFirst
    } else {
        TraversalStrategy::Standard
    }
}

/// The traversal strategy that the words ask for: by `--traversal`, else by
/// the first of `--standard`, `--git-aware` and `--breadth-first` that is
/// there, else the standard one.
pub open spec fn strategy_of(args: Seq<Seq<char>>) -> TraversalStrategy {
    match parameter_value(args, seq!["--traversal"@]) {
        Some(word) => strategy_named(word),
        None => if args.contains("--standard"@) {
            TraversalStrategy::Standard
        } else if args.contains("--git-aware"@) {
            TraversalStrategy::GitAware
        } else if args.contains("--breadth-first"@) {
            TraversalStrategy::BreadthFirst
        } else {
            TraversalStrategy::Standard
        },
    }
}

/// `extension` with a dot in front unless it starts with one.
pub open spec fn dotted(extension: Seq<char>) -> Seq<char> {
    if extension.len() > 0 && extension[0] == '.' {
        extension
    } else {
        seq!['.'] + extension
    }
}

/// The depth that the words ask for.
pub open spec fn depth_of(args: Seq<Seq<char>>) -> Option<usize> {
    match parameter_value(args, seq!["-d"@, "--depth"@]) {
        Some(word) => decimal_value(word),
        None => None,
    }
}

/// Whether the words ask for the command that runs on the worker pool.
pub open spec fn wants_hyper(args: Seq<Seq<char>>) -> bool {
    args.contains("--fast"@) || args.contains("-f"@) || args.contains("--progress"@)
        || args.contains("-p"@) || parameter_value(args, seq!["-n"@, "--name"@]) is Some
}

/// The command that at least three words stand for.
pub open spec fn command_matches(args: Seq<Seq<char>>, command: ParsedCommand) -> bool {
    let name = parameter_value(args, seq!["-n"@, "--name"@]);
    match command {
        ParsedCommand::Hyper(c) => {
            &&& wants_hyper(args)
            &&& c.directory@ == args[1]
            &&& c.extension@ == dotted(args[2])
            &&& crate::config::opt_text(c.name) == name
            &&& c.traversal_strategy == strategy_of(args)
            &&& c.show_progress == (args.contains("--progress"@) || args.contains("-p"@))
            &&& c.show_errors == (args.contains("--errors"@) || args.contains("-e"@))
            &&& c.max_depth == depth_of(args)
            &&& c.skip_hidden == args.contains("--no-hidden"@)
            &&& c.follow_links == !args.contains("--no-follow-links"@)
        },
        ParsedCommand::Standard(c) => {
            &&& !wants_hyper(args)
            &&& c.directory@ == args[1]
            &&& c.extension@ == dotted(args[2])
            &&& c.name is None
            &&& c.max_depth == depth_of(args)
            &&& c.skip_hidden == args.contains("--no-hidden"@)
        },
    }
}

/// How the usage text begins, before the program's name.
pub const USAGE_HEAD: &'static str = "Usage: ";

/// The usage text between the program's name and the examples: the words
/// that are read, and the options.
pub const USAGE_OPTIONS: &'static str =
    " <directory_path> <file_extension> [options]\nOptions:\n-f, --fast          Use the faster hyper search implementation\n-p, --progress      Show progress during search\n-e, --errors        Show directory access errors\n-n, --name <value>  Filter by file name (contains search)\n-r, --recursive     Search directories recursively (default: true)\n-d, --depth <num>   Maximum directory depth to search (default: unlimited)\n--no-hidden         Skip hidden files and directories\n--no-follow-links   Don't follow symbolic links\n--traversal <type>  Directory traversal strategy:\n- standard     Default traversal\n- git-aware    Respect .gitignore files (default for --fast)\n- breadth-first Use breadth-first traversal\n\nExamples:\n";

/// What follows the program's name in the first example.
pub const USAGE_BY_EXTENSION: &'static str =
    " . rs                     Find all .rs files in current directory\n";

/// What follows the program's name in the second example.
pub const USAGE_BY_NAME: &'static str =
    " . rs -n main             Find .rs files containing 'main' in filename\n";

/// What follows the program's name in the third example.
pub const USAGE_FAST: &'static str =
    " /path txt -f -p          Find all .txt files with fast search and progress\n";

/// What follows the program's name in the last example.
pub const USAGE_SHALLOW: &'static str =
    " . rs --depth 2 --no-hidden  Only search 2 levels deep, skip hidden files";

/// The name that the usage text gives a program that came without one.
pub const UNNAMED_PROGRAM: &'static str = "program";

/// What is said to someone who gives too few words to the program called
/// `program`: the words that are read, the options, and four examples.
pub open spec fn usage_text(program: Seq<char>) -> Seq<char> {
    USAGE_HEAD@ + program + USAGE_OPTIONS@ + program + USAGE_BY_EXTENSION@ + program
        + USAGE_BY_NAME@ + program + USAGE_FAST@ + program + USAGE_SHALLOW@
}

/// The name by which the usage text calls the program: the first word,
/// where there is one.
pub open spec fn program_name(args: Seq<Seq<char>>) -> Seq<char> {
    if args.len() > 0 {
        args[0]
    } else {
        UNNAMED_PROGRAM@
    }
}

/// The usage text for the program called `program`.
pub fn usage(program: &str) -> (r: String)
    ensures
        r@ == usage_text(program@),
{
    String::from_str(USAGE_HEAD).concat(program).concat(USAGE_OPTIONS).concat(program).concat(
        USAGE_BY_EXTENSION,
    ).concat(program).concat(USAGE_BY_NAME).concat(program).concat(USAGE_FAST).concat(
        program,
    ).concat(USAGE_SHALLOW)
}

/// Reads the positional command line.
pub struct CommandLineParser;

fn has_word(args: &Vec<String>, word: &str) -> (r: bool)
    ensures
        r == texts(args@).contains(word@),
{
    let wanted = word.to_string();
    crate::text::holds_text(args, &wanted)
}

fn word_in(flags: &Vec<String>, word: &String) -> (r: bool)
    ensures
        r == texts(flags@).contains(word@),
{
    crate::text::holds_text(flags, word)
}

fn assigned_value(arg: &Vec<char>, flags: &Vec<String>) -> (r: Option<String>)
    ensures
        crate::config::opt_text(r) == assigned_in(arg@, texts(flags@), 0),
{
    let mut j: usize = 0;
    while j < flags.len()
        invariant
            j <= flags.len(),
            assigned_in(arg@, texts(flags@), 0) == assigned_in(arg@, texts(flags@), j as int),
        decreases flags.len() - j,
    {
        let mut prefix = to_chars(flags[j].as_str());
        prefix.push('=');
        let n = prefix.len();
        assert(prefix@ == assignment_prefix(texts(flags@)[j as int]));
        if matches_at(arg, &prefix, 0) {
            let value = tail_from(arg, n);
            return Some(from_chars(&value));
        }
        j = j + 1;
    }
    None
}

impl CommandLineParser {
    /// The value of the parameter that any of `param_flags` names, given as
    /// `flag=value` or as the word behind the flag.
    pub fn extract_parameter_value(args: &Vec<String>, param_flags: &Vec<String>) -> (r: Option<
        String,
    >)
        ensures
            crate::config::opt_text(r) == parameter_value(texts(args@), texts(param_flags@)),
    {
        let mut i: usize = 0;
        while i < args.len()
            invariant
                i <= args.len(),
                first_assignment(texts(args@), texts(param_flags@), 0) == first_assignment(
                    texts(args@),
                    texts(param_flags@),
                    i as int,
                ),
            decreases args.len() - i,
        {
            let arg = to_chars(args[i].as_str());
            assert(texts(args@)[i as int] == arg@);
            match assigned_value(&arg, param_flags) {
                Some(v) => {
                    return Some(v);
                },
                None => {},
            }
            i = i + 1;
        }
        let mut k: usize = 0;
        while args.len() > 0 && k < args.len() - 1
            invariant
                k <= args.len(),
                first_assignment(texts(args@), texts(param_flags@), 0) is None,
                first_following(texts(args@), texts(param_flags@), 0) == first_following(
                    texts(args@),
                    texts(param_flags@),
                    k as int,
                ),
            decreases args.len() - k,
        {
            assert(texts(args@)[k as int] == args@[k as int]@);
            assert(texts(args@)[k + 1] == args@[k + 1]@);
            if word_in(param_flags, &args[k]) {
                return Some(args[k + 1].clone());
            }
            k = k + 1;
        }
        None
    }

    /// Reads the words of the command line: the program's name, a directory,
    /// an extension, and options. Fewer than three words are refused with
    /// the usage text, which names the program by its first word.
    pub fn parse_args(args: &Vec<String>) -> (r: Result<ParsedCommand, String>)
        ensures
            r is Err <==> args@.len() < 3,
            r matches Err(text) ==> text@ == usage_text(program_name(texts(args@))),
            r matches Ok(command) ==> command_matches(texts(args@), command),
    {
        if args.len() < 3 {
            if args.len() > 0 {
                assert(texts(args@)[0] == args@[0]@);
                return Err(usage(args[0].as_str()));
            }
            return Err(usage(UNNAMED_PROGRAM));
        }
        let ghost words = texts(args@);
        assert(words[1] == args@[1]@);
        assert(words[2] == args@[2]@);
        let directory = args[1].clone();
        let given = to_chars(args[2].as_str());
        let extension = if given.len() > 0 && given[0] == '.' {
            args[2].clone()
        } else {
            let e = String::from_str(".").concat(args[2].as_str());
            proof {
                reveal_strlit(".");
                assert(e@ =~= seq!['.'] + words[2]);
            }
            e
        };
        let use_hyper = has_word(args, "--fast") || has_word(args, "-f");
        let show_progress = has_word(args, "--progress") || has_word(args, "-p");
        let show_errors = has_word(args, "--errors") || has_word(args, "-e");
        let skip_hidden = has_word(args, "--no-hidden");
        let no_follow_links = has_word(args, "--no-follow-links");
        let mut name_flags: Vec<String> = Vec::new();
        name_flags.push(String::from_str("-n"));
        name_flags.push(String::from_str("--name"));
        assert(texts(name_flags@) =~= seq!["-n"@, "--name"@]);
        let name = CommandLineParser::extract_parameter_value(args, &name_flags);
        let mut depth_flags: Vec<String> = Vec::new();
        depth_flags.push(String::from_str("-d"));
        depth_flags.push(String::from_str("--depth"));
        assert(texts(depth_flags@) =~= seq!["-d"@, "--depth"@]);
        let depth = match CommandLineParser::extract_parameter_value(args, &depth_flags) {
            Some(word) => parse_decimal(word.as_str()),
            None => None,
        };
        let mut traversal_flags: Vec<String> = Vec::new();
        traversal_flags.push(String::from_str("--traversal"));
        assert(texts(traversal_flags@) =~= seq!["--traversal"@]);
        let strategy = match CommandLineParser::extract_parameter_value(args, &traversal_flags) {
            Some(word) => {
                if word == String::from_str("git-aware") {
                    TraversalStrategy::GitAware
                } else if word == String::from_str("breadth-first") {
                    TraversalStrategy::BreadthFirst
                } else {
                    TraversalStrategy::Standard
                }
            },
            None => {
                if has_word(args, "--standard") {
                    TraversalStrategy::Standard
                } else if has_word(args, "--git-aware") {
                    TraversalStrategy::GitAware
                } else if has_word(args, "--breadth-first") {
                    TraversalStrategy::BreadthFirst
                } else {
                    TraversalStrategy::Standard
                }
            },
        };
        if use_hyper || show_progress || name.is_some() {
            let mut command = HyperFindFilesCommand::new(directory, extension)
                .with_traversal_strategy(strategy)
                .with_progress(show_progress)
                .with_error_reporting(show_errors)
                .with_max_depth(depth)
                .with_skip_hidden(skip_hidden)
                .with_follow_links(!no_follow_links);
            if let Some(n) = name {
                command = command.with_name(n);
            }
            Ok(ParsedCommand::Hyper(command))
        } else {
            let command = FindFilesCommand::new(directory, extension)
                .with_max_depth(depth)
                .with_skip_hidden(skip_hidden);
            Ok(ParsedCommand::Standard(command))
        }
    }
}

/// What a command leaves behind: the exit code of the program and the
/// lines to print.
#[derive(Debug)]
pub struct CommandOutcome {
    /// 0 for success, 1 for a fatal error.
    pub code: i32,
    pub lines: Vec<String>,
}

/// The first line of a report on `count` files found in `directory`.
pub open spec fn headline(
    name: Option<Seq<char>>,
    extension: Seq<char>,
    directory: Seq<char>,
    count: nat,
) -> Seq<char> {
    if count == 0 {
        match name {
            Some(n) => "No files with name '"@ + n + "' and extension '"@ + extension
                + "' found in '"@ + directory + "'"@,
            None => "No files with extension '"@ + extension + "' found in '"@ + directory + "'"@,
        }
    } else {
        match name {
            Some(n) => "Found "@ + decimal_digits(count) + " file(s) with name '"@ + n
                + "' and extension '"@ + extension + "':"@,
            None => "Found "@ + decimal_digits(count) + " file(s) with extension '"@ + extension
                + "':"@,
        }
    }
}

/// The report on the files found: the headline, then the paths.
pub open spec fn plain_report(
    name: Option<Seq<char>>,
    extension: Seq<char>,
    directory: Seq<char>,
    files: Seq<Seq<char>>,
) -> Seq<Seq<char>> {
    seq![headline(name, extension, directory, files.len())] + files
}

/// The report behind a progress display, which has shown the count: the
/// paths under a heading of their own, nothing where there are none.
pub open spec fn progress_report(files: Seq<Seq<char>>) -> Seq<Seq<char>> {
    if files.len() == 0 {
        Seq::empty()
    } else {
        seq![""@, "Matching files:"@] + files
    }
}

/// The one line that reports a fatal error.
pub open spec fn error_line(message: Seq<char>) -> Seq<char> {
    "Error: "@ + message
}

fn write_headline(name: &Option<String>, extension: &str, directory: &str, count: usize) -> (line:
    String)
    ensures
        line@ == headline(crate::config::opt_text(*name), extension@, directory@, count as nat),
{
    if count == 0 {
        match name {
            Some(n) => String::from_str("No files with name '").concat(n.as_str()).concat(
                "' and extension '",
            ).concat(extension).concat("' found in '").concat(directory).concat("'"),
            None => String::from_str("No files with extension '").concat(extension).concat(
                "' found in '",
            ).concat(directory).concat("'"),
        }
    } else {
        let digits = decimal_text(count);
        match name {
            Some(n) => String::from_str("Found ").concat(digits.as_str()).concat(
                " file(s) with name '",
            ).concat(n.as_str()).concat("' and extension '").concat(extension).concat("':"),
            None => String::from_str("Found ").concat(digits.as_str()).concat(
                " file(s) with extension '",
            ).concat(extension).concat("':"),
        }
    }
}

fn write_plain_report(
    name: &Option<String>,
    extension: &str,
    directory: &str,
    files: &Vec<String>,
) -> (lines: Vec<String>)
    ensures
        texts(lines@) == plain_report(
            crate::config::opt_text(*name),
            extension@,
            directory@,
            texts(files@),
        ),
{
    let mut lines: Vec<String> = Vec::new();
    lines.push(write_headline(name, extension, directory, files.len()));
    assert(texts(lines@) =~= seq![
        headline(crate::config::opt_text(*name), extension@, directory@, files@.len()),
    ]);
    append_texts(&mut lines, files);
    lines
}

fn write_progress_report(files: &Vec<String>) -> (lines: Vec<String>)
    ensures
        texts(lines@) == progress_report(texts(files@)),
{
    let mut lines: Vec<String> = Vec::new();
    if files.len() == 0 {
        assert(texts(lines@) =~= Seq::empty());
        return lines;
    }
    lines.push(String::from_str(""));
    lines.push(String::from_str("Matching files:"));
    assert(texts(lines@) =~= seq![""@, "Matching files:"@]);
    append_texts(&mut lines, files);
    lines
}

fn write_error(error: &FinderError) -> (lines: Vec<String>)
    ensures
        lines@.len() == 1,
        lines@[0]@ == error_line(
            match error {
                FinderError::DirectoryAccess(p) => "Directory access error: "@ + p@,
                FinderError::InvalidPath(p) => "Invalid path: "@ + p@,
                FinderError::WorkerPool(p) => "Worker pool error: "@ + p@,
            },
        ),
{
    let mut lines: Vec<String> = Vec::new();
    lines.push(String::from_str("Error: ").concat(error.message().as_str()));
    lines
}

/// Whether `f` is the finder of the single-threaded find command `c`.
pub open spec fn is_finder_of(c: FindFilesCommand, f: FileFinder) -> bool {
    &&& f.config == (FinderConfig { num_threads: 1, follow_links: true, max_depth: c.max_depth })
    &&& f.traversal_strategy is Default
    &&& f.traversal_strategy->Default_0.skips_hidden() == c.skip_hidden
    &&& f.observer_registry.states().len() == 0
    &&& holds_criteria(f, crate::config::opt_text(c.name), Some(c.extension@))
}

/// Whether `f` is the finder of the find command `c` for the worker pool.
pub open spec fn is_hyper_finder_of(c: HyperFindFilesCommand, f: FileFinder) -> bool {
    &&& f.config.num_threads >= 1
    &&& f.config.follow_links == c.follow_links
    &&& f.config.max_depth == c.max_depth
    &&& f.traversal_strategy is Default
    &&& f.traversal_strategy->Default_0.skips_hidden() == c.skip_hidden
    &&& f.observer_registry.states() == seq![
        fresh(
            if c.show_progress {
                ObserverKind::Progress
            } else {
                ObserverKind::Null
            },
        ),
    ]
    &&& holds_criteria(f, crate::config::opt_text(c.name), Some(c.extension@))
}

fn find_filters(name: &Option<String>, extension: &str) -> (f: FileFinder)
    ensures
        holds_criteria(f, crate::config::opt_text(*name), Some(extension@)),
        f.observer_registry.states().len() == 0,
{
    match name {
        Some(n) => FinderFactory::create_finder_for(Some(n.as_str()), Some(extension)),
        None => FinderFactory::create_finder_for(None, Some(extension)),
    }
}

impl FindFilesCommand {
    /// The finder that the command searches with.
    pub fn finder(&self) -> (f: FileFinder)
        ensures
            is_finder_of(*self, f),
    {
        let mut f = find_filters(&self.name, self.extension.as_str());
        f.config = FinderConfig { num_threads: 1, follow_links: true, max_depth: self.max_depth };
        f.traversal_strategy = TraversalPolicy::Default(
            DefaultTraversalStrategy::new(self.skip_hidden),
        );
        f
    }

    /// The lines that report `files` as the outcome of the command.
    pub fn report(&self, files: &Vec<String>) -> (lines: Vec<String>)
        ensures
            texts(lines@) == plain_report(
                crate::config::opt_text(self.name),
                self.extension@,
                self.directory@,
                texts(files@),
            ),
    {
        write_plain_report(&self.name, self.extension.as_str(), self.directory.as_str(), files)
    }

    /// Runs the command on the snapshot `root` of its directory: searches
    /// with the command's finder and reports. A root that is no directory
    /// gives the exit code 1 and one line that says so.
    pub fn execute(&self, root: &DirNode) -> (outcome: CommandOutcome)
        ensures
            outcome.code == if root.entry@.kind == EntryKind::Directory {
                0i32
            } else {
                1i32
            },
            root.entry@.kind != EntryKind::Directory ==> outcome.lines@.len() == 1
                && outcome.lines@[0]@ == error_line("Invalid path: "@ + root.entry@.path),
            root.entry@.kind == EntryKind::Directory ==> exists|f: FileFinder| #[trigger]
                is_finder_of(*self, f) && texts(outcome.lines@) == plain_report(
                    crate::config::opt_text(self.name),
                    self.extension@,
                    self.directory@,
                    results_in(f.outcome(*root)),
                ),
    {
        let mut finder = self.finder();
        let ghost before = finder;
        match finder.find(root) {
            Ok(files) => {
                let lines = self.report(&files);
                assert(is_finder_of(*self, before));
                CommandOutcome { code: 0, lines }
            },
            Err(e) => CommandOutcome { code: 1, lines: write_error(&e) },
        }
    }
}

impl HyperFindFilesCommand {
    /// The finder that the command searches with: one worker for every
    /// processor, and a progress reporter where progress is shown.
    pub fn finder(&self) -> (f: FileFinder)
        ensures
            is_hyper_finder_of(*self, f),
    {
        let mut f = find_filters(&self.name, self.extension.as_str());
        let defaults = FinderConfig::default();
        f.config = FinderConfig {
            num_threads: defaults.num_threads,
            follow_links: self.follow_links,
            max_depth: self.max_depth,
        };
        f.traversal_strategy = TraversalPolicy::Default(
            DefaultTraversalStrategy::new(self.skip_hidden),
        );
        let observer = if self.show_progress {
            Observer::Progress(ProgressReporter::new())
        } else {
            Observer::Null(NullObserver::new())
        };
        f.observer_registry.register(observer);
        assert(f.observer_registry.states() =~= seq![
            fresh(
                if self.show_progress {
                    ObserverKind::Progress
                } else {
                    ObserverKind::Null
                },
            ),
        ]);
        f
    }

    /// The lines that report `files` as the outcome of the command: the
    /// full report where no progress was shown, the paths under a heading
    /// otherwise.
    pub fn report(&self, files: &Vec<String>) -> (lines: Vec<String>)
        ensures
            texts(lines@) == if self.show_progress {
                progress_report(texts(files@))
            } else {
                plain_report(
                    crate::config::opt_text(self.name),
                    self.extension@,
                    self.directory@,
                    texts(files@),
                )
            },
    {
        if self.show_progress {
            write_progress_report(files)
        } else {
            write_plain_report(&self.name, self.extension.as_str(), self.directory.as_str(), files)
        }
    }

    /// Runs the command on the snapshot `root` of its directory.
    pub fn execute(&self, root: &DirNode) -> (outcome: CommandOutcome)
        ensures
            outcome.code == if root.entry@.kind == EntryKind::Directory {
                0i32
            } else {
                1i32
            },
            root.entry@.kind != EntryKind::Directory ==> outcome.lines@.len() == 1
                && outcome.lines@[0]@ == error_line("Invalid path: "@ + root.entry@.path),
            root.entry@.kind == EntryKind::Directory ==> exists|f: FileFinder| #[trigger]
                is_hyper_finder_of(*self, f) && texts(outcome.lines@) == if self.show_progress {
                    progress_report(results_in(f.outcome(*root)))
                } else {
                    plain_report(
                        crate::config::opt_text(self.name),
                        self.extension@,
                        self.directory@,
                        results_in(f.outcome(*root)),
                    )
                },
    {
        let mut finder = self.finder();
        let ghost before = finder;
        match finder.find(root) {
            Ok(files) => {
                let lines = self.report(&files);
                assert(is_hyper_finder_of(*self, before));
                CommandOutcome { code: 0, lines }
            },
            Err(e) => CommandOutcome { code: 1, lines: write_error(&e) },
        }
    }
}

/// Counts what a find command sees and words its progress.
#[derive(Debug, Clone, Copy)]
pub struct ProgressObserver {
    pub dirs_scanned: usize,
    pub files_found: usize,
    pub errors: usize,
    pub show_errors: bool,
}

/// After how many files, and after how many directories, a progress line is
/// due.
pub const PROGRESS_STEP: usize = 100;

impl ProgressObserver {
    pub fn new(show_errors: bool) -> (o: ProgressObserver)
        ensures
            o == (ProgressObserver { dirs_scanned: 0, files_found: 0, errors: 0, show_errors }),
    {
        ProgressObserver { dirs_scanned: 0, files_found: 0, errors: 0, show_errors }
    }

    /// Counts a matched file. Every hundredth gives a line to print.
    pub fn on_file_found(&mut self) -> (line: Option<String>)
        ensures
            *final(self) == (ProgressObserver {
                files_found: next_count(old(self).files_found),
                ..*old(self)
            }),
            match line {
                Some(text) => final(self).files_found % PROGRESS_STEP == 0 && text@ == "Found "@
                    + decimal_digits(final(self).files_found as nat) + " files so far..."@,
                None => final(self).files_found % PROGRESS_STEP != 0,
            },
    {
        self.files_found = self.files_found.wrapping_add(1);
        if self.files_found % PROGRESS_STEP == 0 {
            Some(
                String::from_str("Found ").concat(decimal_text(self.files_found).as_str()).concat(
                    " files so far...",
                ),
            )
        } else {
            None
        }
    }

    /// Counts an entered directory. Every hundredth gives a line to print.
    pub fn on_directory_entered(&mut self) -> (line: Option<String>)
        ensures
            *final(self) == (ProgressObserver {
                dirs_scanned: next_count(old(self).dirs_scanned),
                ..*old(self)
            }),
            match line {
                Some(text) => final(self).dirs_scanned % PROGRESS_STEP == 0 && text@ == "Scanned "@
                    + decimal_digits(final(self).dirs_scanned as nat) + " directories..."@,
                None => final(self).dirs_scanned % PROGRESS_STEP != 0,
            },
    {
        self.dirs_scanned = self.dirs_scanned.wrapping_add(1);
        if self.dirs_scanned % PROGRESS_STEP == 0 {
            Some(
                String::from_str("Scanned ").concat(
                    decimal_text(self.dirs_scanned).as_str(),
                ).concat(" directories..."),
            )
        } else {
            None
        }
    }

    /// Counts a directory that could not be read. Gives a line for the
    /// error where errors are shown.
    pub fn on_directory_error(&mut self, path: &str, error: &str) -> (line: Option<String>)
        ensures
            *final(self) == (ProgressObserver {
                errors: next_count(old(self).errors),
                ..*old(self)
            }),
            match line {
                Some(text) => old(self).show_errors && text@ == "Error accessing '"@ + path@
                    + "': "@ + error@,
                None => !old(self).show_errors,
            },
    {
        self.errors = self.errors.wrapping_add(1);
        if self.show_errors {
            Some(
                String::from_str("Error accessing '").concat(path).concat("': ").concat(error),
            )
        } else {
            None
        }
    }

    /// The summary of a finished search that found `total_files` files.
    pub fn on_search_completed(&self, total_files: usize) -> (lines: Vec<String>)
        ensures
            texts(lines@) == seq![
                ""@,
                "Search completed:"@,
                "  Directories scanned: "@ + decimal_digits(self.dirs_scanned as nat),
                "  Files found: "@ + decimal_digits(total_files as nat),
                "  Errors encountered: "@ + decimal_digits(self.errors as nat),
            ],
    {
        let mut lines: Vec<String> = Vec::new();
        lines.push(String::from_str(""));
        lines.push(String::from_str("Search completed:"));
        lines.push(
            String::from_str("  Directories scanned: ").concat(
                decimal_text(self.dirs_scanned).as_str(),
            ),
        );
        lines.push(String::from_str("  Files found: ").concat(decimal_text(total_files).as_str()));
        lines.push(
            String::from_str("  Errors encountered: ").concat(decimal_text(self.errors).as_str()),
        );
        assert(texts(lines@) =~= seq![
            ""@,
            "Search completed:"@,
            "  Directories scanned: "@ + decimal_digits(self.dirs_scanned as nat),
            "  Files found: "@ + decimal_digits(total_files as nat),
            "  Errors encountered: "@ + decimal_digits(self.errors as nat),
        ]);
        lines
    }
}

} // verus!
