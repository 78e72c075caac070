//! The content search: lines of matched files against one compiled
//! pattern.

use vstd::prelude::*;
use vstd::string::StringExecFns;
use crate::config::FileSearchConfig;
use crate::pattern::{regex_is_malformed, CompileError, Pattern};
use crate::text::{holds_text, texts};

verus! {

/// One matching line.
#[derive(Debug, Clone)]
pub struct GrepMatch {
    pub path: String,
    /// The line's number in its file, counted from 1.
    pub line_number: usize,
    pub line: String,
}

/// The mathematical value of a `GrepMatch`.
pub struct MatchView {
    pub path: Seq<char>,
    pub line_number: usize,
    pub line: Seq<char>,
}

impl View for GrepMatch {
    type V = MatchView;

    open spec fn view(&self) -> MatchView {
        MatchView { path: self.path@, line_number: self.line_number, line: self.line@ }
    }
}

/// One line of the report.
#[derive(Debug, Clone)]
pub enum OutputLine {
    /// The path of a file that holds a match, in the files-only mode.
    Path(String),
    /// The path that heads the matching lines of a file.
    Header(String),
    /// A matching line, with its number where numbers are asked for.
    Line(Option<usize>, String),
    /// The empty line that closes the lines of a file.
    Blank,
}

/// The mathematical value of an `OutputLine`.
pub enum OutputView {
    Path(Seq<char>),
    Header(Seq<char>),
    Line(Option<usize>, Seq<char>),
    Blank,
}

impl View for OutputLine {
    type V = OutputView;

    open spec fn view(&self) -> OutputView {
        match self {
            OutputLine::Path(p) => OutputView::Path(p@),
            OutputLine::Header(p) => OutputView::Header(p@),
            OutputLine::Line(n, t) => OutputView::Line(*n, t@),
            OutputLine::Blank => OutputView::Blank,
        }
    }
}

/// The texts of a file's lines; `None` stands for a line that could not be
/// decoded.
pub open spec fn line_texts(lines: Seq<Option<String>>) -> Seq<Option<Seq<char>>> {
    Seq::new(
        lines.len(),
        |i: int|
            match lines[i] {
                Some(t) => Some(t@),
                None => None,
            },
    )
}

/// The values of a list of matches.
pub open spec fn match_views(matches: Seq<GrepMatch>) -> Seq<MatchView> {
    Seq::new(matches.len(), |i: int| matches[i]@)
}

/// The values of a list of report lines.
pub open spec fn output_views(lines: Seq<OutputLine>) -> Seq<OutputView> {
    Seq::new(lines.len(), |i: int| lines[i]@)
}

/// The matches among the first `n` lines of the file at `path`, in order.
/// Lines are numbered from 1; an undecodable line is passed over but still
/// counted.
pub open spec fn matches_among(
    lines: Seq<Option<Seq<char>>>,
    pattern: Pattern,
    path: Seq<char>,
    n: int,
) -> Seq<MatchView>
    decreases n,
{
    if n <= 0 || n > lines.len() {
        Seq::empty()
    } else {
        let before = matches_among(lines, pattern, path, n - 1);
        match lines[n - 1] {
            Some(t) => if pattern.matches(t) {
                before.push(MatchView { path, line_number: n as usize, line: t })
            } else {
                before
            },
            None => before,
        }
    }
}

/// The report lines for the matches from index `from` on.
pub open spec fn match_lines(matches: Seq<MatchView>, numbered: bool, n: int) -> Seq<OutputView>
    decreases n,
{
    if n <= 0 || n > matches.len() {
        Seq::empty()
    } else {
        match_lines(matches, numbered, n - 1).push(
            OutputView::Line(
                if numbered {
                    Some(matches[n - 1].line_number)
                } else {
                    None
                },
                matches[n - 1].line,
            ),
        )
    }
}

/// The report for one file. A file without a match reports nothing. In the
/// files-only mode a file reports its path, once. Otherwise it reports its
/// path as a header, its matching lines, and an empty line.
pub open spec fn report_for(
    files_only: bool,
    numbered: bool,
    path: Seq<char>,
    matches: Seq<MatchView>,
    reported: Seq<Seq<char>>,
) -> Seq<OutputView> {
    if matches.len() == 0 {
        Seq::empty()
    } else if files_only {
        if reported.contains(path) {
            Seq::empty()
        } else {
            seq![OutputView::Path(path)]
        }
    } else {
        seq![OutputView::Header(path)] + match_lines(matches, numbered, matches.len() as int)
            + seq![OutputView::Blank]
    }
}

/// Why a file could not be opened.
#[derive(Debug, Clone, Copy, PartialEq, Eq, Structural)]
pub enum OpenFailure {
    PermissionDenied,
    Other,
}

/// The content search of one configuration.
#[derive(Debug)]
pub struct GrepCommand<'a> {
    pub config: &'a FileSearchConfig,
}

impl<'a> GrepCommand<'a> {
    pub fn new(config: &'a FileSearchConfig) -> (c: GrepCommand<'a>)
        ensures
            c.config == config,
    {
        GrepCommand { config }
    }

    /// The expression that is compiled: the pattern of the configuration,
    /// the empty one where none is set.
    pub open spec fn expression(&self) -> Seq<char> {
        match self.config@.pattern {
            Some(source) => source,
            None => ""@,
        }
    }

    /// Compiles the pattern of the configuration, the empty pattern where
    /// none is set, with case folded where the configuration says so. A
    /// malformed expression fails as such, and only a malformed one does;
    /// one that the compiler can read may still fail as too large.
    pub fn compile_pattern(&self) -> (r: Result<Pattern, CompileError>)
        ensures
            r matches Ok(p) ==> p.folds_case() == self.config.ignore_case && p.source()
                == self.expression(),
            regex_is_malformed(self.expression(), self.config.ignore_case) <==> (r is Err
                && r->Err_0 is Malformed),
    {
        let source = match &self.config.pattern {
            Some(source) => source.as_str(),
            None => "",
        };
        Pattern::compile(source, self.config.ignore_case)
    }

    /// What becomes of a file that could not be opened: one that may not be
    /// read is passed over in silence; any other failure ends the search
    /// with a message that names the file.
    pub fn on_open_failure(path: &str, failure: OpenFailure) -> (r: Result<(), String>)
        ensures
            r is Ok <==> failure == OpenFailure::PermissionDenied,
            r matches Err(message) ==> message@ == "Failed to open file: "@ + path@,
    {
        match failure {
            OpenFailure::PermissionDenied => Ok(()),
            OpenFailure::Other => Err(String::from_str("Failed to open file: ").concat(path)),
        }
    }

    /// The matching lines of the file at `path`, whose lines are `lines`.
    pub fn search_file(path: &str, lines: &Vec<Option<String>>, pattern: &Pattern) -> (matches:
        Vec<GrepMatch>)
        ensures
            match_views(matches@) == matches_among(
                line_texts(lines@),
                *pattern,
                path@,
                lines@.len() as int,
            ),
    {
        let mut matches: Vec<GrepMatch> = Vec::new();
        assert(match_views(matches@) =~= Seq::empty());
        let mut i: usize = 0;
        while i < lines.len()
            invariant
                i <= lines.len(),
                match_views(matches@) == matches_among(
                    line_texts(lines@),
                    *pattern,
                    path@,
                    i as int,
                ),
            decreases lines.len() - i,
        {
            let ghost before = matches@;
            if let Some(line) = &lines[i] {
                assert(line_texts(lines@)[i as int] == Some(line@));
                if pattern.is_match(line.as_str()) {
                    matches.push(
                        GrepMatch {
                            path: path.to_string(),
                            line_number: i + 1,
                            line: line.clone(),
                        },
                    );
                    assert(match_views(matches@) =~= match_views(before).push(
                        MatchView { path: path@, line_number: (i + 1) as usize, line: line@ },
                    ));
                }
            } else {
                assert(line_texts(lines@)[i as int] is None);
            }
            i = i + 1;
        }
        matches
    }

    /// The report lines for one file, given its matches. `reported` holds
    /// the paths already reported in the files-only mode and takes up this
    /// one where it is reported.
    pub fn process_file(
        &self,
        path: &str,
        matches: &Vec<GrepMatch>,
        reported: &mut Vec<String>,
    ) -> (lines: Vec<OutputLine>)
        ensures
            output_views(lines@) == report_for(
                self.config.files_with_matches,
                self.config.line_number,
                path@,
                match_views(matches@),
                texts(old(reported)@),
            ),
            texts(final(reported)@) == if self.config.files_with_matches && matches@.len() > 0
                && !texts(old(reported)@).contains(path@) {
                texts(old(reported)@).push(path@)
            } else {
                texts(old(reported)@)
            },
    {
        let mut lines: Vec<OutputLine> = Vec::new();
        assert(output_views(lines@) =~= Seq::empty());
        if matches.len() == 0 {
            return lines;
        }
        if self.config.files_with_matches {
            let wanted = path.to_string();
            if !holds_text(reported, &wanted) {
                let ghost before = reported@;
                reported.push(wanted);
                assert(texts(reported@) =~= texts(before).push(path@));
                lines.push(OutputLine::Path(path.to_string()));
                assert(output_views(lines@) =~= seq![OutputView::Path(path@)]);
            }
            return lines;
        }
        lines.push(OutputLine::Header(path.to_string()));
        assert(output_views(lines@) =~= seq![OutputView::Header(path@)] + match_lines(
            match_views(matches@),
            self.config.line_number,
            0,
        ));
        let mut i: usize = 0;
        while i < matches.len()
            invariant
                i <= matches.len(),
                output_views(lines@) == seq![OutputView::Header(path@)] + match_lines(
                    match_views(matches@),
                    self.config.line_number,
                    i as int,
                ),
            decreases matches.len() - i,
        {
            let ghost before = lines@;
            let number = if self.config.line_number {
                Some(matches[i].line_number)
            } else {
                None
            };
            lines.push(OutputLine::Line(number, matches[i].line.clone()));
            assert(match_views(matches@)[i as int] == matches@[i as int]@);
            assert(output_views(lines@) =~= output_views(before).push(
                OutputView::Line(number, matches@[i as int].line@),
            ));
            assert(output_views(lines@) =~= seq![OutputView::Header(path@)] + match_lines(
                match_views(matches@),
                self.config.line_number,
                i + 1,
            ));
            i = i + 1;
        }
        let ghost before = lines@;
        lines.push(OutputLine::Blank);
        assert(output_views(lines@) =~= output_views(before).push(OutputView::Blank));
        assert(output_views(lines@) =~= seq![OutputView::Header(path@)] + match_lines(
            match_views(matches@),
            self.config.line_number,
            matches@.len() as int,
        ) + seq![OutputView::Blank]);
        lines
    }
}

} // verus!
