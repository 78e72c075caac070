//! The predicate on an entry's whole path, by regular expression.

use vstd::prelude::*;
use crate::entry::{EntryKind, EntryView, FileEntry};
use crate::filters::{Filter, FilterError, FilterResult};
use crate::pattern::{regex_is_malformed, CompileError, Pattern};

verus! {

/// Accepts the files whose path matches the allow pattern, where there is
/// one, and not the deny pattern.
#[derive(Debug)]
pub struct RegexFilter {
    allow: Option<Pattern>,
    deny: Option<Pattern>,
}

/// Whether `path` gets past an optional deny pattern and an optional
/// allow pattern: an deny match refuses; otherwise an allow match, or
/// no allow pattern, lets it through.
pub open spec fn path_passes(allow: Option<Pattern>, deny: Option<Pattern>, path: Seq<char>) -> bool {
    if deny matches Some(p) && p.matches(path) {
        false
    } else {
        match allow {
            Some(p) => p.matches(path),
            None => true,
        }
    }
}

/// Tests `path` against an optional deny and an optional allow pattern.
pub fn passes(allow: &Option<Pattern>, deny: &Option<Pattern>, path: &str) -> (r: bool)
    ensures
        r == path_passes(*allow, *deny, path@),
{
    if let Some(p) = deny {
        if p.is_match(path) {
            return false;
        }
    }
    match allow {
        Some(p) => p.is_match(path),
        None => true,
    }
}

/// Whether there is an expression and it is malformed.
pub open spec fn is_malformed(source: Option<Seq<char>>) -> bool {
    source is Some && regex_is_malformed(source->0, false)
}

/// Whether there is an expression and it is well formed. Such an
/// expression compiles unless its compiled form is too large.
pub open spec fn is_well_formed(source: Option<Seq<char>>) -> bool {
    source is Some && !regex_is_malformed(source->0, false)
}

/// The text of an optional expression.
pub open spec fn text_of(source: Option<&str>) -> Option<Seq<char>> {
    match source {
        Some(s) => Some(s@),
        None => None,
    }
}

/// The error of a predicate for the failure of a compilation.
pub fn pattern_error(failure: CompileError) -> (e: FilterError)
    ensures
        e == match failure {
            CompileError::Malformed(text) => FilterError::InvalidPattern(text),
            CompileError::TooLarge(text) => FilterError::PatternTooLarge(text),
        },
{
    match failure {
        CompileError::Malformed(text) => FilterError::InvalidPattern(text),
        CompileError::TooLarge(text) => FilterError::PatternTooLarge(text),
    }
}

/// Compiles an optional pattern, without case folding; no pattern compiles
/// to no pattern. A malformed expression fails as an invalid pattern, and
/// nothing else does.
pub fn compile_optional(source: Option<&str>) -> (r: Result<Option<Pattern>, FilterError>)
    ensures
        source is None ==> r == Ok::<Option<Pattern>, FilterError>(None),
        r matches Ok(p) ==> (p is Some <==> source is Some),
        r matches Ok(Some(p)) ==> source is Some && p.source() == source->0@ && !p.folds_case(),
        r matches Err(e) ==> e is InvalidPattern || e is PatternTooLarge,
        is_malformed(text_of(source)) <==> (r is Err && r->Err_0 is InvalidPattern),
{
    match source {
        None => Ok(None),
        Some(s) => match Pattern::compile(s, false) {
            Ok(p) => Ok(Some(p)),
            Err(failure) => Err(pattern_error(failure)),
        },
    }
}

impl RegexFilter {
/// The pattern that a path must match, where there is one.
    pub closed spec fn allow(&self) -> Option<Pattern> {
        self.allow
    }

/// The pattern that a path must not match, where there is one.
    pub closed spec fn deny(&self) -> Option<Pattern> {
        self.deny
    }

    /// A predicate for the paths that `pattern` matches. A malformed
    /// expression fails as an invalid pattern, and nothing else does; one
    /// that is well formed may still fail as too large.
    pub fn new(pattern: &str) -> (r: Result<RegexFilter, FilterError>)
        ensures
            r matches Ok(f) ==> f.deny() is None && f.allow() is Some && f.allow()->0.source()
                == pattern@ && !f.allow()->0.folds_case(),
            r matches Err(e) ==> e is InvalidPattern || e is PatternTooLarge,
            regex_is_malformed(pattern@, false) <==> (r is Err && r->Err_0 is InvalidPattern),
    {
        match compile_optional(Some(pattern)) {
            Ok(allow) => Ok(RegexFilter { allow, deny: None }),
            Err(e) => Err(e),
        }
    }

    /// A predicate from patterns that are already compiled.
    pub fn from_patterns(allow: Option<Pattern>, deny: Option<Pattern>) -> (f: RegexFilter)
        ensures
            f.allow() == allow,
            f.deny() == deny,
    {
        RegexFilter { allow, deny }
    }
}

impl Filter for RegexFilter {
    open spec fn spec_filter(&self, entry: EntryView) -> FilterResult {
        if entry.is_dir() || path_passes(self.allow(), self.deny(), entry.path) {
            FilterResult::Accept
        } else {
            FilterResult::Reject
        }
    }

    fn filter(&self, entry: &FileEntry) -> (r: FilterResult) {
        if entry.kind == EntryKind::Directory {
            return FilterResult::Accept;
        }
        if passes(&self.allow, &self.deny, entry.path.as_str()) {
            FilterResult::Accept
        } else {
            FilterResult::Reject
        }
    }
}

} // verus!
