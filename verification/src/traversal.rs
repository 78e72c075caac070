//! Traversal policies: whether the walk looks at a node at all.

use vstd::prelude::*;
use crate::entry::{EntryKind, EntryView, FileEntry};
use crate::filters::regex::{
    compile_optional, is_malformed, is_well_formed, passes, path_passes, text_of,
};
use crate::filters::{FilterError, FilterResult};
use crate::pattern::Pattern;
use crate::text::{file_name, to_chars};

verus! {

/// The order in which a single-threaded walk visits directories.
#[derive(Debug, Clone, Copy, PartialEq, Eq, Structural)]
pub enum TraversalMode {
    BreadthFirst,
    DepthFirst,
}

impl Default for TraversalMode {
    fn default() -> (m: TraversalMode)
        ensures
            m == TraversalMode::BreadthFirst,
    {
        TraversalMode::BreadthFirst
    }
}

/// The two guards of a walk.
pub trait TraversalStrategy {
    /// Whether the walk enters the directory `entry`.
    spec fn enters(&self, entry: EntryView) -> bool;

    /// Whether the walk considers the file `entry` as a candidate.
    spec fn considers(&self, entry: EntryView) -> bool;

    fn should_process_directory(&self, entry: &FileEntry) -> (r: bool)
        ensures
            r == self.enters(entry@),
    ;

    fn should_process_file(&self, entry: &FileEntry) -> (r: bool)
        ensures
            r == self.considers(entry@),
    ;
}

/// An entry is hidden where its name starts with a dot or the platform
/// marks it so.
pub open spec fn hidden(entry: EntryView) -> bool {
    (entry.name().len() > 0 && entry.name()[0] == '.') || entry.hidden_attribute
}

/// The platform's own hidden mark of the entry.
pub fn has_hidden_attribute(entry: &FileEntry) -> (r: bool)
    ensures
        r == entry@.hidden_attribute,
{
    entry.hidden_attribute
}

/// Whether the entry is hidden.
pub fn is_hidden(entry: &FileEntry) -> (r: bool)
    ensures
        r == hidden(entry@),
{
    let path = to_chars(entry.path.as_str());
    let name = file_name(&path);
    (name.len() > 0 && name[0] == '.') || has_hidden_attribute(entry)
}

/// Looks at everything, or at everything that is not hidden.
#[derive(Debug, Clone, Copy)]
pub struct DefaultTraversalStrategy {
    ignore_hidden: bool,
}

impl DefaultTraversalStrategy {
/// Whether hidden entries are passed over.
    pub closed spec fn skips_hidden(&self) -> bool {
        self.ignore_hidden
    }

/// A policy that passes over hidden entries where `ignore_hidden` is set.
    pub fn new(ignore_hidden: bool) -> (s: DefaultTraversalStrategy)
        ensures
            s.skips_hidden() == ignore_hidden,
    {
        DefaultTraversalStrategy { ignore_hidden }
    }
}

impl TraversalStrategy for DefaultTraversalStrategy {
    open spec fn enters(&self, entry: EntryView) -> bool {
        !(self.skips_hidden() && hidden(entry))
    }

    open spec fn considers(&self, entry: EntryView) -> bool {
        !(self.skips_hidden() && hidden(entry))
    }

    fn should_process_directory(&self, entry: &FileEntry) -> (r: bool) {
        if self.ignore_hidden {
            !is_hidden(entry)
        } else {
            true
        }
    }

    fn should_process_file(&self, entry: &FileEntry) -> (r: bool) {
        if self.ignore_hidden {
            !is_hidden(entry)
        } else {
            true
        }
    }
}

/// Looks at the paths that an allow pattern matches, where there is one, and
/// that no deny pattern matches.
#[derive(Debug)]
pub struct RegexTraversalStrategy {
    allow: Option<Pattern>,
    deny: Option<Pattern>,
}

impl RegexTraversalStrategy {
/// The pattern that a path must match, where there is one.
    pub closed spec fn allow(&self) -> Option<Pattern> {
        self.allow
    }

/// The pattern that a path must not match, where there is one.
    pub closed spec fn deny(&self) -> Option<Pattern> {
        self.deny
    }

    /// A policy from the texts of its patterns; the allow pattern is
    /// compiled first, and the first failure is the one that comes back. A
    /// malformed expression fails as an invalid pattern, and nothing else
    /// does; one that is well formed may still fail as too large.
    pub fn new(allow_pattern: Option<&str>, deny_pattern: Option<&str>) -> (r: Result<
        RegexTraversalStrategy,
        FilterError,
    >)
        ensures
            r matches Ok(s) ==> {
                &&& s.allow() is Some <==> allow_pattern is Some
                &&& s.deny() is Some <==> deny_pattern is Some
                &&& s.allow() is Some ==> s.allow()->0.source() == allow_pattern->0@
                    && !s.allow()->0.folds_case()
                &&& s.deny() is Some ==> s.deny()->0.source() == deny_pattern->0@
                    && !s.deny()->0.folds_case()
            },
            r matches Err(e) ==> e is InvalidPattern || e is PatternTooLarge,
            r is Err && r->Err_0 is InvalidPattern ==> is_malformed(text_of(allow_pattern))
                || is_malformed(text_of(deny_pattern)),
            r is Err && r->Err_0 is PatternTooLarge ==> is_well_formed(text_of(allow_pattern))
                || is_well_formed(text_of(deny_pattern)),
            is_malformed(text_of(allow_pattern)) ==> r is Err && r->Err_0 is InvalidPattern,
            is_malformed(text_of(deny_pattern)) ==> r is Err,
            allow_pattern is None && deny_pattern is None ==> r is Ok,
    {
        let allow = match compile_optional(allow_pattern) {
            Ok(p) => p,
            Err(e) => {
                return Err(e);
            },
        };
        let deny = match compile_optional(deny_pattern) {
            Ok(p) => p,
            Err(e) => {
                return Err(e);
            },
        };
        Ok(RegexTraversalStrategy { allow, deny })
    }

    /// A policy from patterns that are already compiled.
    pub fn from_patterns(allow: Option<Pattern>, deny: Option<Pattern>) -> (s:
        RegexTraversalStrategy)
        ensures
            s.allow() == allow,
            s.deny() == deny,
    {
        RegexTraversalStrategy { allow, deny }
    }
}

impl TraversalStrategy for RegexTraversalStrategy {
    open spec fn enters(&self, entry: EntryView) -> bool {
        path_passes(self.allow(), self.deny(), entry.path)
    }

    open spec fn considers(&self, entry: EntryView) -> bool {
        path_passes(self.allow(), self.deny(), entry.path)
    }

    fn should_process_directory(&self, entry: &FileEntry) -> (r: bool) {
        passes(&self.allow, &self.deny, entry.path.as_str())
    }

    fn should_process_file(&self, entry: &FileEntry) -> (r: bool) {
        passes(&self.allow, &self.deny, entry.path.as_str())
    }
}

/// Any traversal policy of this library.
#[derive(Debug)]
pub enum TraversalPolicy {
    Default(DefaultTraversalStrategy),
    Regex(RegexTraversalStrategy),
    Composite(CompositeTraversalStrategy),
}

/// Looks at what every one of its policies looks at.
#[derive(Debug)]
pub struct CompositeTraversalStrategy {
    pub strategies: Vec<TraversalPolicy>,
}

impl TraversalPolicy {
/// Whether the policy lets the walk look at `entry`, as a directory to
/// enter or as a file to consider.
    pub open spec fn admits(self, entry: EntryView, directory: bool) -> bool
        decreases self,
    {
        match self {
            TraversalPolicy::Default(s) => if directory {
                s.enters(entry)
            } else {
                s.considers(entry)
            },
            TraversalPolicy::Regex(s) => if directory {
                s.enters(entry)
            } else {
                s.considers(entry)
            },
            TraversalPolicy::Composite(c) => c.all_admit(entry, directory, 0),
        }
    }

/// Applies the policy to `entry`.
    pub fn check(&self, entry: &FileEntry, directory: bool) -> (r: bool)
        ensures
            r == self.admits(entry@, directory),
        decreases *self,
    {
        match self {
            TraversalPolicy::Default(s) => if directory {
                s.should_process_directory(entry)
            } else {
                s.should_process_file(entry)
            },
            TraversalPolicy::Regex(s) => if directory {
                s.should_process_directory(entry)
            } else {
                s.should_process_file(entry)
            },
            TraversalPolicy::Composite(c) => c.check(entry, directory),
        }
    }

    /// The policy read as a predicate: a directory that is not entered is
    /// pruned, a file that is not considered is rejected.
    pub fn as_filter_result(&self, entry: &FileEntry) -> (r: FilterResult)
        ensures
            r == if entry@.is_dir() {
                if self.admits(entry@, true) {
                    FilterResult::Accept
                } else {
                    FilterResult::Prune
                }
            } else if self.admits(entry@, false) {
                FilterResult::Accept
            } else {
                FilterResult::Reject
            },
    {
        if entry.kind == EntryKind::Directory {
            if self.check(entry, true) {
                FilterResult::Accept
            } else {
                FilterResult::Prune
            }
        } else if self.check(entry, false) {
            FilterResult::Accept
        } else {
            FilterResult::Reject
        }
    }
}

impl CompositeTraversalStrategy {
    /// Every policy at or behind index `from` admits `entry`.
    pub open spec fn all_admit(self, entry: EntryView, directory: bool, from: int) -> bool
        decreases self, self.strategies@.len() - from,
    {
        if 0 <= from < self.strategies@.len() {
            self.strategies@[from].admits(entry, directory) && self.all_admit(
                entry,
                directory,
                from + 1,
            )
        } else {
            true
        }
    }

/// The conjunction of `strategies`.
    pub fn new(strategies: Vec<TraversalPolicy>) -> (c: CompositeTraversalStrategy)
        ensures
            c.strategies == strategies,
    {
        CompositeTraversalStrategy { strategies }
    }

/// Applies every policy to `entry`.
    pub fn check(&self, entry: &FileEntry, directory: bool) -> (r: bool)
        ensures
            r == self.all_admit(entry@, directory, 0),
        decreases *self,
    {
        let mut i: usize = 0;
        while i < self.strategies.len()
            invariant
                i <= self.strategies.len(),
                self.all_admit(entry@, directory, 0) == self.all_admit(entry@, directory, i as int),
            decreases self.strategies.len() - i,
        {
            if !self.strategies[i].check(entry, directory) {
                return false;
            }
            i = i + 1;
        }
        true
    }

    /// `all_admit` from the first policy on says that every policy admits
    /// the entry.
    pub proof fn lemma_all_admit(self, entry: EntryView, directory: bool, from: int)
        requires
            0 <= from,
        ensures
            self.all_admit(entry, directory, from) <==> forall|i: int|
                from <= i < self.strategies@.len() ==> (#[trigger] self.strategies@[i]).admits(
                    entry,
                    directory,
                ),
        decreases self.strategies@.len() - from,
    {
        if from < self.strategies@.len() {
            self.lemma_all_admit(entry, directory, from + 1);
        }
    }
}

impl TraversalStrategy for TraversalPolicy {
    open spec fn enters(&self, entry: EntryView) -> bool {
        self.admits(entry, true)
    }

    open spec fn considers(&self, entry: EntryView) -> bool {
        self.admits(entry, false)
    }

    fn should_process_directory(&self, entry: &FileEntry) -> (r: bool) {
        self.check(entry, true)
    }

    fn should_process_file(&self, entry: &FileEntry) -> (r: bool) {
        self.check(entry, false)
    }
}

impl TraversalStrategy for CompositeTraversalStrategy {
    open spec fn enters(&self, entry: EntryView) -> bool {
        self.all_admit(entry, true, 0)
    }

    open spec fn considers(&self, entry: EntryView) -> bool {
        self.all_admit(entry, false, 0)
    }

    fn should_process_directory(&self, entry: &FileEntry) -> (r: bool) {
        self.check(entry, true)
    }

    fn should_process_file(&self, entry: &FileEntry) -> (r: bool) {
        self.check(entry, false)
    }
}

} // verus!
