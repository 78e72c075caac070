//! Predicates over file-system entries.

use vstd::prelude::*;
use crate::entry::{EntryView, FileEntry};

pub mod composite;
pub mod date;
pub mod extension;
pub mod name;
pub mod regex;
pub mod size;

pub use composite::{CompositeFilter, Predicate, TypedCompositeFilter};
pub use date::DateFilter;
pub use extension::ExtensionFilter;
pub use name::NameFilter;
pub use regex::RegexFilter;
pub use size::SizeFilter;

verus! {

/// What a predicate says of an entry.
#[derive(Debug, Clone, Copy, PartialEq, Eq, Structural)]
pub enum FilterResult {
    /// The entry passes.
    Accept,
    /// The entry does not pass.
    Reject,
    /// The entry does not pass and, if it is a directory, is not descended
    /// into.
    Prune,
}

/// How a composite combines its children.
#[derive(Debug, Clone, Copy, PartialEq, Eq, Structural)]
pub enum FilterOperation {
    /// Every child must accept.
    And,
    /// One accepting child is enough.
    Or,
}

/// Why a predicate could not be built.
#[derive(Debug)]
pub enum FilterError {
    /// The regular expression is malformed; the text is the compiler's
    /// message.
    InvalidPattern(String),
    /// The regular expression is well formed, and its compiled form is
    /// over the compiler's size limit; the text is the compiler's message.
    PatternTooLarge(String),
    /// The text is not a date of the form `YYYY-MM-DD`; the text is the
    /// parser's message.
    InvalidDate(String),
}

/// A decision over an entry that depends on the entry's value alone.
pub trait Filter {
    /// The decision, as a function of the entry's value.
    spec fn spec_filter(&self, entry: EntryView) -> FilterResult;

    fn filter(&self, entry: &FileEntry) -> (r: FilterResult)
        ensures
            r == self.spec_filter(entry@),
    ;
}

/// The conjunction of two decisions: the first unless it accepts.
pub open spec fn and_then_result(first: FilterResult, second: FilterResult) -> FilterResult {
    if first == FilterResult::Accept {
        second
    } else {
        first
    }
}

/// The disjunction of two decisions: accept if either accepts, else prune if
/// either prunes, else reject.
pub open spec fn or_else_result(first: FilterResult, second: FilterResult) -> FilterResult {
    if first == FilterResult::Accept || second == FilterResult::Accept {
        FilterResult::Accept
    } else if first == FilterResult::Prune || second == FilterResult::Prune {
        FilterResult::Prune
    } else {
        FilterResult::Reject
    }
}

} // verus!
