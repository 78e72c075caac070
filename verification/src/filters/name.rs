//! The predicate on an entry's name.

use vstd::prelude::*;
use crate::entry::{EntryKind, EntryView, FileEntry};
use crate::filters::{Filter, FilterResult};
use crate::text::{contains, contains_text, file_name, lowercase, lowercase_of, to_chars};

verus! {

/// Accepts the entries whose terminal path component holds a given text.
#[derive(Debug, Clone)]
pub struct NameFilter {
    name: String,
    ignore_case: bool,
}

/// The one-character text `*`, which stands for every name.
pub open spec fn is_wildcard(text: Seq<char>) -> bool {
    text.len() == 1 && text[0] == '*'
}

/// What a name predicate for `wanted` says of `entry`: directories pass;
/// the wildcard passes everything; any other text must occur in the name,
/// both taken in lower case where case is ignored.
pub open spec fn name_decision(wanted: Seq<char>, ignore_case: bool, entry: EntryView) -> FilterResult {
    if entry.is_dir() || is_wildcard(wanted) {
        FilterResult::Accept
    } else if ignore_case {
        if contains_text(lowercase_of(entry.name()), lowercase_of(wanted)) {
            FilterResult::Accept
        } else {
            FilterResult::Reject
        }
    } else if contains_text(entry.name(), wanted) {
        FilterResult::Accept
    } else {
        FilterResult::Reject
    }
}

/// Whether the text is the wildcard `*`.
pub fn is_wildcard_text(text: &Vec<char>) -> (r: bool)
    ensures
        r == is_wildcard(text@),
{
    text.len() == 1 && text[0] == '*'
}

impl NameFilter {
/// The text looked for.
    pub closed spec fn wanted(&self) -> Seq<char> {
        self.name@
    }

/// Whether case is ignored.
    pub closed spec fn ignores_case(&self) -> bool {
        self.ignore_case
    }

    /// A case-sensitive predicate for names that hold `name`.
    pub fn new(name: &str) -> (f: NameFilter)
        ensures
            f.wanted() == name@,
            !f.ignores_case(),
    {
        NameFilter { name: name.to_string(), ignore_case: false }
    }

    /// A predicate for names that hold `name` when both are taken in lower
    /// case.
    pub fn case_insensitive(name: &str) -> (f: NameFilter)
        ensures
            f.wanted() == name@,
            f.ignores_case(),
    {
        NameFilter { name: name.to_string(), ignore_case: true }
    }
}

impl Filter for NameFilter {
    open spec fn spec_filter(&self, entry: EntryView) -> FilterResult {
        name_decision(self.wanted(), self.ignores_case(), entry)
    }

    fn filter(&self, entry: &FileEntry) -> (r: FilterResult) {
        if entry.kind == EntryKind::Directory {
            return FilterResult::Accept;
        }
        let wanted = to_chars(self.name.as_str());
        if is_wildcard_text(&wanted) {
            return FilterResult::Accept;
        }
        let path = to_chars(entry.path.as_str());
        let name = file_name(&path);
        let found = if self.ignore_case {
            contains(&lowercase(&name), &lowercase(&wanted))
        } else {
            contains(&name, &wanted)
        };
        if found {
            FilterResult::Accept
        } else {
            FilterResult::Reject
        }
    }
}

} // verus!
