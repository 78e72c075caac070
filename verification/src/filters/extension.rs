//! The predicate on an entry's extension.

use vstd::prelude::*;
use crate::entry::{EntryKind, EntryView, FileEntry};
use crate::filters::name::{is_wildcard, is_wildcard_text};
use crate::filters::{Filter, FilterResult};
use crate::text::{extension, file_name, from_chars, lower_seq, same_text, tail_from, to_chars, to_lower};

verus! {

/// Accepts the files with a given extension, compared without regard to
/// ASCII case.
#[derive(Debug, Clone)]
pub struct ExtensionFilter {
    extension: String,
}

/// `text` without its leading dots.
pub open spec fn strip_dots(text: Seq<char>) -> Seq<char>
    decreases text.len(),
{
    if text.len() > 0 && text[0] == '.' {
        strip_dots(text.drop_first())
    } else {
        text
    }
}

/// What an extension predicate for the normalized text `wanted` says of
/// `entry`: directories pass; the wildcard passes everything; the empty text
/// passes the files without extension; any other text must equal the
/// extension up to ASCII case.
pub open spec fn extension_decision(wanted: Seq<char>, entry: EntryView) -> FilterResult {
    if entry.is_dir() || is_wildcard(wanted) {
        FilterResult::Accept
    } else {
        match entry.extension() {
            Some(found) => if lower_seq(found) == lower_seq(wanted) {
                FilterResult::Accept
            } else {
                FilterResult::Reject
            },
            None => if wanted.len() == 0 {
                FilterResult::Accept
            } else {
                FilterResult::Reject
            },
        }
    }
}

/// `text` without its leading dots.
pub fn without_leading_dots(text: &Vec<char>) -> (r: Vec<char>)
    ensures
        r@ == strip_dots(text@),
{
    let mut i: usize = 0;
    assert(text@.skip(0) == text@);
    while i < text.len() && text[i] == '.'
        invariant
            i <= text.len(),
            strip_dots(text@) == strip_dots(text@.skip(i as int)),
        decreases text.len() - i,
    {
        assert(text@.skip(i as int).drop_first() == text@.skip(i + 1));
        i = i + 1;
    }
    tail_from(text, i)
}

impl ExtensionFilter {
    /// The extension looked for, without leading dots.
    pub closed spec fn wanted(&self) -> Seq<char> {
        self.extension@
    }

    /// A predicate for `extension`; leading dots are dropped, so `"rs"` and
    /// `".rs"` give the same predicate.
    pub fn new(extension: &str) -> (f: ExtensionFilter)
        ensures
            f.wanted() == strip_dots(extension@),
    {
        let chars = to_chars(extension);
        ExtensionFilter { extension: from_chars(&without_leading_dots(&chars)) }
    }
}

impl Filter for ExtensionFilter {
    open spec fn spec_filter(&self, entry: EntryView) -> FilterResult {
        extension_decision(self.wanted(), entry)
    }

    fn filter(&self, entry: &FileEntry) -> (r: FilterResult) {
        if entry.kind == EntryKind::Directory {
            return FilterResult::Accept;
        }
        let wanted = to_chars(self.extension.as_str());
        if is_wildcard_text(&wanted) {
            return FilterResult::Accept;
        }
        let path = to_chars(entry.path.as_str());
        let name = file_name(&path);
        match extension(&name) {
            Some(found) => {
                if same_text(&to_lower(&found), &to_lower(&wanted)) {
                    FilterResult::Accept
                } else {
                    FilterResult::Reject
                }
            },
            None => {
                if wanted.len() == 0 {
                    FilterResult::Accept
                } else {
                    FilterResult::Reject
                }
            },
        }
    }
}

/// A leading dot changes nothing: the predicate for `.` followed by
/// `extension` is the predicate for `extension`.
pub proof fn lemma_leading_dot_is_dropped(extension: Seq<char>, entry: EntryView)
    ensures
        strip_dots(seq!['.'] + extension) == strip_dots(extension),
        extension_decision(strip_dots(seq!['.'] + extension), entry) == extension_decision(
            strip_dots(extension),
            entry,
        ),
{
    let dotted = seq!['.'] + extension;
    assert(dotted.drop_first() == extension);
}

} // verus!
