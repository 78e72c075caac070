//! The predicate on a file's size.

use vstd::prelude::*;
use crate::entry::{EntryKind, EntryView, FileEntry};
use crate::filters::{Filter, FilterResult};

verus! {

/// Accepts the files whose size lies within bounds, either of which may be
/// absent.
#[derive(Debug, Clone, Copy)]
pub struct SizeFilter {
    min_size: Option<u64>,
    max_size: Option<u64>,
}

/// What a size predicate says of `entry`: directories pass; a file whose
/// size could not be read is rejected, and so is one outside the bounds.
pub open spec fn size_decision(min: Option<u64>, max: Option<u64>, entry: EntryView) -> FilterResult {
    if entry.is_dir() {
        FilterResult::Accept
    } else {
        match entry.size {
            None => FilterResult::Reject,
            Some(size) => if (min matches Some(lo) && size < lo) || (max matches Some(hi) && size > hi) {
                FilterResult::Reject
            } else {
                FilterResult::Accept
            },
        }
    }
}

impl SizeFilter {
/// The least size that passes, where there is a bound.
    pub closed spec fn lower(&self) -> Option<u64> {
        self.min_size
    }

/// The greatest size that passes, where there is a bound.
    pub closed spec fn upper(&self) -> Option<u64> {
        self.max_size
    }

    /// A predicate with the given bounds in bytes.
    pub fn new(min_size: Option<u64>, max_size: Option<u64>) -> (f: SizeFilter)
        ensures
            f.lower() == min_size,
            f.upper() == max_size,
    {
        SizeFilter { min_size, max_size }
    }

    /// A predicate for files of at least `size` bytes.
    pub fn min(size: u64) -> (f: SizeFilter)
        ensures
            f.lower() == Some(size),
            f.upper() is None,
    {
        SizeFilter { min_size: Some(size), max_size: None }
    }

    /// A predicate for files of at most `size` bytes.
    pub fn max(size: u64) -> (f: SizeFilter)
        ensures
            f.lower() is None,
            f.upper() == Some(size),
    {
        SizeFilter { min_size: None, max_size: Some(size) }
    }

    /// A predicate for files of `min` to `max` bytes, both included.
    pub fn range(min: u64, max: u64) -> (f: SizeFilter)
        ensures
            f.lower() == Some(min),
            f.upper() == Some(max),
    {
        SizeFilter { min_size: Some(min), max_size: Some(max) }
    }
}

impl Filter for SizeFilter {
    open spec fn spec_filter(&self, entry: EntryView) -> FilterResult {
        size_decision(self.lower(), self.upper(), entry)
    }

    fn filter(&self, entry: &FileEntry) -> (r: FilterResult) {
        if entry.kind == EntryKind::Directory {
            return FilterResult::Accept;
        }
        let size = match entry.size {
            Some(size) => size,
            None => {
                return FilterResult::Reject;
            },
        };
        if let Some(lo) = self.min_size {
            if size < lo {
                return FilterResult::Reject;
            }
        }
        if let Some(hi) = self.max_size {
            if size > hi {
                return FilterResult::Reject;
            }
        }
        FilterResult::Accept
    }
}

} // verus!
