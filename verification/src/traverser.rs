//! A breadth-first traversal that yields every path it is shown, unless an
//! exclude pattern occurs in it, and never lists a directory twice.

use std::collections::VecDeque;
use vstd::prelude::*;
use crate::entry::{EntryKind, EntryView, FileEntry};
use crate::text::{contains, contains_text, holds_text, texts, to_chars};
use crate::walk::views;

verus! {

/// How a traversal goes.
#[derive(Debug, Clone)]
pub struct TraverserConfig {
    /// Levels below the root whose directories are listed; unbounded where
    /// absent.
    pub max_depth: Option<usize>,
    pub follow_symlinks: bool,
    /// A path that holds one of these texts is left out.
    pub exclude_patterns: Vec<String>,
}

/// What a traversal reports in place of a path.
#[derive(Debug)]
pub enum TraverserError {
    Io(String),
    PermissionDenied(String),
    InvalidPath(String),
    ChannelClosed,
    MaxDepthReached(String),
}

/// Why a listing failed.
#[derive(Debug, Clone, Copy, PartialEq, Eq, Structural)]
pub enum ListingFailure {
    PermissionDenied,
    OtherIo,
    NotIo,
}

/// A directory that waits to be listed, with its depth below the root.
#[derive(Debug)]
pub struct Pending {
    pub path: String,
    pub depth: usize,
}

/// The paths and depths of a queue of directories.
pub open spec fn pending_views(queue: Seq<Pending>) -> Seq<(Seq<char>, usize)> {
    Seq::new(queue.len(), |i: int| (queue[i].path@, queue[i].depth))
}

/// No text of `patterns` occurs in `path`, looking at the patterns from
/// index `from` on.
pub open spec fn none_occurs(path: Seq<char>, patterns: Seq<Seq<char>>, from: int) -> bool
    decreases patterns.len() - from,
{
    if 0 <= from < patterns.len() {
        !contains_text(path, patterns[from]) && none_occurs(path, patterns, from + 1)
    } else {
        true
    }
}

/// The first `n` entries of `listing` that are yielded: those in whose path
/// no pattern occurs.
pub open spec fn yielded(listing: Seq<EntryView>, patterns: Seq<Seq<char>>, n: int) -> Seq<
    Seq<char>,
>
    decreases n,
{
    if n <= 0 || n > listing.len() {
        Seq::empty()
    } else if none_occurs(listing[n - 1].path, patterns, 0) {
        yielded(listing, patterns, n - 1).push(listing[n - 1].path)
    } else {
        yielded(listing, patterns, n - 1)
    }
}

/// Whether the yielded entry `e` of a directory at depth `depth` is queued
/// for listing: it is a directory, a level is left, and it is not reached
/// through a link unless links are followed.
pub open spec fn is_queued(e: EntryView, depth: usize, max_depth: Option<usize>, follows: bool) -> bool {
    e.kind == EntryKind::Directory && (follows || !e.via_link) && depth < usize::MAX && (
    max_depth matches Some(d) ==> depth < d)
}

/// The queue after the first `n` entries of the listing of a directory at
/// depth `depth` were looked at.
pub open spec fn queued(
    listing: Seq<EntryView>,
    patterns: Seq<Seq<char>>,
    depth: usize,
    max_depth: Option<usize>,
    follows: bool,
    queue: Seq<(Seq<char>, usize)>,
    n: int,
) -> Seq<(Seq<char>, usize)>
    decreases n,
{
    if n <= 0 || n > listing.len() {
        queue
    } else {
        let before = queued(listing, patterns, depth, max_depth, follows, queue, n - 1);
        if none_occurs(listing[n - 1].path, patterns, 0) && is_queued(
            listing[n - 1],
            depth,
            max_depth,
            follows,
        ) {
            before.push((listing[n - 1].path, (depth + 1) as usize))
        } else {
            before
        }
    }
}

/// The index of the first directory of `queue`, from `from` on, whose path
/// is not among `visited`; the length of the queue where there is none.
pub open spec fn first_unvisited(
    queue: Seq<(Seq<char>, usize)>,
    visited: Seq<Seq<char>>,
    from: int,
) -> int
    decreases queue.len() - from,
{
    if 0 <= from < queue.len() {
        if visited.contains(queue[from].0) {
            first_unvisited(queue, visited, from + 1)
        } else {
            from
        }
    } else {
        queue.len() as int
    }
}

/// The state of a traversal.
#[derive(Debug)]
pub struct Traverser {
    pub config: TraverserConfig,
    pub queue: VecDeque<Pending>,
    pub visited: Vec<String>,
}

impl Traverser {
    /// A traversal that starts at `root`.
    pub fn new(root: &str, config: TraverserConfig) -> (t: Traverser)
        ensures
            t.config == config,
            pending_views(t.queue@) == seq![(root@, 0usize)],
            t.visited@.len() == 0,
    {
        let mut queue: VecDeque<Pending> = VecDeque::new();
        queue.push_back(Pending { path: root.to_string(), depth: 0 });
        assert(pending_views(queue@) =~= seq![(root@, 0usize)]);
        Traverser { config, queue, visited: Vec::new() }
    }

    /// Whether `path` is yielded: no exclude pattern occurs in it.
    pub fn should_include(path: &str, config: &TraverserConfig) -> (r: bool)
        ensures
            r == none_occurs(path@, texts(config.exclude_patterns@), 0),
    {
        let text = to_chars(path);
        let mut i: usize = 0;
        while i < config.exclude_patterns.len()
            invariant
                i <= config.exclude_patterns.len(),
                text@ == path@,
                none_occurs(path@, texts(config.exclude_patterns@), 0) == none_occurs(
                    path@,
                    texts(config.exclude_patterns@),
                    i as int,
                ),
            decreases config.exclude_patterns.len() - i,
        {
            let pattern = to_chars(config.exclude_patterns[i].as_str());
            assert(texts(config.exclude_patterns@)[i as int] == pattern@);
            if contains(&text, &pattern) {
                return false;
            }
            i = i + 1;
        }
        true
    }

    /// The next directory to list: the first one in the queue that was not
    /// listed before. It and everything in front of it leave the queue, and
    /// it counts as visited. `None` where the queue holds no such
    /// directory; the queue is then empty and the traversal is over.
    pub fn next_directory(&mut self) -> (next: Option<Pending>)
        ensures
            final(self).config == old(self).config,
            ({
                let queue = pending_views(old(self).queue@);
                let k = first_unvisited(queue, texts(old(self).visited@), 0);
                if k < queue.len() {
                    &&& next is Some
                    &&& (next->0.path@, next->0.depth) == queue[k]
                    &&& pending_views(final(self).queue@) == queue.skip(k + 1)
                    &&& texts(final(self).visited@) == texts(old(self).visited@).push(queue[k].0)
                } else {
                    &&& next is None
                    &&& final(self).queue@.len() == 0
                    &&& final(self).visited == old(self).visited
                }
            }),
    {
        let ghost queue = pending_views(self.queue@);
        let ghost visited = texts(self.visited@);
        let ghost mut dropped: int = 0;
        assert(queue.skip(0) =~= queue);
        loop
            invariant
                self.config == old(self).config,
                self.visited == old(self).visited,
                visited == texts(old(self).visited@),
                queue == pending_views(old(self).queue@),
                0 <= dropped <= queue.len(),
                pending_views(self.queue@) == queue.skip(dropped),
                first_unvisited(queue, visited, 0) == first_unvisited(queue, visited, dropped),
            decreases queue.len() - dropped,
        {
            let ghost held = self.queue@;
            match self.queue.pop_front() {
                None => {
                    assert(pending_views(held).len() == 0);
                    return None;
                },
                Some(pending) => {
                    assert(pending_views(held).len() == held.len());
                    assert(pending_views(held)[0] == (pending.path@, pending.depth));
                    assert(dropped < queue.len());
                    assert(queue.skip(dropped)[0] == queue[dropped]);
                    assert(pending_views(self.queue@) =~= pending_views(held).drop_first());
                    assert(queue.skip(dropped).drop_first() =~= queue.skip(dropped + 1));
                    if !holds_text(&self.visited, &pending.path) {
                        let ghost before = self.visited@;
                        self.visited.push(pending.path.clone());
                        assert(texts(self.visited@) =~= texts(before).push(pending.path@));
                        return Some(pending);
                    }
                    proof {
                        dropped = dropped + 1;
                    }
                },
            }
        }
    }

    /// Takes the listing of the directory `of`: hands back the paths to
    /// yield, in order, and queues the directories among them that are to
    /// be listed in their turn.
    pub fn accept(&mut self, of: &Pending, listing: &Vec<FileEntry>) -> (paths: Vec<String>)
        ensures
            final(self).config == old(self).config,
            final(self).visited == old(self).visited,
            texts(paths@) == yielded(
                views(listing@),
                texts(old(self).config.exclude_patterns@),
                listing@.len() as int,
            ),
            pending_views(final(self).queue@) == queued(
                views(listing@),
                texts(old(self).config.exclude_patterns@),
                of.depth,
                old(self).config.max_depth,
                old(self).config.follow_symlinks,
                pending_views(old(self).queue@),
                listing@.len() as int,
            ),
    {
        let mut paths: Vec<String> = Vec::new();
        assert(texts(paths@) =~= Seq::empty());
        let mut i: usize = 0;
        while i < listing.len()
            invariant
                i <= listing.len(),
                self.config == old(self).config,
                self.visited == old(self).visited,
                texts(paths@) == yielded(
                    views(listing@),
                    texts(self.config.exclude_patterns@),
                    i as int,
                ),
                pending_views(self.queue@) == queued(
                    views(listing@),
                    texts(self.config.exclude_patterns@),
                    of.depth,
                    self.config.max_depth,
                    self.config.follow_symlinks,
                    pending_views(old(self).queue@),
                    i as int,
                ),
            decreases listing.len() - i,
        {
            let e = &listing[i];
            assert(views(listing@)[i as int] == e@);
            if Traverser::should_include(e.path.as_str(), &self.config) {
                let ghost before = paths@;
                paths.push(e.path.clone());
                assert(texts(paths@) =~= texts(before).push(e@.path));
                let level_left = match self.config.max_depth {
                    Some(d) => of.depth < d,
                    None => true,
                };
                if e.kind == EntryKind::Directory && (self.config.follow_symlinks || !e.via_link)
                    && of.depth < usize::MAX && level_left {
                    let ghost held = self.queue@;
                    self.queue.push_back(Pending { path: e.path.clone(), depth: of.depth + 1 });
                    assert(pending_views(self.queue@) =~= pending_views(held).push(
                        (e@.path, (of.depth + 1) as usize),
                    ));
                }
            }
            i = i + 1;
        }
        paths
    }

    /// What is reported for a directory that could not be listed.
    pub fn failure(path: &str, failure: ListingFailure) -> (e: TraverserError)
        ensures
            match failure {
                ListingFailure::PermissionDenied => e is PermissionDenied
                    && e->PermissionDenied_0@ == path@,
                ListingFailure::OtherIo => e is Io && e->Io_0@ == path@,
                ListingFailure::NotIo => e is InvalidPath && e->InvalidPath_0@ == path@,
            },
    {
        match failure {
            ListingFailure::PermissionDenied => TraverserError::PermissionDenied(
                path.to_string(),
            ),
            ListingFailure::OtherIo => TraverserError::Io(path.to_string()),
            ListingFailure::NotIo => TraverserError::InvalidPath(path.to_string()),
        }
    }

    /// Whether the traversal is over.
    pub fn is_finished(&self) -> (r: bool)
        ensures
            r == (self.queue@.len() == 0),
    {
        self.queue.len() == 0
    }
}

} // verus!
