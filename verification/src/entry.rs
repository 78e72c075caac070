//! What the search knows of one file-system entry, and snapshots of
//! directory trees.

use vstd::prelude::*;
use crate::text::{distinct, extension_of, file_name_of, holds_text, texts};

verus! {

/// What an entry is, as its directory lists it.
#[derive(Clone, Copy, Debug, PartialEq, Eq, Structural)]
pub enum EntryKind {
    File,
    Directory,
    /// A symbolic link that could not be resolved.
    Symlink,
    Other,
}

/// One entry of a directory, with the metadata that predicates read.
///
/// An entry reached through a symbolic link carries the path, kind and
/// metadata of the link's target, and `via_link` set.
#[derive(Clone, Debug)]
pub struct FileEntry {
    pub path: String,
    pub kind: EntryKind,
    pub via_link: bool,
    /// Size in bytes; `None` where the metadata could not be read.
    pub size: Option<u64>,
    /// Modification time in seconds since the epoch; `None` where it could
    /// not be read.
    pub modified: Option<i64>,
    /// The platform's own hidden attribute.
    pub hidden_attribute: bool,
    /// The canonical path; `None` where canonicalization failed.
    pub canonical: Option<String>,
}

/// The mathematical value of a `FileEntry`.
pub struct EntryView {
    pub path: Seq<char>,
    pub kind: EntryKind,
    pub via_link: bool,
    pub size: Option<u64>,
    pub modified: Option<i64>,
    pub hidden_attribute: bool,
    pub canonical: Option<Seq<char>>,
}

impl EntryView {
    /// The value of a plain directory at `path`.
    pub open spec fn directory(path: Seq<char>) -> EntryView {
        EntryView {
            path,
            kind: EntryKind::Directory,
            via_link: false,
            size: None,
            modified: None,
            hidden_attribute: false,
            canonical: None,
        }
    }

    /// The value of a regular file at `path`.
    pub open spec fn file(path: Seq<char>, size: u64, modified: i64) -> EntryView {
        EntryView {
            path,
            kind: EntryKind::File,
            via_link: false,
            size: Some(size),
            modified: Some(modified),
            hidden_attribute: false,
            canonical: None,
        }
    }

    /// The terminal component of the entry's path.
    pub open spec fn name(self) -> Seq<char> {
        file_name_of(self.path)
    }

    /// The extension of the terminal component.
    pub open spec fn extension(self) -> Option<Seq<char>> {
        extension_of(self.name())
    }

/// Whether the entry is a directory.
    pub open spec fn is_dir(self) -> bool {
        self.kind == EntryKind::Directory
    }

/// Whether the entry is a regular file.
    pub open spec fn is_file(self) -> bool {
        self.kind == EntryKind::File
    }

    /// The text by which two entries count as the same file: the canonical
    /// path, the literal path where there is none.
    pub open spec fn key(self) -> Seq<char> {
        match self.canonical {
            Some(c) => c,
            None => self.path,
        }
    }
}

impl View for FileEntry {
    type V = EntryView;

    open spec fn view(&self) -> EntryView {
        EntryView {
            path: self.path@,
            kind: self.kind,
            via_link: self.via_link,
            size: self.size,
            modified: self.modified,
            hidden_attribute: self.hidden_attribute,
            canonical: match self.canonical {
                Some(c) => Some(c@),
                None => None,
            },
        }
    }
}

impl FileEntry {
    /// A regular file at `path` with the given size and modification time.
    pub fn file(path: &str, size: u64, modified: i64) -> (e: FileEntry)
        ensures
            e@ == EntryView::file(path@, size, modified),
    {
        FileEntry {
            path: path.to_string(),
            kind: EntryKind::File,
            via_link: false,
            size: Some(size),
            modified: Some(modified),
            hidden_attribute: false,
            canonical: None,
        }
    }

    /// A directory at `path`.
    pub fn directory(path: &str) -> (e: FileEntry)
        ensures
            e@ == EntryView::directory(path@),
    {
        FileEntry {
            path: path.to_string(),
            kind: EntryKind::Directory,
            via_link: false,
            size: None,
            modified: None,
            hidden_attribute: false,
            canonical: None,
        }
    }

    /// The same entry, known under the canonical path `canonical`.
    pub fn with_canonical(self, canonical: &str) -> (e: FileEntry)
        ensures
            e@ == (EntryView { canonical: Some(canonical@), ..self@ }),
    {
        let mut e = self;
        e.canonical = Some(canonical.to_string());
        e
    }

    /// The same entry, marked as reached through a symbolic link.
    pub fn through_link(self) -> (e: FileEntry)
        ensures
            e@ == (EntryView { via_link: true, ..self@ }),
    {
        let mut e = self;
        e.via_link = true;
        e
    }

    /// The text by which the entry is told from others.
    pub fn key(&self) -> (k: String)
        ensures
            k@ == self@.key(),
    {
        match &self.canonical {
            Some(c) => c.clone(),
            None => self.path.clone(),
        }
    }

    /// A copy of the entry.
    pub fn duplicate(&self) -> (e: FileEntry)
        ensures
            e@ == self@,
    {
        FileEntry {
            path: self.path.clone(),
            kind: self.kind,
            via_link: self.via_link,
            size: self.size,
            modified: self.modified,
            hidden_attribute: self.hidden_attribute,
            canonical: match &self.canonical {
                Some(c) => Some(c.clone()),
                None => None,
            },
        }
    }
}

/// A snapshot of a directory tree: an entry, whether its listing could be
/// read, and what it listed.
#[derive(Debug)]
pub struct DirNode {
    pub entry: FileEntry,
    /// `false` for a directory whose listing was refused.
    pub readable: bool,
    pub children: Vec<DirNode>,
}

impl DirNode {
    /// A leaf holding `entry`.
    pub fn leaf(entry: FileEntry) -> (n: DirNode)
        ensures
            n.entry@ == entry@,
            n.readable,
            n.children@.len() == 0,
    {
        DirNode { entry, readable: true, children: Vec::new() }
    }

    /// A readable directory at `path` that lists `children`.
    pub fn dir(path: &str, children: Vec<DirNode>) -> (n: DirNode)
        ensures
            n.entry@ == EntryView::directory(path@),
            n.readable,
            n.children == children,
    {
        DirNode { entry: FileEntry::directory(path), readable: true, children }
    }

    /// A directory at `path` whose listing cannot be read.
    pub fn unreadable(path: &str) -> (n: DirNode)
        ensures
            n.entry@ == EntryView::directory(path@),
            !n.readable,
            n.children@.len() == 0,
    {
        DirNode { entry: FileEntry::directory(path), readable: false, children: Vec::new() }
    }
}

/// What a snapshot does with an entry that it comes upon.
#[derive(Debug, Clone, Copy, PartialEq, Eq, Structural)]
pub enum SnapshotStep {
    /// A directory whose listing is read now.
    Read,
    /// An entry that is kept without a listing: no directory, or a directory
    /// behind a link that is not followed or leads nowhere.
    Keep,
    /// A directory whose listing the snapshot already holds: it is left out,
    /// so that a search meets the directory once.
    Leave,
}

/// The directories that were read for a snapshot, by key. It sees to it
/// that a snapshot holds a directory once, however many links lead to it.
#[derive(Debug)]
pub struct ReadDirectories {
    keys: Vec<String>,
}

/// Whether `entry` is a directory whose listing a snapshot would read if it
/// had not read it before: where it was reached through a link, links are
/// followed and its canonical path is known.
pub open spec fn is_listed(entry: EntryView, follows_links: bool) -> bool {
    &&& entry.kind == EntryKind::Directory
    &&& entry.via_link ==> follows_links && entry.canonical is Some
}

/// What a snapshot that has read the directories `read` does with `entry`.
pub open spec fn snapshot_step(entry: EntryView, follows_links: bool, read: Seq<Seq<char>>) -> SnapshotStep {
    if !is_listed(entry, follows_links) {
        SnapshotStep::Keep
    } else if read.contains(entry.key()) {
        SnapshotStep::Leave
    } else {
        SnapshotStep::Read
    }
}

impl ReadDirectories {
    /// The keys of the directories read so far, in the order of reading.
    pub closed spec fn keys(&self) -> Seq<Seq<char>> {
        texts(self.keys@)
    }

    /// Nothing read yet.
    pub fn new() -> (r: ReadDirectories)
        ensures
            r.keys().len() == 0,
    {
        ReadDirectories { keys: Vec::new() }
    }

    /// Decides what the snapshot does with `entry`, and remembers the
    /// directory if its listing is read.
    pub fn take_up(&mut self, entry: &FileEntry, follows_links: bool) -> (step: SnapshotStep)
        ensures
            step == snapshot_step(entry@, follows_links, old(self).keys()),
            final(self).keys() == if step is Read {
                old(self).keys().push(entry@.key())
            } else {
                old(self).keys()
            },
            distinct(old(self).keys()) ==> distinct(final(self).keys()),
    {
        if entry.kind != EntryKind::Directory {
            return SnapshotStep::Keep;
        }
        if entry.via_link && !(follows_links && entry.canonical.is_some()) {
            return SnapshotStep::Keep;
        }
        let key = entry.key();
        if holds_text(&self.keys, &key) {
            return SnapshotStep::Leave;
        }
        let ghost before = self.keys@;
        self.keys.push(key);
        assert(texts(self.keys@) =~= texts(before).push(entry@.key()));
        proof {
            if distinct(texts(before)) {
                let after = texts(self.keys@);
                assert forall|i: int, j: int| 0 <= i < j < after.len() implies after[i]
                    != after[j] by {
                    if j == before.len() {
                        assert(texts(before).contains(texts(before)[i]));
                    }
                }
            }
        }
        SnapshotStep::Read
    }
}

impl DirNode {
    /// The node that a snapshot holds for `entry` after the step `step`,
    /// where `listing` is what the directory listed, or nothing where it
    /// was not read or could not be read: no node for a directory that is
    /// left out, a leaf for an entry that is kept, and for a directory that
    /// is read a node with its listing, or an unreadable one.
    pub fn placed(step: SnapshotStep, entry: FileEntry, listing: Option<Vec<DirNode>>) -> (n: Option<
        DirNode,
    >)
        ensures
            n is None <==> step is Leave,
            n matches Some(node) ==> node.entry == entry && match step {
                SnapshotStep::Read => listing matches Some(children) ==> node.readable
                    && node.children == children,
                _ => node.readable && node.children@.len() == 0,
            },
            n matches Some(node) ==> (step is Read && listing is None ==> !node.readable
                && node.children@.len() == 0),
    {
        match step {
            SnapshotStep::Leave => None,
            SnapshotStep::Keep => Some(DirNode { entry, readable: true, children: Vec::new() }),
            SnapshotStep::Read => match listing {
                Some(children) => Some(DirNode { entry, readable: true, children }),
                None => Some(DirNode { entry, readable: false, children: Vec::new() }),
            },
        }
    }
}

} // verus!
