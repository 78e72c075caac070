//! Observers: sinks for the events of a search.

use vstd::prelude::*;
use crate::text::{clone_texts, texts};

verus! {

/// The concrete kinds of observer.
#[derive(Debug, Clone, Copy, PartialEq, Eq, Structural)]
pub enum ObserverKind {
    Null,
    Silent,
    Progress,
    Tracking,
}

/// A progress line that is due: which counter reached a reporting step, the
/// count, and the path that brought it there.
#[derive(Debug, Clone)]
pub struct ProgressLine {
    pub for_files: bool,
    pub count: usize,
    pub latest: String,
}

/// The mathematical value of a `ProgressLine`.
pub struct LineView {
    pub for_files: bool,
    pub count: usize,
    pub latest: Seq<char>,
}

impl View for ProgressLine {
    type V = LineView;

    open spec fn view(&self) -> LineView {
        LineView { for_files: self.for_files, count: self.count, latest: self.latest@ }
    }
}

/// What an observer of this library has seen.
pub struct ObserverView {
    pub kind: ObserverKind,
    pub files: usize,
    pub directories: usize,
    /// The matched paths, in the order of their notifications.
    pub found: Seq<Seq<char>>,
    /// The progress lines that are due and not yet taken.
    pub lines: Seq<LineView>,
}

/// A progress line is due at every hundredth matched file.
pub const FILE_REPORT_STEP: usize = 100;

/// A progress line is due at every fiftieth entered directory.
pub const DIRECTORY_REPORT_STEP: usize = 50;

/// The counter after one more notification; it wraps at the machine's limit.
pub open spec fn next_count(n: usize) -> usize {
    if n == usize::MAX {
        0
    } else {
        (n + 1) as usize
    }
}

/// The sum of two counters, wrapping at the machine's limit.
pub open spec fn wrapping_sum(a: usize, b: usize) -> usize {
    if a + b > usize::MAX {
        (a + b - usize::MAX - 1) as usize
    } else {
        (a + b) as usize
    }
}

/// An observer's value after the notification of a matched file.
pub open spec fn observe_file(s: ObserverView, path: Seq<char>) -> ObserverView {
    match s.kind {
        ObserverKind::Null => s,
        ObserverKind::Silent => ObserverView { files: next_count(s.files), ..s },
        ObserverKind::Progress => ObserverView {
            files: next_count(s.files),
            lines: if next_count(s.files) % FILE_REPORT_STEP == 0 {
                s.lines.push(
                    LineView { for_files: true, count: next_count(s.files), latest: path },
                )
            } else {
                s.lines
            },
            ..s
        },
        ObserverKind::Tracking => ObserverView {
            files: next_count(s.files),
            found: s.found.push(path),
            ..s
        },
    }
}

/// An observer's value after the notification of an entered directory.
pub open spec fn observe_directory(s: ObserverView, path: Seq<char>) -> ObserverView {
    match s.kind {
        ObserverKind::Null => s,
        ObserverKind::Silent => ObserverView { directories: next_count(s.directories), ..s },
        ObserverKind::Progress => ObserverView {
            directories: next_count(s.directories),
            lines: if next_count(s.directories) % DIRECTORY_REPORT_STEP == 0 {
                s.lines.push(
                    LineView {
                        for_files: false,
                        count: next_count(s.directories),
                        latest: path,
                    },
                )
            } else {
                s.lines
            },
            ..s
        },
        ObserverKind::Tracking => ObserverView { directories: next_count(s.directories), ..s },
    }
}

/// A sink for the two events of a search.
pub trait SearchObserver {
    /// What the observer's state looks like to contracts.
    type State;

    spec fn state(&self) -> Self::State;

    /// The state after a matched file was notified.
    spec fn after_file(state: Self::State, path: Seq<char>) -> Self::State;

    /// The state after an entered directory was notified.
    spec fn after_directory(state: Self::State, path: Seq<char>) -> Self::State;

    /// The number of matched files that a state reports.
    spec fn files_in(state: Self::State) -> usize;

    /// The number of entered directories that a state reports.
    spec fn directories_in(state: Self::State) -> usize;

    fn file_found(&mut self, path: &str)
        ensures
            final(self).state() == Self::after_file(old(self).state(), path@),
    ;

    fn directory_processed(&mut self, path: &str)
        ensures
            final(self).state() == Self::after_directory(old(self).state(), path@),
    ;

    fn files_count(&self) -> (n: usize)
        ensures
            n == Self::files_in(self.state()),
    ;

    fn directories_count(&self) -> (n: usize)
        ensures
            n == Self::directories_in(self.state()),
    ;
}

/// The value of an observer of kind `kind` that has seen nothing.
pub open spec fn fresh(kind: ObserverKind) -> ObserverView {
    ObserverView { kind, files: 0, directories: 0, found: Seq::empty(), lines: Seq::empty() }
}

/// Sees nothing and counts nothing.
#[derive(Debug, Clone, Copy)]
pub struct NullObserver;

impl NullObserver {
    pub fn new() -> (o: NullObserver)
        ensures
            o.state() == fresh(ObserverKind::Null),
    {
        NullObserver
    }
}

impl SearchObserver for NullObserver {
    type State = ObserverView;

    open spec fn state(&self) -> ObserverView {
        fresh(ObserverKind::Null)
    }

    open spec fn after_file(state: ObserverView, path: Seq<char>) -> ObserverView {
        observe_file(state, path)
    }

    open spec fn after_directory(state: ObserverView, path: Seq<char>) -> ObserverView {
        observe_directory(state, path)
    }

    open spec fn files_in(state: ObserverView) -> usize {
        state.files
    }

    open spec fn directories_in(state: ObserverView) -> usize {
        state.directories
    }

    fn file_found(&mut self, path: &str) {
    }

    fn directory_processed(&mut self, path: &str) {
    }

    fn files_count(&self) -> (n: usize) {
        0
    }

    fn directories_count(&self) -> (n: usize) {
        0
    }
}

/// Counts both events and produces no output.
#[derive(Debug, Clone, Copy)]
pub struct SilentObserver {
    files_count: usize,
    dirs_count: usize,
}

impl SilentObserver {
    pub fn new() -> (o: SilentObserver)
        ensures
            o.state() == fresh(ObserverKind::Silent),
    {
        SilentObserver { files_count: 0, dirs_count: 0 }
    }

    /// A copy with the same counters, which from then on counts for itself.
    pub fn snapshot(&self) -> (o: SilentObserver)
        ensures
            o.state() == self.state(),
    {
        SilentObserver { files_count: self.files_count, dirs_count: self.dirs_count }
    }

    /// A silent observer is of the silent kind whatever it has seen, and holds
    /// neither paths nor lines.
    pub proof fn lemma_kind(&self)
        ensures
            self.state().kind == ObserverKind::Silent,
            self.state().found == Seq::<Seq<char>>::empty(),
            self.state().lines == Seq::<LineView>::empty(),
    {
    }
}

impl SearchObserver for SilentObserver {
    type State = ObserverView;

    closed spec fn state(&self) -> ObserverView {
        ObserverView {
            kind: ObserverKind::Silent,
            files: self.files_count,
            directories: self.dirs_count,
            found: Seq::empty(),
            lines: Seq::empty(),
        }
    }

    open spec fn after_file(state: ObserverView, path: Seq<char>) -> ObserverView {
        observe_file(state, path)
    }

    open spec fn after_directory(state: ObserverView, path: Seq<char>) -> ObserverView {
        observe_directory(state, path)
    }

    open spec fn files_in(state: ObserverView) -> usize {
        state.files
    }

    open spec fn directories_in(state: ObserverView) -> usize {
        state.directories
    }

    fn file_found(&mut self, path: &str) {
        self.files_count = self.files_count.wrapping_add(1);
    }

    fn directory_processed(&mut self, path: &str) {
        self.dirs_count = self.dirs_count.wrapping_add(1);
    }

    fn files_count(&self) -> (n: usize)
        ensures
            n == self.state().files,
            self.state().kind == ObserverKind::Silent,
    {
        self.files_count
    }

    fn directories_count(&self) -> (n: usize)
        ensures
            n == self.state().directories,
            self.state().kind == ObserverKind::Silent,
    {
        self.dirs_count
    }
}

/// The values of a list of progress lines.
pub open spec fn line_views(v: Seq<ProgressLine>) -> Seq<LineView> {
    Seq::new(v.len(), |i: int| v[i]@)
}

/// Counts both events and holds a progress line ready at every hundredth
/// file and every fiftieth directory.
#[derive(Debug)]
pub struct ProgressReporter {
    files_count: usize,
    dirs_count: usize,
    lines: Vec<ProgressLine>,
}

impl ProgressReporter {
    pub fn new() -> (o: ProgressReporter)
        ensures
            o.state() == fresh(ObserverKind::Progress),
    {
        let o = ProgressReporter { files_count: 0, dirs_count: 0, lines: Vec::new() };
        assert(line_views(o.lines@) =~= Seq::empty());
        o
    }

    /// A copy with the same counters and no line due, which from then on
    /// counts for itself.
    pub fn snapshot(&self) -> (o: ProgressReporter)
        ensures
            o.state() == (ObserverView { lines: Seq::empty(), ..self.state() }),
    {
        let o = ProgressReporter {
            files_count: self.files_count,
            dirs_count: self.dirs_count,
            lines: Vec::new(),
        };
        assert(line_views(o.lines@) =~= Seq::empty());
        o
    }

    /// The number of matched files so far.
    pub fn files_found(&self) -> (n: usize)
        ensures
            n == self.state().files,
    {
        self.files_count
    }

    /// The number of entered directories so far.
    pub fn directories_processed(&self) -> (n: usize)
        ensures
            n == self.state().directories,
    {
        self.dirs_count
    }

    /// Hands out the lines that are due, oldest first, and forgets them.
    pub fn take_lines(&mut self) -> (lines: Vec<ProgressLine>)
        ensures
            line_views(lines@) == old(self).state().lines,
            final(self).state() == (ObserverView { lines: Seq::empty(), ..old(self).state() }),
    {
        let mut lines: Vec<ProgressLine> = Vec::new();
        std::mem::swap(&mut lines, &mut self.lines);
        assert(line_views(self.lines@) =~= Seq::empty());
        lines
    }

    /// A progress reporter is of the progress kind whatever it has seen, and
    /// holds no paths.
    pub proof fn lemma_kind(&self)
        ensures
            self.state().kind == ObserverKind::Progress,
            self.state().found == Seq::<Seq<char>>::empty(),
    {
    }
}

impl SearchObserver for ProgressReporter {
    type State = ObserverView;

    closed spec fn state(&self) -> ObserverView {
        ObserverView {
            kind: ObserverKind::Progress,
            files: self.files_count,
            directories: self.dirs_count,
            found: Seq::empty(),
            lines: line_views(self.lines@),
        }
    }

    open spec fn after_file(state: ObserverView, path: Seq<char>) -> ObserverView {
        observe_file(state, path)
    }

    open spec fn after_directory(state: ObserverView, path: Seq<char>) -> ObserverView {
        observe_directory(state, path)
    }

    open spec fn files_in(state: ObserverView) -> usize {
        state.files
    }

    open spec fn directories_in(state: ObserverView) -> usize {
        state.directories
    }

    fn file_found(&mut self, path: &str) {
        let count = self.files_count.wrapping_add(1);
        self.files_count = count;
        if count % FILE_REPORT_STEP == 0 {
            self.lines.push(ProgressLine { for_files: true, count, latest: path.to_string() });
            assert(line_views(self.lines@) =~= line_views(old(self).lines@).push(
                LineView { for_files: true, count, latest: path@ },
            ));
        }
    }

    fn directory_processed(&mut self, path: &str) {
        let count = self.dirs_count.wrapping_add(1);
        self.dirs_count = count;
        if count % DIRECTORY_REPORT_STEP == 0 {
            self.lines.push(ProgressLine { for_files: false, count, latest: path.to_string() });
            assert(line_views(self.lines@) =~= line_views(old(self).lines@).push(
                LineView { for_files: false, count, latest: path@ },
            ));
        }
    }

    fn files_count(&self) -> (n: usize)
        ensures
            n == self.state().files,
            self.state().kind == ObserverKind::Progress,
    {
        self.files_count
    }

    fn directories_count(&self) -> (n: usize)
        ensures
            n == self.state().directories,
            self.state().kind == ObserverKind::Progress,
    {
        self.dirs_count
    }
}

/// Counts both events and keeps the matched paths in the order in which they
/// were notified.
#[derive(Debug)]
pub struct TrackingObserver {
    files_count: usize,
    dirs_count: usize,
    found_files: Vec<String>,
}

/// A tracking observer's file count is the length of its list, as long as
/// that length fits the machine's counter.
pub open spec fn count_matches_list(s: ObserverView) -> bool {
    s.kind == ObserverKind::Tracking && s.found.len() <= usize::MAX ==> s.files == s.found.len()
}

impl TrackingObserver {
    pub fn new() -> (o: TrackingObserver)
        ensures
            o.state() == fresh(ObserverKind::Tracking),
    {
        let o = TrackingObserver { files_count: 0, dirs_count: 0, found_files: Vec::new() };
        assert(texts(o.found_files@) =~= Seq::empty());
        o
    }

    /// The matched paths, borrowed.
    pub fn lock_found_files(&self) -> (files: &Vec<String>)
        ensures
            texts(files@) == self.state().found,
            count_matches_list(self.state()) ==> files@.len() == self.state().files,
    {
        let total = self.found_files.len();
        assert(texts(self.found_files@).len() == total);
        &self.found_files
    }

    /// The matched paths, copied.
    pub fn get_found_files(&self) -> (files: Vec<String>)
        ensures
            texts(files@) == self.state().found,
    {
        clone_texts(&self.found_files)
    }

    /// Takes over what `other` has seen: its paths behind the own ones, its
    /// counts added to the own ones.
    pub fn merge_from(&mut self, other: &TrackingObserver)
        ensures
            final(self).state() == (ObserverView {
                files: wrapping_sum(old(self).state().files, other.state().files),
                directories: wrapping_sum(old(self).state().directories, other.state().directories),
                found: old(self).state().found + other.state().found,
                ..old(self).state()
            }),
            count_matches_list(old(self).state()) && count_matches_list(other.state())
                ==> count_matches_list(final(self).state()),
    {
        let mut i: usize = 0;
        while i < other.found_files.len()
            invariant
                i <= other.found_files.len(),
                self.found_files@.len() == old(self).found_files@.len() + i,
                texts(self.found_files@) == texts(old(self).found_files@) + texts(
                    other.found_files@,
                ).take(i as int),
                self.files_count == old(self).files_count,
                self.dirs_count == old(self).dirs_count,
            decreases other.found_files.len() - i,
        {
            let ghost before = self.found_files@;
            self.found_files.push(other.found_files[i].clone());
            assert forall|k: int| 0 <= k < before.len() + 1 implies texts(self.found_files@)[k] == (
            texts(old(self).found_files@) + texts(other.found_files@).take(i + 1))[k] by {
                if k < before.len() {
                    assert(texts(before)[k] == (texts(old(self).found_files@) + texts(
                        other.found_files@,
                    ).take(i as int))[k]);
                }
            }
            assert(texts(self.found_files@) =~= texts(old(self).found_files@) + texts(
                other.found_files@,
            ).take(i + 1));
            i = i + 1;
        }
        assert(texts(other.found_files@).take(other.found_files.len() as int) == texts(
            other.found_files@,
        ));
        self.files_count = self.files_count.wrapping_add(other.files_count);
        self.dirs_count = self.dirs_count.wrapping_add(other.dirs_count);
    }

    /// A copy with the same counters and paths, which from then on counts for
    /// itself.
    pub fn snapshot(&self) -> (o: TrackingObserver)
        ensures
            o.state() == self.state(),
    {
        TrackingObserver {
            files_count: self.files_count,
            dirs_count: self.dirs_count,
            found_files: clone_texts(&self.found_files),
        }
    }

    /// A tracking observer is of the tracking kind whatever it has seen, and
    /// holds no lines.
    pub proof fn lemma_kind(&self)
        ensures
            self.state().kind == ObserverKind::Tracking,
            self.state().lines == Seq::<LineView>::empty(),
    {
    }
}

impl SearchObserver for TrackingObserver {
    type State = ObserverView;

    closed spec fn state(&self) -> ObserverView {
        ObserverView {
            kind: ObserverKind::Tracking,
            files: self.files_count,
            directories: self.dirs_count,
            found: texts(self.found_files@),
            lines: Seq::empty(),
        }
    }

    open spec fn after_file(state: ObserverView, path: Seq<char>) -> ObserverView {
        observe_file(state, path)
    }

    open spec fn after_directory(state: ObserverView, path: Seq<char>) -> ObserverView {
        observe_directory(state, path)
    }

    open spec fn files_in(state: ObserverView) -> usize {
        state.files
    }

    open spec fn directories_in(state: ObserverView) -> usize {
        state.directories
    }

    fn file_found(&mut self, path: &str) {
        self.files_count = self.files_count.wrapping_add(1);
        self.found_files.push(path.to_string());
        assert(texts(self.found_files@) =~= texts(old(self).found_files@).push(path@));
    }

    fn directory_processed(&mut self, path: &str) {
        self.dirs_count = self.dirs_count.wrapping_add(1);
    }

    fn files_count(&self) -> (n: usize)
        ensures
            n == self.state().files,
            self.state().kind == ObserverKind::Tracking,
    {
        self.files_count
    }

    fn directories_count(&self) -> (n: usize)
        ensures
            n == self.state().directories,
            self.state().kind == ObserverKind::Tracking,
    {
        self.dirs_count
    }
}

/// Any observer of this library.
#[derive(Debug)]
pub enum Observer {
    Null(NullObserver),
    Silent(SilentObserver),
    Progress(ProgressReporter),
    Tracking(TrackingObserver),
}

impl Observer {
/// The kind of the observer.
    pub fn kind(&self) -> (k: ObserverKind)
        ensures
            k == self.state().kind,
    {
        match self {
            Observer::Null(_) => ObserverKind::Null,
            Observer::Silent(_) => ObserverKind::Silent,
            Observer::Progress(_) => ObserverKind::Progress,
            Observer::Tracking(_) => ObserverKind::Tracking,
        }
    }

    /// The tracking observer inside, where this is one.
    pub fn as_tracking(&self) -> (t: Option<&TrackingObserver>)
        ensures
            t is Some <==> self.state().kind == ObserverKind::Tracking,
            t matches Some(o) ==> o.state() == self.state(),
    {
        match self {
            Observer::Tracking(o) => Some(o),
            _ => None,
        }
    }
}

impl SearchObserver for Observer {
    type State = ObserverView;

    open spec fn state(&self) -> ObserverView {
        match self {
            Observer::Null(o) => o.state(),
            Observer::Silent(o) => o.state(),
            Observer::Progress(o) => o.state(),
            Observer::Tracking(o) => o.state(),
        }
    }

    open spec fn after_file(state: ObserverView, path: Seq<char>) -> ObserverView {
        observe_file(state, path)
    }

    open spec fn after_directory(state: ObserverView, path: Seq<char>) -> ObserverView {
        observe_directory(state, path)
    }

    open spec fn files_in(state: ObserverView) -> usize {
        state.files
    }

    open spec fn directories_in(state: ObserverView) -> usize {
        state.directories
    }

    fn file_found(&mut self, path: &str) {
        match self {
            Observer::Null(o) => o.file_found(path),
            Observer::Silent(o) => o.file_found(path),
            Observer::Progress(o) => o.file_found(path),
            Observer::Tracking(o) => o.file_found(path),
        }
    }

    fn directory_processed(&mut self, path: &str) {
        match self {
            Observer::Null(o) => o.directory_processed(path),
            Observer::Silent(o) => o.directory_processed(path),
            Observer::Progress(o) => o.directory_processed(path),
            Observer::Tracking(o) => o.directory_processed(path),
        }
    }

    fn files_count(&self) -> (n: usize) {
        match self {
            Observer::Null(o) => o.files_count(),
            Observer::Silent(o) => o.files_count(),
            Observer::Progress(o) => o.files_count(),
            Observer::Tracking(o) => o.files_count(),
        }
    }

    fn directories_count(&self) -> (n: usize) {
        match self {
            Observer::Null(o) => o.directories_count(),
            Observer::Silent(o) => o.directories_count(),
            Observer::Progress(o) => o.directories_count(),
            Observer::Tracking(o) => o.directories_count(),
        }
    }
}

/// Notifications keep a tracking observer's count equal to the length of
/// its list.
pub proof fn lemma_count_follows_list(s: ObserverView, path: Seq<char>)
    requires
        count_matches_list(s),
    ensures
        count_matches_list(observe_file(s, path)),
        count_matches_list(observe_directory(s, path)),
{
}

} // verus!
