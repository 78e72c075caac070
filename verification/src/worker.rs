//! The worker pool as a state machine: two bounded queues of work, a
//! stopped flag, and the decisions of the worker loop. Whoever runs the
//! workers performs the actions that the decisions name.

use std::collections::VecDeque;
use vstd::prelude::*;
use crate::entry::{EntryView, FileEntry};

verus! {

/// A directory to be expanded, with the levels that are left below it.
#[derive(Debug)]
pub struct DirectoryWork {
    pub entry: FileEntry,
    pub remaining: Option<usize>,
}

/// One unit of work between the driver and the workers.
#[derive(Debug)]
pub enum WorkerMessage {
    /// Expand this directory.
    Directory(DirectoryWork),
    /// Test this file.
    File(FileEntry),
    /// No more work will come.
    Done,
}

/// The mathematical value of a `WorkerMessage`.
pub enum MessageView {
    Directory(EntryView, Option<usize>),
    File(EntryView),
    Done,
}

impl View for WorkerMessage {
    type V = MessageView;

    open spec fn view(&self) -> MessageView {
        match self {
            WorkerMessage::Directory(w) => MessageView::Directory(w.entry@, w.remaining),
            WorkerMessage::File(e) => MessageView::File(e@),
            WorkerMessage::Done => MessageView::Done,
        }
    }
}

/// What a worker does after one turn of its loop.
#[derive(Debug)]
pub enum WorkerAction {
    /// Expand the directory, then report the item as finished.
    ProcessDirectory(DirectoryWork),
    /// Test the file, then report the item as finished.
    ProcessFile(FileEntry),
    /// An item sat in the wrong queue and was moved to the right one.
    Forwarded,
    /// Both queues were empty: wait a moment and try again.
    Idle,
    /// Leave the loop.
    Exit,
}

/// The mathematical value of a `WorkerAction`.
pub enum ActionView {
    ProcessDirectory(EntryView, Option<usize>),
    ProcessFile(EntryView),
    Forwarded,
    Idle,
    Exit,
}

impl View for WorkerAction {
    type V = ActionView;

    open spec fn view(&self) -> ActionView {
        match self {
            WorkerAction::ProcessDirectory(w) => ActionView::ProcessDirectory(
                w.entry@,
                w.remaining,
            ),
            WorkerAction::ProcessFile(e) => ActionView::ProcessFile(e@),
            WorkerAction::Forwarded => ActionView::Forwarded,
            WorkerAction::Idle => ActionView::Idle,
            WorkerAction::Exit => ActionView::Exit,
        }
    }
}

/// How long a worker waits when both queues are empty, in milliseconds.
pub const IDLE_WAIT_MS: u64 = 100;

/// The mathematical value of a pool.
pub struct PoolView {
    /// The number of workers the pool was made for.
    pub workers: usize,
    /// The number of workers that have not left their loop.
    pub live: usize,
    /// The most work items that a queue takes from `submit_*`.
    pub capacity: usize,
    pub directories: Seq<MessageView>,
    pub files: Seq<MessageView>,
    pub stopped: bool,
    /// Work items submitted and not yet reported as finished.
    pub in_flight: usize,
}

/// `count` tokens that say that no more work will come.
pub open spec fn done_tokens(count: nat) -> Seq<MessageView> {
    Seq::new(count, |i: int| MessageView::Done)
}

/// The number of messages in `queue` that are work, not tokens.
pub open spec fn work_in(queue: Seq<MessageView>) -> nat
    decreases queue.len(),
{
    if queue.len() == 0 {
        0
    } else {
        work_in(queue.drop_last()) + if queue.last() is Done {
            0nat
        } else {
            1nat
        }
    }
}

/// The work that an action hands to the worker: one item or none.
pub open spec fn work_of(action: ActionView) -> nat {
    match action {
        ActionView::ProcessDirectory(_, _) => 1,
        ActionView::ProcessFile(_) => 1,
        _ => 0,
    }
}

/// One turn of the worker loop.
///
/// A stopped pool makes the worker leave. Otherwise the directory queue is
/// tried first, then the file queue. A work item found in its own queue is
/// handed to the worker; one found in the other queue is moved behind the
/// items of its own queue; a token is put back behind the queue it came
/// from, and the worker leaves. With both queues empty the worker idles.
pub open spec fn step(p: PoolView) -> (PoolView, ActionView) {
    if p.live == 0 {
        (p, ActionView::Exit)
    } else if p.stopped {
        (PoolView { live: (p.live - 1) as usize, ..p }, ActionView::Exit)
    } else if p.directories.len() > 0 {
        let rest = p.directories.drop_first();
        match p.directories[0] {
            MessageView::Directory(e, r) => (
                PoolView { directories: rest, ..p },
                ActionView::ProcessDirectory(e, r),
            ),
            MessageView::File(e) => (
                PoolView { directories: rest, files: p.files.push(MessageView::File(e)), ..p },
                ActionView::Forwarded,
            ),
            MessageView::Done => (
                PoolView {
                    directories: rest.push(MessageView::Done),
                    live: (p.live - 1) as usize,
                    ..p
                },
                ActionView::Exit,
            ),
        }
    } else if p.files.len() > 0 {
        let rest = p.files.drop_first();
        match p.files[0] {
            MessageView::File(e) => (PoolView { files: rest, ..p }, ActionView::ProcessFile(e)),
            MessageView::Directory(e, r) => (
                PoolView {
                    files: rest,
                    directories: p.directories.push(MessageView::Directory(e, r)),
                    ..p
                },
                ActionView::Forwarded,
            ),
            MessageView::Done => (
                PoolView { files: rest.push(MessageView::Done), live: (p.live - 1) as usize, ..p },
                ActionView::Exit,
            ),
        }
    } else {
        (p, ActionView::Idle)
    }
}

/// Whether a pool takes one more work item into a queue of length `len`.
pub open spec fn takes(p: PoolView, len: nat) -> bool {
    !p.stopped && len < p.capacity && p.in_flight < usize::MAX
}

/// A fixed set of workers around two bounded queues.
#[derive(Debug)]
pub struct WorkerPool {
    workers: usize,
    live: usize,
    capacity: usize,
    directories: VecDeque<WorkerMessage>,
    files: VecDeque<WorkerMessage>,
    stopped: bool,
    in_flight: usize,
}

/// The values of a queue of messages.
pub open spec fn message_views(queue: Seq<WorkerMessage>) -> Seq<MessageView> {
    Seq::new(queue.len(), |i: int| queue[i]@)
}

impl View for WorkerPool {
    type V = PoolView;

    closed spec fn view(&self) -> PoolView {
        PoolView {
            workers: self.workers,
            live: self.live,
            capacity: self.capacity,
            directories: message_views(self.directories@),
            files: message_views(self.files@),
            stopped: self.stopped,
            in_flight: self.in_flight,
        }
    }
}

impl WorkerPool {
    /// A pool of `workers` workers, all live, whose queues take `capacity`
    /// work items each.
    pub fn new(workers: usize, capacity: usize) -> (pool: WorkerPool)
        ensures
            pool@ == (PoolView {
                workers,
                live: workers,
                capacity,
                directories: Seq::empty(),
                files: Seq::empty(),
                stopped: false,
                in_flight: 0,
            }),
    {
        let pool = WorkerPool {
            workers,
            live: workers,
            capacity,
            directories: VecDeque::new(),
            files: VecDeque::new(),
            stopped: false,
            in_flight: 0,
        };
        assert(message_views(pool.directories@) =~= Seq::empty());
        assert(message_views(pool.files@) =~= Seq::empty());
        pool
    }

    /// Puts a directory behind the directory queue. Refuses, and changes
    /// nothing, where the pool is stopped or the queue is full.
    pub fn submit_directory(&mut self, work: DirectoryWork) -> (queued: bool)
        ensures
            queued == takes(old(self)@, old(self)@.directories.len()),
            queued ==> final(self)@ == (PoolView {
                directories: old(self)@.directories.push(
                    MessageView::Directory(work.entry@, work.remaining),
                ),
                in_flight: (old(self)@.in_flight + 1) as usize,
                ..old(self)@
            }),
            !queued ==> final(self)@ == old(self)@,
    {
        if self.stopped || self.directories.len() >= self.capacity || self.in_flight
            == usize::MAX {
            return false;
        }
        self.directories.push_back(WorkerMessage::Directory(work));
        self.in_flight = self.in_flight + 1;
        assert(message_views(self.directories@) =~= message_views(old(self).directories@).push(
            MessageView::Directory(work.entry@, work.remaining),
        ));
        true
    }

    /// Puts a file behind the file queue. Refuses, and changes nothing,
    /// where the pool is stopped or the queue is full.
    pub fn submit_file(&mut self, entry: FileEntry) -> (queued: bool)
        ensures
            queued == takes(old(self)@, old(self)@.files.len()),
            queued ==> final(self)@ == (PoolView {
                files: old(self)@.files.push(MessageView::File(entry@)),
                in_flight: (old(self)@.in_flight + 1) as usize,
                ..old(self)@
            }),
            !queued ==> final(self)@ == old(self)@,
    {
        if self.stopped || self.files.len() >= self.capacity || self.in_flight == usize::MAX {
            return false;
        }
        self.files.push_back(WorkerMessage::File(entry));
        self.in_flight = self.in_flight + 1;
        assert(message_views(self.files@) =~= message_views(old(self).files@).push(
            MessageView::File(entry@),
        ));
        true
    }

    /// Reports one work item as finished.
    pub fn finish_item(&mut self)
        ensures
            final(self)@ == (PoolView {
                in_flight: if old(self)@.in_flight > 0 {
                    (old(self)@.in_flight - 1) as usize
                } else {
                    0
                },
                ..old(self)@
            }),
    {
        if self.in_flight > 0 {
            self.in_flight = self.in_flight - 1;
        }
    }

    /// Broadcasts the end of work: one token for every worker behind each
    /// queue.
    pub fn complete(&mut self)
        ensures
            final(self)@ == (PoolView {
                directories: old(self)@.directories + done_tokens(old(self)@.workers as nat),
                files: old(self)@.files + done_tokens(old(self)@.workers as nat),
                ..old(self)@
            }),
    {
        let mut i: usize = 0;
        while i < self.workers
            invariant
                i <= self.workers,
                self.workers == old(self).workers,
                self.live == old(self).live,
                self.capacity == old(self).capacity,
                self.stopped == old(self).stopped,
                self.in_flight == old(self).in_flight,
                message_views(self.directories@) == message_views(old(self).directories@)
                    + done_tokens(i as nat),
                message_views(self.files@) == message_views(old(self).files@) + done_tokens(
                    i as nat,
                ),
            decreases self.workers - i,
        {
            let ghost d = self.directories@;
            let ghost f = self.files@;
            self.directories.push_back(WorkerMessage::Done);
            self.files.push_back(WorkerMessage::Done);
            assert(message_views(self.directories@) =~= message_views(d).push(MessageView::Done));
            assert(message_views(self.files@) =~= message_views(f).push(MessageView::Done));
            assert(done_tokens((i + 1) as nat) =~= done_tokens(i as nat).push(MessageView::Done));
            assert(message_views(self.directories@) =~= message_views(old(self).directories@)
                + done_tokens((i + 1) as nat));
            assert(message_views(self.files@) =~= message_views(old(self).files@) + done_tokens(
                (i + 1) as nat,
            ));
            i = i + 1;
        }
        assert(done_tokens(0nat) =~= Seq::empty());
    }

    /// One turn of a worker's loop: changes the pool and says what the
    /// worker does next.
    pub fn worker_step(&mut self) -> (action: WorkerAction)
        ensures
            (final(self)@, action@) == step(old(self)@),
    {
        if self.live == 0 {
            return WorkerAction::Exit;
        }
        if self.stopped {
            self.live = self.live - 1;
            return WorkerAction::Exit;
        }
        let ghost d = self.directories@;
        let ghost f = self.files@;
        match self.directories.pop_front() {
            Some(message) => {
                assert(message_views(self.directories@) =~= message_views(d).drop_first());
                assert(message_views(d)[0] == message@);
                match message {
                    WorkerMessage::Directory(work) => WorkerAction::ProcessDirectory(work),
                    WorkerMessage::File(entry) => {
                        self.files.push_back(WorkerMessage::File(entry));
                        assert(message_views(self.files@) =~= message_views(f).push(
                            MessageView::File(entry@),
                        ));
                        WorkerAction::Forwarded
                    },
                    WorkerMessage::Done => {
                        let ghost rest = self.directories@;
                        self.directories.push_back(WorkerMessage::Done);
                        assert(message_views(self.directories@) =~= message_views(rest).push(
                            MessageView::Done,
                        ));
                        self.live = self.live - 1;
                        WorkerAction::Exit
                    },
                }
            },
            None => {
                assert(message_views(d).len() == 0);
                match self.files.pop_front() {
                    Some(message) => {
                        assert(message_views(self.files@) =~= message_views(f).drop_first());
                        assert(message_views(f)[0] == message@);
                        match message {
                            WorkerMessage::File(entry) => WorkerAction::ProcessFile(entry),
                            WorkerMessage::Directory(work) => {
                                self.directories.push_back(WorkerMessage::Directory(work));
                                assert(message_views(self.directories@) =~= message_views(d).push(
                                    MessageView::Directory(work.entry@, work.remaining),
                                ));
                                WorkerAction::Forwarded
                            },
                            WorkerMessage::Done => {
                                let ghost rest = self.files@;
                                self.files.push_back(WorkerMessage::Done);
                                assert(message_views(self.files@) =~= message_views(rest).push(
                                    MessageView::Done,
                                ));
                                self.live = self.live - 1;
                                WorkerAction::Exit
                            },
                        }
                    },
                    None => {
                        assert(message_views(f).len() == 0);
                        WorkerAction::Idle
                    },
                }
            },
        }
    }

    /// Stops the pool: from now on nothing is taken in and every worker
    /// leaves at its next turn. The tokens are broadcast as well.
    pub fn request_stop(&mut self)
        ensures
            final(self)@ == (PoolView {
                stopped: true,
                directories: old(self)@.directories + done_tokens(old(self)@.workers as nat),
                files: old(self)@.files + done_tokens(old(self)@.workers as nat),
                ..old(self)@
            }),
    {
        self.stopped = true;
        self.complete();
    }

    /// Stops the pool and takes every worker that is still live through its
    /// last turn. Afterwards no worker is live.
    pub fn join(&mut self)
        ensures
            final(self)@ == (PoolView {
                stopped: true,
                live: 0,
                directories: old(self)@.directories + done_tokens(old(self)@.workers as nat),
                files: old(self)@.files + done_tokens(old(self)@.workers as nat),
                ..old(self)@
            }),
    {
        self.request_stop();
        let ghost stopped = self@;
        while self.live > 0
            invariant
                self@ == (PoolView { live: self@.live, ..stopped }),
                stopped.stopped,
            decreases self.live,
        {
            let _ = self.worker_step();
        }
    }

    /// Stops the pool and discards what is still queued. Returns the number
    /// of work items that were discarded from the directory queue and from
    /// the file queue.
    pub fn drain(&mut self) -> (discarded: (usize, usize))
        ensures
            final(self)@ == (PoolView {
                stopped: true,
                directories: Seq::empty(),
                files: Seq::empty(),
                in_flight: 0,
                ..old(self)@
            }),
            discarded.0 == work_in(old(self)@.directories),
            discarded.1 == work_in(old(self)@.files),
    {
        self.stopped = true;
        self.in_flight = 0;
        let mut discarded: usize = 0;
        let ghost d = self.directories@;
        let n = self.directories.len();
        let m = self.files.len();
        let mut i: usize = n;
        assert(d.take(n as int) =~= d);
        while i > 0
            invariant
                i <= n,
                n == d.len(),
                self.directories@ == d.take(i as int),
                self.files@ == old(self).files@,
                self.workers == old(self).workers,
                self.live == old(self).live,
                self.capacity == old(self).capacity,
                self.stopped,
                self.in_flight == 0,
                discarded + work_in(message_views(d.take(i as int))) == work_in(message_views(d)),
                discarded <= n - i,
            decreases i,
        {
            let message = self.directories.pop_back();
            assert(message_views(d.take(i as int)).drop_last() =~= message_views(
                d.take(i - 1),
            ));
            assert(message_views(d.take(i as int)).last() == d[i - 1]@);
            assert(d.take(i as int).drop_last() =~= d.take(i - 1));
            match message {
                Some(WorkerMessage::Done) => {},
                Some(_) => {
                    discarded = discarded + 1;
                },
                None => {},
            }
            i = i - 1;
        }
        let ghost f = self.files@;
        let first = discarded;
        let mut discarded: usize = 0;
        let mut j: usize = m;
        assert(f.take(m as int) =~= f);
        while j > 0
            invariant
                j <= m,
                m == f.len(),
                self.files@ == f.take(j as int),
                self.directories@.len() == 0,
                self.workers == old(self).workers,
                self.live == old(self).live,
                self.capacity == old(self).capacity,
                self.stopped,
                self.in_flight == 0,
                discarded + work_in(message_views(f.take(j as int))) == work_in(message_views(f)),
                discarded <= m - j,
            decreases j,
        {
            let message = self.files.pop_back();
            assert(message_views(f.take(j as int)).drop_last() =~= message_views(f.take(j - 1)));
            assert(message_views(f.take(j as int)).last() == f[j - 1]@);
            assert(f.take(j as int).drop_last() =~= f.take(j - 1));
            match message {
                Some(WorkerMessage::Done) => {},
                Some(_) => {
                    discarded = discarded + 1;
                },
                None => {},
            }
            j = j - 1;
        }
        assert(message_views(self.directories@) =~= Seq::empty());
        assert(message_views(self.files@) =~= Seq::empty());
        assert(message_views(d.take(0)) =~= Seq::empty());
        assert(message_views(f.take(0)) =~= Seq::empty());
        (first, discarded)
    }

    /// The number of workers that have not left their loop.
    pub fn live_workers(&self) -> (n: usize)
        ensures
            n == self@.live,
    {
        self.live
    }

    /// Whether no work is queued or being worked on.
    pub fn is_idle(&self) -> (r: bool)
        ensures
            r == (self@.in_flight == 0),
    {
        self.in_flight == 0
    }

/// Whether the pool was stopped.
    pub fn is_stopped(&self) -> (r: bool)
        ensures
            r == self@.stopped,
    {
        self.stopped
    }
}

/// What a message counts as work: one for a directory or a file, nothing
/// for a token.
pub open spec fn work_of_message(m: MessageView) -> nat {
    if m is Done {
        0
    } else {
        1
    }
}

/// A message behind a queue adds its own work.
pub proof fn lemma_work_in_push(queue: Seq<MessageView>, m: MessageView)
    ensures
        work_in(queue.push(m)) == work_in(queue) + work_of_message(m),
{
    assert(queue.push(m).drop_last() =~= queue);
}

/// A queue holds the work of its first message and of the rest.
pub proof fn lemma_work_in_drop_first(queue: Seq<MessageView>)
    requires
        queue.len() > 0,
    ensures
        work_in(queue) == work_in(queue.drop_first()) + work_of_message(queue[0]),
    decreases queue.len(),
{
    if queue.len() == 1 {
        assert(queue.drop_first() =~= Seq::empty());
        assert(queue.drop_last() =~= Seq::empty());
    } else {
        lemma_work_in_drop_first(queue.drop_last());
        assert(queue.drop_last().drop_first() =~= queue.drop_first().drop_last());
    }
}

/// A turn of the worker loop never loses work: what was queued before is
/// queued afterwards or is in the worker's hands.
pub proof fn lemma_step_keeps_work(p: PoolView)
    ensures
        work_in(step(p).0.directories) + work_in(step(p).0.files) + work_of(step(p).1) == work_in(
            p.directories,
        ) + work_in(p.files),
{
    if p.live == 0 || p.stopped {
    } else if p.directories.len() > 0 {
        let rest = p.directories.drop_first();
        lemma_work_in_drop_first(p.directories);
        lemma_work_in_push(p.files, p.directories[0]);
        lemma_work_in_push(rest, MessageView::Done);
    } else if p.files.len() > 0 {
        let rest = p.files.drop_first();
        lemma_work_in_drop_first(p.files);
        lemma_work_in_push(p.directories, p.files[0]);
        lemma_work_in_push(rest, MessageView::Done);
    }
}

/// A turn of the worker loop never adds a live worker, and a stopped pool
/// loses one at every turn until none is left.
pub proof fn lemma_step_winds_down(p: PoolView)
    ensures
        step(p).0.live <= p.live,
        step(p).0.stopped == p.stopped,
        p.stopped && p.live > 0 ==> step(p).0.live == p.live - 1 && step(p).1 is Exit,
        step(p).1 is Exit <==> p.live == 0 || step(p).0.live < p.live,
{
}

} // verus!
