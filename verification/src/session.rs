//! One search that reads directories as it goes: the handlers that a
//! worker pool runs for directory work and for file work.

use vstd::prelude::*;
use crate::entry::{EntryKind, EntryView, FileEntry};
use crate::finder::{paths, results_in, FileFinder, FinderError, FinderRules};
use crate::observer::{ObserverKind, SearchObserver};
use crate::registry::{all_observe_directory, all_observe_file, lemma_first_of_kind};
use crate::seen::{held, holds_key, new_map, put};
use crate::text::{distinct, holds_text, texts};
use crate::walk::{keys_of, lemma_new_key_keeps_distinct, views, EntryRules, WalkState};
use crate::worker::{message_views, DirectoryWork, MessageView, WorkerMessage};

verus! {

/// What a running search remembers: the keys of the directories that were
/// handed out for expansion, the matches so far, and an index of the keys
/// of the matches.
#[derive(Debug)]
pub struct SearchSession {
    visited: Vec<String>,
    matched: Vec<FileEntry>,
    seen: dashmap::DashMap<String, String>,
}

/// What the listing of a directory gives rise to: the messages to submit,
/// and the keys of the directories among them.
pub struct Expansion {
    pub messages: Seq<MessageView>,
    pub visited: Seq<Seq<char>>,
}

/// The levels left one level further down.
pub open spec fn one_less(remaining: Option<usize>) -> Option<usize> {
    match remaining {
        Some(n) => Some((n - 1) as usize),
        None => None,
    }
}

/// What the entry `e` of a directory with `remaining` levels left gives
/// rise to.
///
/// An entry reached through a link is ignored unless links are followed. A
/// directory becomes directory work if a level is left, its key is not
/// among the visited ones and, where it was reached through a link, its
/// canonical path is known; its key is then visited. A file becomes file
/// work. Anything else is ignored.
pub open spec fn expand_entry(
    e: EntryView,
    remaining: Option<usize>,
    follows_links: bool,
    so_far: Expansion,
) -> Expansion {
    if e.via_link && !follows_links {
        so_far
    } else if e.kind == EntryKind::Directory {
        if remaining != Some(0usize) && !(e.via_link && e.canonical is None)
            && !so_far.visited.contains(e.key()) {
            Expansion {
                messages: so_far.messages.push(MessageView::Directory(e, one_less(remaining))),
                visited: so_far.visited.push(e.key()),
            }
        } else {
            so_far
        }
    } else if e.kind == EntryKind::File {
        Expansion { messages: so_far.messages.push(MessageView::File(e)), ..so_far }
    } else {
        so_far
    }
}

/// What the first `n` entries of `listing` give rise to, in order.
pub open spec fn expand_listing(
    listing: Seq<EntryView>,
    remaining: Option<usize>,
    follows_links: bool,
    start: Expansion,
    n: int,
) -> Expansion
    decreases n,
{
    if n <= 0 || n > listing.len() {
        start
    } else {
        expand_entry(
            listing[n - 1],
            remaining,
            follows_links,
            expand_listing(listing, remaining, follows_links, start, n - 1),
        )
    }
}

/// `after` continues the expansion `before`: the messages and the visited
/// keys of `before` stay in front; no visited key comes to occur twice; and
/// no new message sends a worker into a directory that `before` had
/// visited.
pub open spec fn continues(before: Expansion, after: Expansion) -> bool {
    &&& before.messages.len() <= after.messages.len()
    &&& after.messages.take(before.messages.len() as int) == before.messages
    &&& before.visited.len() <= after.visited.len()
    &&& after.visited.take(before.visited.len() as int) == before.visited
    &&& distinct(before.visited) ==> distinct(after.visited)
    &&& forall|i: int|
        before.messages.len() <= i < after.messages.len() ==> match #[trigger] after.messages[i] {
            MessageView::Directory(e, _) => !before.visited.contains(e.key()),
            MessageView::File(_) => true,
            MessageView::Done => false,
        }
}

/// The expansion of a listing continues what it started from: a directory
/// is handed out at most once.
pub proof fn lemma_expansion_continues(
    listing: Seq<EntryView>,
    remaining: Option<usize>,
    follows_links: bool,
    start: Expansion,
    n: int,
)
    ensures
        continues(start, expand_listing(listing, remaining, follows_links, start, n)),
    decreases n,
{
    assert(start.messages.take(start.messages.len() as int) =~= start.messages);
    assert(start.visited.take(start.visited.len() as int) =~= start.visited);
    if 0 < n <= listing.len() {
        lemma_expansion_continues(listing, remaining, follows_links, start, n - 1);
        let mid = expand_listing(listing, remaining, follows_links, start, n - 1);
        let out = expand_entry(listing[n - 1], remaining, follows_links, mid);
        let e = listing[n - 1];
        assert(out.messages.take(start.messages.len() as int) =~= start.messages) by {
            assert forall|k: int| 0 <= k < start.messages.len() implies out.messages[k]
                == start.messages[k] by {
                assert(mid.messages.take(start.messages.len() as int)[k] == start.messages[k]);
            }
        }
        assert(out.visited.take(start.visited.len() as int) =~= start.visited) by {
            assert forall|k: int| 0 <= k < start.visited.len() implies out.visited[k]
                == start.visited[k] by {
                assert(mid.visited.take(start.visited.len() as int)[k] == start.visited[k]);
            }
        }
        if out.visited.len() > mid.visited.len() {
            assert(out.visited == mid.visited.push(e.key()));
            assert(!mid.visited.contains(e.key()));
            if start.visited.contains(e.key()) {
                let k = choose|k: int| 0 <= k < start.visited.len() && start.visited[k] == e.key();
                assert(mid.visited.take(start.visited.len() as int)[k] == start.visited[k]);
                assert(mid.visited[k] == e.key());
            }
            if distinct(start.visited) {
                assert forall|i: int, j: int| 0 <= i < j < out.visited.len() implies out.visited[i]
                    != out.visited[j] by {
                    if j == mid.visited.len() {
                        assert(mid.visited.contains(mid.visited[i]));
                    }
                }
            }
        }
        assert forall|i: int| start.messages.len() <= i < out.messages.len() implies match
            #[trigger] out.messages[i] {
            MessageView::Directory(d, _) => !start.visited.contains(d.key()),
            MessageView::File(_) => true,
            MessageView::Done => false,
        } by {
            if i < mid.messages.len() {
                assert(out.messages[i] == mid.messages[i]);
            }
        }
    }
}

/// Whether the directory `e`, listed in a directory with `remaining` levels
/// left, is one that a search goes into: a level is left; if it was reached
/// through a link, links are followed and its canonical path is known.
pub open spec fn is_entered(e: EntryView, remaining: Option<usize>, follows_links: bool) -> bool {
    &&& e.kind == EntryKind::Directory
    &&& remaining != Some(0usize)
    &&& e.via_link ==> follows_links && e.canonical is Some
}

/// Whether `e`, listed in a directory, is a file that a search tests: if it
/// was reached through a link, links are followed.
pub open spec fn is_tested(e: EntryView, follows_links: bool) -> bool {
    &&& e.kind == EntryKind::File
    &&& e.via_link ==> follows_links
}

/// Whether one of `messages` sends a worker, with `left` levels to go, into
/// a directory with the key `key`.
pub open spec fn hands_out(messages: Seq<MessageView>, key: Seq<char>, left: Option<usize>) -> bool {
    exists|k: int|
        0 <= k < messages.len() && (#[trigger] messages[k]) is Directory
            && messages[k]->Directory_0.key() == key && messages[k]->Directory_1 == left
}

/// A key that the expansion of a listing has marked as visited, and that
/// was not visited before, belongs to a directory that it handed out, with
/// one level less to go.
pub proof fn lemma_visited_were_handed_out(
    listing: Seq<EntryView>,
    remaining: Option<usize>,
    follows_links: bool,
    start: Expansion,
    n: int,
    key: Seq<char>,
)
    requires
        expand_listing(listing, remaining, follows_links, start, n).visited.contains(key),
        !start.visited.contains(key),
    ensures
        hands_out(
            expand_listing(listing, remaining, follows_links, start, n).messages,
            key,
            one_less(remaining),
        ),
    decreases n,
{
    if 0 < n <= listing.len() {
        let mid = expand_listing(listing, remaining, follows_links, start, n - 1);
        let out = expand_entry(listing[n - 1], remaining, follows_links, mid);
        if mid.visited.contains(key) {
            lemma_visited_were_handed_out(listing, remaining, follows_links, start, n - 1, key);
            let k = choose|k: int|
                0 <= k < mid.messages.len() && (#[trigger] mid.messages[k]) is Directory
                    && mid.messages[k]->Directory_0.key() == key && mid.messages[k]->Directory_1
                    == one_less(remaining);
            assert(out.messages[k] == mid.messages[k]);
        } else {
            let at = choose|at: int| 0 <= at < out.visited.len() && out.visited[at] == key;
            assert(out.visited == mid.visited.push(listing[n - 1].key()));
            if at < mid.visited.len() {
                assert(mid.visited[at] == key);
            }
            assert(out.messages[mid.messages.len() as int] == MessageView::Directory(
                listing[n - 1],
                one_less(remaining),
            ));
        }
    }
}

/// The expansion of a listing loses nothing. Every file among the first
/// `n` entries that a search tests is among the messages as file work.
/// Every directory among them that a search goes into is visited
/// afterwards, and unless it was visited before, a message hands it out
/// with one level less to go.
pub proof fn lemma_expansion_is_complete(
    listing: Seq<EntryView>,
    remaining: Option<usize>,
    follows_links: bool,
    start: Expansion,
    n: int,
    i: int,
)
    requires
        0 <= i < n <= listing.len(),
    ensures
        is_tested(listing[i], follows_links) ==> expand_listing(
            listing,
            remaining,
            follows_links,
            start,
            n,
        ).messages.contains(MessageView::File(listing[i])),
        is_entered(listing[i], remaining, follows_links) ==> expand_listing(
            listing,
            remaining,
            follows_links,
            start,
            n,
        ).visited.contains(listing[i].key()),
        is_entered(listing[i], remaining, follows_links) && !start.visited.contains(
            listing[i].key(),
        ) ==> hands_out(
            expand_listing(listing, remaining, follows_links, start, n).messages,
            listing[i].key(),
            one_less(remaining),
        ),
    decreases n,
{
    let e = listing[i];
    let mid = expand_listing(listing, remaining, follows_links, start, n - 1);
    let out = expand_listing(listing, remaining, follows_links, start, n);
    assert(out == expand_entry(listing[n - 1], remaining, follows_links, mid));
    if i < n - 1 {
        lemma_expansion_is_complete(listing, remaining, follows_links, start, n - 1, i);
        if is_tested(e, follows_links) {
            let k = choose|k: int|
                0 <= k < mid.messages.len() && mid.messages[k] == MessageView::File(e);
            assert(out.messages[k] == MessageView::File(e));
        }
        if is_entered(e, remaining, follows_links) {
            let k = choose|k: int| 0 <= k < mid.visited.len() && mid.visited[k] == e.key();
            assert(out.visited[k] == e.key());
        }
    } else {
        if is_tested(e, follows_links) {
            assert(out.messages[mid.messages.len() as int] == MessageView::File(e));
        }
        if is_entered(e, remaining, follows_links) {
            if !mid.visited.contains(e.key()) {
                assert(out.visited[mid.visited.len() as int] == e.key());
            }
        }
    }
    if is_entered(e, remaining, follows_links) && !start.visited.contains(e.key()) {
        lemma_visited_were_handed_out(listing, remaining, follows_links, start, n, e.key());
    }
}

impl SearchSession {
    /// The keys of the directories that were handed out for expansion.
    pub closed spec fn visited_keys(&self) -> Seq<Seq<char>> {
        texts(self.visited@)
    }

    /// The matches so far, in the order in which they were made.
    pub closed spec fn matches(&self) -> Seq<EntryView> {
        views(self.matched@)
    }

    /// The index holds exactly the keys of the matches. Every session
    /// starts so and stays so.
    pub closed spec fn indexed(&self) -> bool {
        forall|key: Seq<char>|
            held(self.seen).dom().contains(key) <==> keys_of(views(self.matched@)).contains(key)
    }

    /// The matches so far.
    pub fn matched_entries(&self) -> (entries: &Vec<FileEntry>)
        ensures
            views(entries@) == self.matches(),
    {
        &self.matched
    }

    /// A session that has seen nothing.
    pub fn new() -> (s: SearchSession)
        ensures
            s.visited_keys().len() == 0,
            s.matches().len() == 0,
            s.indexed(),
    {
        SearchSession { visited: Vec::new(), matched: Vec::new(), seen: new_map() }
    }
}

impl FileFinder {
    /// Starts a search at `root`: refuses a root that is no directory, and
    /// otherwise hands out the first directory work, with the finder's depth
    /// limit as the levels left, and marks the root as visited.
    pub fn seed(&self, session: &mut SearchSession, root: &FileEntry) -> (r: Result<
        DirectoryWork,
        FinderError,
    >)
        ensures
            r is Ok <==> root@.kind == EntryKind::Directory,
            r matches Ok(work) ==> work.entry@ == root@ && work.remaining == self.config.max_depth
                && final(session).visited_keys() == old(session).visited_keys().push(
                root@.key(),
            ) && final(session).matches() == old(session).matches(),
            r matches Err(e) ==> {
                &&& e is InvalidPath
                &&& e->InvalidPath_0@ == root@.path
                &&& *final(session) == *old(session)
            },
            old(session).indexed() ==> final(session).indexed(),
    {
        if root.kind != EntryKind::Directory {
            return Err(FinderError::InvalidPath(root.path.clone()));
        }
        let ghost before = session.visited@;
        session.visited.push(root.key());
        assert(texts(session.visited@) =~= texts(before).push(root@.key()));
        Ok(DirectoryWork { entry: root.duplicate(), remaining: self.config.max_depth })
    }

    /// The handler for directory work. `listing` holds the entries of the
    /// directory, or nothing where it could not be read.
    ///
    /// A directory that the rules do not enter gives nothing. An entered one
    /// is notified to the observers; its entries, if it has a listing, are
    /// turned into the messages to submit, and the directories among them
    /// are marked as visited.
    pub fn expand_directory(
        &mut self,
        session: &mut SearchSession,
        work: &DirectoryWork,
        listing: Option<&Vec<FileEntry>>,
    ) -> (messages: Vec<WorkerMessage>)
        ensures
            final(self).config == old(self).config,
            final(self).traversal_strategy == old(self).traversal_strategy,
            final(self).filter_registry == old(self).filter_registry,
            final(session).matches() == old(session).matches(),
            old(session).indexed() ==> final(session).indexed(),
            !old(self).rules().enters(work.entry@) ==> {
                &&& messages@.len() == 0
                &&& final(self).observer_registry.states() == old(self).observer_registry.states()
                &&& final(session).visited_keys() == old(session).visited_keys()
            },
            old(self).rules().enters(work.entry@) ==> final(self).observer_registry.states()
                == all_observe_directory(
                old(self).observer_registry.states(),
                work.entry@.path,
            ),
            old(self).rules().enters(work.entry@) && listing is None ==> messages@.len() == 0
                && final(session).visited_keys() == old(session).visited_keys(),
            old(self).rules().enters(work.entry@) && listing is Some ==> ({
                let out = expand_listing(
                    views(listing->0@),
                    work.remaining,
                    old(self).config.follow_links,
                    Expansion { messages: Seq::empty(), visited: old(session).visited_keys() },
                    listing->0@.len() as int,
                );
                message_views(messages@) == out.messages && final(session).visited_keys()
                    == out.visited
            }),
            distinct(old(session).visited_keys()) ==> distinct(final(session).visited_keys()),
            forall|i: int|
                0 <= i < messages@.len() ==> match #[trigger] message_views(messages@)[i] {
                    MessageView::Directory(e, _) => !old(session).visited_keys().contains(
                        e.key(),
                    ),
                    MessageView::File(_) => true,
                    MessageView::Done => false,
                },
    {
        proof {
            if listing is Some {
                lemma_expansion_continues(
                    views(listing->0@),
                    work.remaining,
                    self.config.follow_links,
                    Expansion { messages: Seq::empty(), visited: texts(session.visited@) },
                    listing->0@.len() as int,
                );
            }
        }
        let mut messages: Vec<WorkerMessage> = Vec::new();
        let rules = FinderRules {
            config: &self.config,
            traversal: &self.traversal_strategy,
            filters: &self.filter_registry,
        };
        if !rules.may_enter(&work.entry) {
            return messages;
        }
        self.observer_registry.notify_directory_processed(work.entry.path.as_str());
        let entries = match listing {
            Some(entries) => entries,
            None => {
                return messages;
            },
        };
        let follows = self.config.follow_links;
        let ghost start = Expansion {
            messages: Seq::empty(),
            visited: old(session).visited_keys(),
        };
        assert(message_views(messages@) =~= Seq::empty());
        let mut i: usize = 0;
        while i < entries.len()
            invariant
                i <= entries.len(),
                session.matched == old(session).matched,
                session.seen == old(session).seen,
                follows == self.config.follow_links,
                self.config == old(self).config,
                (Expansion {
                    messages: message_views(messages@),
                    visited: texts(session.visited@),
                }) == expand_listing(views(entries@), work.remaining, follows, start, i as int),
            decreases entries.len() - i,
        {
            let e = &entries[i];
            assert(views(entries@)[i as int] == e@);
            let ghost m = messages@;
            let ghost v = session.visited@;
            if e.via_link && !follows {
            } else {
                match e.kind {
                    EntryKind::Directory => {
                        let level_left = match work.remaining {
                            Some(n) => n > 0,
                            None => true,
                        };
                        let unresolved = e.via_link && e.canonical.is_none();
                        if level_left && !unresolved {
                            let key = e.key();
                            if !holds_text(&session.visited, &key) {
                                let below = match work.remaining {
                                    Some(n) => Some(n - 1),
                                    None => None,
                                };
                                messages.push(
                                    WorkerMessage::Directory(
                                        DirectoryWork { entry: e.duplicate(), remaining: below },
                                    ),
                                );
                                session.visited.push(key);
                                assert(message_views(messages@) =~= message_views(m).push(
                                    MessageView::Directory(e@, one_less(work.remaining)),
                                ));
                                assert(texts(session.visited@) =~= texts(v).push(e@.key()));
                            }
                        }
                    },
                    EntryKind::File => {
                        messages.push(WorkerMessage::File(e.duplicate()));
                        assert(message_views(messages@) =~= message_views(m).push(
                            MessageView::File(e@),
                        ));
                    },
                    _ => {},
                }
            }
            i = i + 1;
        }
        messages
    }

    /// The handler for file work: a file that matches under the finder's
    /// rules and whose key was not matched before is notified to the
    /// observers and remembered. Says whether that was the case. Either way
    /// the key of a file that matches is among the matches afterwards.
    pub fn test_file(&mut self, session: &mut SearchSession, entry: &FileEntry) -> (accepted: bool)
        requires
            old(session).indexed(),
        ensures
            final(session).indexed(),
            final(self).config == old(self).config,
            final(self).traversal_strategy == old(self).traversal_strategy,
            final(self).filter_registry == old(self).filter_registry,
            final(session).visited_keys() == old(session).visited_keys(),
            accepted == (old(self).rules().matches(entry@) && !keys_of(
                old(session).matches(),
            ).contains(entry@.key())),
            accepted ==> final(session).matches() == old(session).matches().push(
                entry@,
            ) && final(self).observer_registry.states() == all_observe_file(
                old(self).observer_registry.states(),
                entry@.path,
            ),
            !accepted ==> {
                &&& final(session).matches() == old(session).matches()
                &&& final(self).observer_registry.states() == old(self).observer_registry.states()
            },
            old(self).rules().matches(entry@) ==> keys_of(final(session).matches()).contains(
                entry@.key(),
            ),
            distinct(keys_of(old(session).matches())) ==> distinct(
                keys_of(final(session).matches()),
            ),
            (forall|i: int|
                0 <= i < old(session).matches().len() ==> old(self).rules().matches(
                    #[trigger] old(session).matches()[i],
                )) ==> (forall|i: int|
                0 <= i < final(session).matches().len() ==> old(self).rules().matches(
                    #[trigger] final(session).matches()[i],
                )),
    {
        let rules = FinderRules {
            config: &self.config,
            traversal: &self.traversal_strategy,
            filters: &self.filter_registry,
        };
        if !rules.is_match(entry) {
            return false;
        }
        let key = entry.key();
        if holds_key(&session.seen, &key) {
            return false;
        }
        self.observer_registry.notify_file_found(entry.path.as_str());
        let ghost before = session.matched@;
        let ghost index = held(session.seen);
        session.matched.push(entry.duplicate());
        let _ = put(&mut session.seen, key, entry.path.clone());
        assert(views(session.matched@) =~= views(before).push(entry@));
        proof {
            assert(keys_of(views(session.matched@))[before.len() as int] == entry@.key());
            if distinct(keys_of(views(before))) {
                lemma_new_key_keeps_distinct(views(before), entry@);
            }
            let after = views(session.matched@);
            assert(old(session).matches() == views(before));
            assert(session.matches() == after);
            assert(old(self).rules().matches(entry@));
            if forall|i: int|
                0 <= i < views(before).len() ==> old(self).rules().matches(
                    #[trigger] views(before)[i],
                ) {
                assert forall|i: int| 0 <= i < after.len() implies old(self).rules().matches(
                    #[trigger] after[i],
                ) by {
                    if i < before.len() {
                        assert(after[i] == views(before)[i]);
                    } else {
                        assert(after[i] == entry@);
                    }
                }
            }
            assert forall|k: Seq<char>|
                held(session.seen).dom().contains(k) <==> keys_of(after).contains(k) by {
                if keys_of(after).contains(k) {
                    let i = choose|i: int| 0 <= i < keys_of(after).len() && keys_of(after)[i] == k;
                    if i < before.len() {
                        assert(keys_of(views(before))[i] == k);
                    }
                }
                if k == entry@.key() {
                    assert(keys_of(after)[before.len() as int] == k);
                } else if index.dom().contains(k) {
                    let i = choose|i: int|
                        0 <= i < keys_of(views(before)).len() && keys_of(views(before))[i] == k;
                    assert(keys_of(after)[i] == k);
                }
            }
        }
        true
    }

    /// The paths that the search hands back: those of the first tracking
    /// observer where one is registered, the session's own matches
    /// otherwise.
    pub fn results(&self, session: &SearchSession) -> (found: Vec<String>)
        ensures
            texts(found@) == results_in(
                WalkState { matched: session.matches(), observer: self.observer_registry.states() },
            ),
    {
        proof {
            lemma_first_of_kind(self.observer_registry.states(), ObserverKind::Tracking, 0);
        }
        match self.observer_registry.find_tracking_observer() {
            Some(tracker) => tracker.get_found_files(),
            None => paths(&session.matched),
        }
    }
}

} // verus!
