//! The core engine: one search over a directory snapshot.

use vstd::prelude::*;
use vstd::string::StringExecFns;
use crate::entry::{DirNode, EntryKind, EntryView, FileEntry};
use crate::filters::composite::lemma_refusal_decides;
use crate::filters::FilterResult;
use crate::observer::{
    count_matches_list, lemma_count_follows_list, NullObserver, ObserverKind, ObserverView,
    SearchObserver,
};
use crate::registry::{
    all_observe_directory, all_observe_file, first_of_kind, lemma_first_of_kind, FilterRegistry,
    ObserverRegistry,
};
use crate::text::texts;
use crate::traversal::TraversalPolicy;
use crate::walk::{
    below, descends, extends, lemma_children_extend, lemma_matches_ignore_observer,
    lemma_visit_extends, lemma_walk_finds, keys_of, reaches,
    lemma_walk_extends, lemma_walk_keeps, levels, paths_of, views, visit, walk, walk_children,
    walk_tree, EntryRules, WalkState, is_path_keyed, lemma_walk_paths_are_distinct,
};

verus! {

/// Why a search could not be made.
#[derive(Debug)]
pub enum FinderError {
    /// A directory could not be read; the text is its path.
    DirectoryAccess(String),
    /// The root is missing or is no directory; the text is its path.
    InvalidPath(String),
    /// The worker pool could not be set up.
    WorkerPool(String),
}

impl FinderError {
    /// The error as one line of text.
    pub fn message(&self) -> (text: String)
        ensures
            text@ == match self {
                FinderError::DirectoryAccess(p) => "Directory access error: "@ + p@,
                FinderError::InvalidPath(p) => "Invalid path: "@ + p@,
                FinderError::WorkerPool(p) => "Worker pool error: "@ + p@,
            },
    {
        match self {
            FinderError::DirectoryAccess(p) => String::from_str("Directory access error: ").concat(
                p.as_str(),
            ),
            FinderError::InvalidPath(p) => String::from_str("Invalid path: ").concat(p.as_str()),
            FinderError::WorkerPool(p) => String::from_str("Worker pool error: ").concat(
                p.as_str(),
            ),
        }
    }
}

/// `num_cpus::get`: the number of processors that the machine offers to
/// this process, which is never zero.
#[verifier::external_body]
fn cpu_count() -> (n: usize)
    ensures
        n >= 1,
{
    num_cpus::get()
}

/// How a finder works.
#[derive(Debug, Clone, Copy)]
pub struct FinderConfig {
    /// The number of workers; one or none means a single-threaded descent.
    pub num_threads: usize,
    pub follow_links: bool,
    /// Levels below the root that are searched; unbounded where absent.
    pub max_depth: Option<usize>,
}

impl Default for FinderConfig {
    /// One worker for every processor, links not followed, no depth limit.
    fn default() -> (c: FinderConfig)
        ensures
            c.num_threads >= 1,
            !c.follow_links,
            c.max_depth is None,
    {
        FinderConfig { num_threads: cpu_count(), follow_links: false, max_depth: None }
    }
}

/// The rules of a finder: its policy gates the walk, its predicates decide
/// the matches.
pub struct FinderRules<'a> {
    pub config: &'a FinderConfig,
    pub traversal: &'a TraversalPolicy,
    pub filters: &'a FilterRegistry,
}

impl<'a> EntryRules for FinderRules<'a> {
    /// A directory is entered where the policy admits it and no predicate
    /// prunes it.
    open spec fn enters(&self, entry: EntryView) -> bool {
        self.traversal.admits(entry, true) && self.filters.decide(entry) != FilterResult::Prune
    }

    /// A file matches where the policy considers it and every predicate
    /// accepts it.
    open spec fn matches(&self, entry: EntryView) -> bool {
        self.traversal.admits(entry, false) && self.filters.decide(entry) == FilterResult::Accept
    }

    open spec fn follows_links(&self) -> bool {
        self.config.follow_links
    }

    open spec fn announces(&self) -> bool {
        true
    }

    fn may_enter(&self, entry: &FileEntry) -> (r: bool) {
        self.traversal.check(entry, true) && self.filters.apply_all(entry) != FilterResult::Prune
    }

    fn is_match(&self, entry: &FileEntry) -> (r: bool) {
        self.traversal.check(entry, false) && self.filters.apply_all(entry) == FilterResult::Accept
    }

    fn follow_links(&self) -> (r: bool) {
        self.config.follow_links
    }

    fn announce_directories(&self) -> (r: bool) {
        true
    }
}

/// The paths of a list of entries.
pub fn paths(entries: &Vec<FileEntry>) -> (r: Vec<String>)
    ensures
        texts(r@) == paths_of(views(entries@)),
{
    let mut r: Vec<String> = Vec::new();
    let mut i: usize = 0;
    while i < entries.len()
        invariant
            i <= entries.len(),
            r@.len() == i,
            texts(r@) == paths_of(views(entries@)).take(i as int),
        decreases entries.len() - i,
    {
        let ghost before = r@;
        r.push(entries[i].path.clone());
        assert forall|k: int| 0 <= k < i + 1 implies texts(r@)[k] == paths_of(
            views(entries@),
        ).take(i + 1)[k] by {
            if k < i {
                assert(texts(before)[k] == paths_of(views(entries@)).take(i as int)[k]);
            }
        }
        assert(texts(r@) =~= paths_of(views(entries@)).take(i + 1));
        i = i + 1;
    }
    assert(paths_of(views(entries@)).take(entries.len() as int) == paths_of(views(entries@)));
    r
}

/// Walks the directory `node`, which has `remaining` levels left below it:
/// notifies the observers of every directory entered and every file
/// matched, and adds the matches to `matched`.
pub fn process_directory(
    node: &DirNode,
    traversal: &TraversalPolicy,
    filters: &FilterRegistry,
    observers: &mut ObserverRegistry,
    config: &FinderConfig,
    remaining: Option<usize>,
    matched: &mut Vec<FileEntry>,
)
    ensures
        views(final(matched)@) == walk::<FinderRules, ObserverRegistry>(
            *node,
            levels(remaining),
            FinderRules { config, traversal, filters },
            WalkState { matched: views(old(matched)@), observer: old(observers).states() },
        ).matched,
        final(observers).states() == walk::<FinderRules, ObserverRegistry>(
            *node,
            levels(remaining),
            FinderRules { config, traversal, filters },
            WalkState { matched: views(old(matched)@), observer: old(observers).states() },
        ).observer,
{
    let rules = FinderRules { config, traversal, filters };
    walk_tree(node, remaining, &rules, observers, matched);
}

/// Every tracking observer among `states` has a file count that is the
/// length of its list.
pub open spec fn tracking_counts_hold(states: Seq<ObserverView>) -> bool {
    forall|i: int| 0 <= i < states.len() ==> count_matches_list(#[trigger] states[i])
}

/// The paths that a search hands back: the list of the first tracking
/// observer, the matches of the walk where none is registered.
pub open spec fn results_in(out: WalkState<Seq<ObserverView>>) -> Seq<Seq<char>> {
    if first_of_kind(out.observer, ObserverKind::Tracking, 0) >= 0 {
        out.observer[first_of_kind(out.observer, ObserverKind::Tracking, 0)].found
    } else {
        paths_of(out.matched)
    }
}

/// Whether the observer that a search takes its results from has no path
/// yet: the first tracking observer among `states` holds none, or there is
/// no tracking observer.
pub open spec fn starts_empty(states: Seq<ObserverView>) -> bool {
    first_of_kind(states, ObserverKind::Tracking, 0) >= 0 ==> states[first_of_kind(
        states,
        ObserverKind::Tracking,
        0,
    )].found.len() == 0
}

/// One search engine: a way of working, a traversal policy, predicates and
/// observers.
#[derive(Debug)]
pub struct FileFinder {
    pub config: FinderConfig,
    pub traversal_strategy: TraversalPolicy,
    pub filter_registry: FilterRegistry,
    pub observer_registry: ObserverRegistry,
}

impl FileFinder {
    pub fn new(
        config: FinderConfig,
        traversal_strategy: TraversalPolicy,
        filter_registry: FilterRegistry,
        observer_registry: ObserverRegistry,
    ) -> (f: FileFinder)
        ensures
            f.config == config,
            f.traversal_strategy == traversal_strategy,
            f.filter_registry == filter_registry,
            f.observer_registry == observer_registry,
    {
        FileFinder { config, traversal_strategy, filter_registry, observer_registry }
    }

    /// The rules under which this finder walks.
    pub open spec fn rules(&self) -> FinderRules {
        FinderRules {
            config: &self.config,
            traversal: &self.traversal_strategy,
            filters: &self.filter_registry,
        }
    }

    /// What the walk of `root` by this finder gathers, starting without a
    /// match.
    pub open spec fn outcome(&self, root: DirNode) -> WalkState<Seq<ObserverView>> {
        walk::<FinderRules, ObserverRegistry>(
            root,
            levels(self.config.max_depth),
            self.rules(),
            WalkState { matched: Seq::empty(), observer: self.observer_registry.states() },
        )
    }

    /// Refuses a root that is missing or is no directory.
    pub fn validate_root(path: &str, exists: bool, is_directory: bool) -> (r: Result<
        (),
        FinderError,
    >)
        ensures
            r is Ok <==> exists && is_directory,
            r matches Err(e) ==> e is InvalidPath && e->InvalidPath_0@ == path@,
    {
        if exists && is_directory {
            Ok(())
        } else {
            Err(FinderError::InvalidPath(path.to_string()))
        }
    }

    /// Searches the snapshot `root`.
    ///
    /// A root that is no directory is refused. Otherwise the tree is walked
    /// with the root at depth 0, the observers are notified, and the paths
    /// come back: those of the first tracking observer where one is
    /// registered, those gathered by the walk itself otherwise. Unreadable
    /// directories are passed over and never make the search fail.
    ///
    /// The walk is the single-threaded descent, whatever the number of
    /// workers; a search on the worker pool goes by `seed`,
    /// `expand_directory` and `test_file`.
    pub fn find(&mut self, root: &DirNode) -> (r: Result<Vec<String>, FinderError>)
        ensures
            final(self).config == old(self).config,
            final(self).traversal_strategy == old(self).traversal_strategy,
            final(self).filter_registry == old(self).filter_registry,
            r is Ok <==> root.entry@.kind == EntryKind::Directory,
            r matches Err(e) ==> e is InvalidPath && e->InvalidPath_0@ == root.entry@.path
                && final(self).observer_registry.states() == old(self).observer_registry.states(),
            r matches Ok(found) ==> final(self).observer_registry.states() == old(self).outcome(
                *root,
            ).observer && texts(found@) == results_in(old(self).outcome(*root)),
            tracking_counts_hold(old(self).observer_registry.states()) ==> tracking_counts_hold(
                final(self).observer_registry.states(),
            ),
            r matches Ok(found) ==> (tracking_counts_hold(old(self).observer_registry.states())
                && first_of_kind(
                final(self).observer_registry.states(),
                ObserverKind::Tracking,
                0,
            ) >= 0 ==> found@.len() == final(self).observer_registry.states()[first_of_kind(
                final(self).observer_registry.states(),
                ObserverKind::Tracking,
                0,
            )].files),
            r matches Ok(found) ==> (is_path_keyed(*root) && starts_empty(
                old(self).observer_registry.states(),
            ) ==> crate::text::distinct(texts(found@))),
    {
        if root.entry.kind != EntryKind::Directory {
            return Err(FinderError::InvalidPath(root.entry.path.clone()));
        }
        let mut matched: Vec<FileEntry> = Vec::new();
        assert(views(matched@) =~= Seq::empty());
        proof {
            if is_path_keyed(*root) && starts_empty(self.observer_registry.states()) {
                lemma_results_are_distinct(*self, *root);
            }
            if tracking_counts_hold(self.observer_registry.states()) {
                lemma_counts_are_kept(
                    *root,
                    levels(self.config.max_depth),
                    self.rules(),
                    WalkState { matched: Seq::empty(), observer: self.observer_registry.states() },
                );
            }
        }
        process_directory(
            root,
            &self.traversal_strategy,
            &self.filter_registry,
            &mut self.observer_registry,
            &self.config,
            self.config.max_depth,
            &mut matched,
        );
        proof {
            lemma_first_of_kind(self.observer_registry.states(), ObserverKind::Tracking, 0);
        }
        match self.observer_registry.find_tracking_observer() {
            Some(tracker) => {
                let found = tracker.get_found_files();
                let total = found.len();
                assert(texts(found@).len() == total);
                Ok(found)
            },
            None => Ok(paths(&matched)),
        }
    }

    /// Collects the matches below `node` without telling any observer.
    pub fn collect_files_direct(
        node: &DirNode,
        traversal: &TraversalPolicy,
        filters: &FilterRegistry,
        config: &FinderConfig,
        remaining: Option<usize>,
    ) -> (found: Vec<String>)
        ensures
            texts(found@) == paths_of(
                walk::<FinderRules, NullObserver>(
                    *node,
                    levels(remaining),
                    FinderRules { config, traversal, filters },
                    WalkState { matched: Seq::empty(), observer: NullObserver.state() },
                ).matched,
            ),
    {
        let rules = FinderRules { config, traversal, filters };
        let mut observer = NullObserver::new();
        let mut matched: Vec<FileEntry> = Vec::new();
        assert(views(matched@) =~= Seq::empty());
        walk_tree(node, remaining, &rules, &mut observer, &mut matched);
        paths(&matched)
    }
}

/// A walk keeps the file count of every tracking observer equal to the
/// length of its list.
pub proof fn lemma_counts_are_kept<R: EntryRules>(
    node: DirNode,
    remaining: Option<nat>,
    rules: R,
    st: WalkState<Seq<ObserverView>>,
)
    requires
        tracking_counts_hold(st.observer),
    ensures
        tracking_counts_hold(walk::<R, ObserverRegistry>(node, remaining, rules, st).observer),
{
    let kept = |s: Seq<ObserverView>| tracking_counts_hold(s);
    assert forall|s: Seq<ObserverView>, p: Seq<char>| kept(s) implies kept(
        #[trigger] ObserverRegistry::after_file(s, p),
    ) by {
        let after = all_observe_file(s, p);
        assert forall|i: int| 0 <= i < after.len() implies count_matches_list(
            #[trigger] after[i],
        ) by {
            assert(count_matches_list(s[i]));
            lemma_count_follows_list(s[i], p);
        }
    }
    assert forall|s: Seq<ObserverView>, p: Seq<char>| kept(s) implies kept(
        #[trigger] ObserverRegistry::after_directory(s, p),
    ) by {
        let after = all_observe_directory(s, p);
        assert forall|i: int| 0 <= i < after.len() implies count_matches_list(
            #[trigger] after[i],
        ) by {
            assert(count_matches_list(s[i]));
            lemma_count_follows_list(s[i], p);
        }
    }
    lemma_walk_keeps::<R, ObserverRegistry>(node, remaining, rules, st, kept);
}

/// A registry with a predicate that accepts no file makes every search
/// come back empty, whatever the tree holds. Directories are another
/// matter: every predicate lets them pass.
pub proof fn lemma_rejecting_predicate_empties(finder: FileFinder, root: DirNode, i: int)
    requires
        0 <= i < finder.filter_registry.filters().len(),
        forall|e: EntryView|
            e.kind == EntryKind::File ==> (#[trigger] finder.filter_registry.filters()[i].decide(
                e,
            )) != FilterResult::Accept,
    ensures
        finder.outcome(root).matched == Seq::<EntryView>::empty(),
        results_in(finder.outcome(root)) == results_in(
            WalkState { matched: Seq::empty(), observer: finder.observer_registry.states() },
        ),
{
    let st = WalkState { matched: Seq::empty(), observer: finder.observer_registry.states() };
    let remaining = levels(finder.config.max_depth);
    let out = finder.outcome(root);
    lemma_walk_extends::<FinderRules, ObserverRegistry>(root, remaining, finder.rules(), st);
    if out.matched.len() > 0 {
        let e = out.matched[0];
        assert(finder.rules().matches(e) && e.kind == EntryKind::File);
        assert(finder.filter_registry.filters()[i].decide(e) != FilterResult::Accept);
        lemma_refusal_decides(finder.filter_registry.filters(), e, i);
    }
    assert(out.matched =~= Seq::<EntryView>::empty());
    lemma_walk_tracks(root, remaining, finder.rules(), st);
    lemma_first_of_kind(st.observer, ObserverKind::Tracking, 0);
    lemma_first_of_kind(out.observer, ObserverKind::Tracking, 0);
    let k = first_of_kind(st.observer, ObserverKind::Tracking, 0);
    let j = first_of_kind(out.observer, ObserverKind::Tracking, 0);
    assert(paths_of(out.matched.skip(0)) =~= Seq::<Seq<char>>::empty());
    if k >= 0 {
        assert(out.observer[k].kind == ObserverKind::Tracking);
        assert(out.observer[k].found =~= st.observer[k].found);
    }
    if j >= 0 {
        assert(out.observer[j].kind == st.observer[j].kind);
    }
    if j != k {
        if k >= 0 && (j == -1 || j > k) {
            assert(out.observer[k].kind != ObserverKind::Tracking);
        } else if j >= 0 {
            assert(st.observer[j].kind != ObserverKind::Tracking);
        }
    }
    assert(paths_of(out.matched) =~= paths_of(st.matched));
}

/// `after` has the observers of `before`, and every tracking observer among
/// them has taken up, behind what it held, the paths of the matches that
/// `after` has more than `before`.
pub open spec fn tracks(
    before: WalkState<Seq<ObserverView>>,
    after: WalkState<Seq<ObserverView>>,
) -> bool {
    &&& after.observer.len() == before.observer.len()
    &&& forall|i: int|
        0 <= i < before.observer.len() ==> (#[trigger] after.observer[i]).kind
            == before.observer[i].kind && (before.observer[i].kind == ObserverKind::Tracking
            ==> after.observer[i].found == before.observer[i].found + paths_of(
            after.matched.skip(before.matched.len() as int),
        ))
}

proof fn lemma_tracks_chain<R: EntryRules>(
    a: WalkState<Seq<ObserverView>>,
    b: WalkState<Seq<ObserverView>>,
    c: WalkState<Seq<ObserverView>>,
    rules: R,
)
    requires
        tracks(a, b),
        tracks(b, c),
        extends(a.matched, b.matched, rules),
        extends(b.matched, c.matched, rules),
    ensures
        tracks(a, c),
{
    let n = a.matched.len() as int;
    let m = b.matched.len() as int;
    assert(paths_of(c.matched.skip(n)) =~= paths_of(b.matched.skip(n)) + paths_of(
        c.matched.skip(m),
    )) by {
        assert forall|k: int| 0 <= k < c.matched.len() - n implies paths_of(c.matched.skip(n))[k]
            == (paths_of(b.matched.skip(n)) + paths_of(c.matched.skip(m)))[k] by {
            if k < m - n {
                assert(c.matched.take(m)[n + k] == b.matched[n + k]);
            }
        }
    }
    assert forall|i: int| 0 <= i < a.observer.len() implies (#[trigger] c.observer[i]).kind
        == a.observer[i].kind && (a.observer[i].kind == ObserverKind::Tracking
        ==> c.observer[i].found == a.observer[i].found + paths_of(c.matched.skip(n))) by {
        assert(b.observer[i].kind == a.observer[i].kind);
        if a.observer[i].kind == ObserverKind::Tracking {
            assert(c.observer[i].found =~= a.observer[i].found + paths_of(c.matched.skip(n)));
        }
    }
}

/// Every tracking observer of a walk takes up exactly the paths of the
/// walk's matches, in their order.
pub proof fn lemma_walk_tracks<R: EntryRules>(
    node: DirNode,
    remaining: Option<nat>,
    rules: R,
    st: WalkState<Seq<ObserverView>>,
)
    ensures
        tracks(st, walk::<R, ObserverRegistry>(node, remaining, rules, st)),
    decreases node, 1nat, 0nat,
{
    assert(paths_of(st.matched.skip(st.matched.len() as int)) =~= Seq::empty());
    if !rules.enters(node.entry@) {
        assert forall|i: int| 0 <= i < st.observer.len() implies st.observer[i].found
            == st.observer[i].found + Seq::<Seq<char>>::empty() by {
            assert(st.observer[i].found + Seq::<Seq<char>>::empty() =~= st.observer[i].found);
        }
    } else {
        let entered = crate::walk::entered::<R, ObserverRegistry>(node, rules, st);
        assert(tracks(st, entered)) by {
            assert forall|i: int| 0 <= i < st.observer.len() implies (
            #[trigger] entered.observer[i]).found == st.observer[i].found + Seq::<
                Seq<char>,
            >::empty() by {
                assert(st.observer[i].found + Seq::<Seq<char>>::empty() =~= st.observer[i].found);
            }
        }
        if node.readable {
            lemma_children_track(node, remaining, rules, entered, 0);
            lemma_children_extend::<R, ObserverRegistry>(node, remaining, rules, entered, 0);
            assert(extends(st.matched, entered.matched, rules)) by {
                assert(st.matched.take(st.matched.len() as int) =~= st.matched);
            }
            lemma_tracks_chain(
                st,
                entered,
                walk_children::<R, ObserverRegistry>(node, remaining, rules, entered, 0),
                rules,
            );
        }
    }
}

proof fn lemma_children_track<R: EntryRules>(
    node: DirNode,
    remaining: Option<nat>,
    rules: R,
    st: WalkState<Seq<ObserverView>>,
    from: int,
)
    ensures
        tracks(st, walk_children::<R, ObserverRegistry>(node, remaining, rules, st, from)),
    decreases node, 0nat, node.children@.len() - from,
{
    assert(paths_of(st.matched.skip(st.matched.len() as int)) =~= Seq::empty());
    if 0 <= from < node.children@.len() {
        let child = node.children@[from];
        let mid = visit::<R, ObserverRegistry>(child, remaining, rules, st);
        lemma_visit_tracks(child, remaining, rules, st);
        lemma_children_track(node, remaining, rules, mid, from + 1);
        lemma_visit_extends::<R, ObserverRegistry>(child, remaining, rules, st);
        lemma_children_extend::<R, ObserverRegistry>(node, remaining, rules, mid, from + 1);
        lemma_tracks_chain(
            st,
            mid,
            walk_children::<R, ObserverRegistry>(node, remaining, rules, mid, from + 1),
            rules,
        );
    } else {
        assert forall|i: int| 0 <= i < st.observer.len() implies st.observer[i].found
            == st.observer[i].found + Seq::<Seq<char>>::empty() by {
            assert(st.observer[i].found + Seq::<Seq<char>>::empty() =~= st.observer[i].found);
        }
    }
}

proof fn lemma_visit_tracks<R: EntryRules>(
    child: DirNode,
    remaining: Option<nat>,
    rules: R,
    st: WalkState<Seq<ObserverView>>,
)
    ensures
        tracks(st, visit::<R, ObserverRegistry>(child, remaining, rules, st)),
    decreases child, 2nat, 0nat,
{
    let e = child.entry@;
    let out = visit::<R, ObserverRegistry>(child, remaining, rules, st);
    assert(paths_of(st.matched.skip(st.matched.len() as int)) =~= Seq::empty());
    if !(e.via_link && !rules.follows_links()) && e.kind == EntryKind::Directory && descends(
        remaining,
    ) && !(e.via_link && e.canonical is None) {
        lemma_walk_tracks(child, below(remaining), rules, st);
    } else if out.matched.len() > st.matched.len() {
        assert(out.matched == st.matched.push(e));
        assert(paths_of(out.matched.skip(st.matched.len() as int)) =~= seq![e.path]);
        assert forall|i: int| 0 <= i < st.observer.len() implies (#[trigger] out.observer[i]).kind
            == st.observer[i].kind && (st.observer[i].kind == ObserverKind::Tracking
            ==> out.observer[i].found == st.observer[i].found + seq![e.path]) by {
            if st.observer[i].kind == ObserverKind::Tracking {
                assert(st.observer[i].found.push(e.path) =~= st.observer[i].found + seq![e.path]);
            }
        }
    } else {
        assert(out == st);
        assert forall|i: int| 0 <= i < st.observer.len() implies st.observer[i].found
            == st.observer[i].found + Seq::<Seq<char>>::empty() by {
            assert(st.observer[i].found + Seq::<Seq<char>>::empty() =~= st.observer[i].found);
        }
    }
}

/// With a tracking observer that starts empty, the paths that a search
/// hands back are the paths of its matches: files that match under the
/// finder's rules, no file twice.
pub proof fn lemma_results_are_the_matches(finder: FileFinder, root: DirNode)
    requires
        first_of_kind(finder.observer_registry.states(), ObserverKind::Tracking, 0) >= 0,
        finder.observer_registry.states()[first_of_kind(
            finder.observer_registry.states(),
            ObserverKind::Tracking,
            0,
        )].found.len() == 0,
    ensures
        results_in(finder.outcome(root)) == paths_of(finder.outcome(root).matched),
        forall|i: int|
            0 <= i < finder.outcome(root).matched.len() ==> finder.rules().matches(
                #[trigger] finder.outcome(root).matched[i],
            ),
        crate::text::distinct(keys_of(finder.outcome(root).matched)),
{
    let st = WalkState { matched: Seq::empty(), observer: finder.observer_registry.states() };
    let out = finder.outcome(root);
    let remaining = levels(finder.config.max_depth);
    lemma_walk_tracks(root, remaining, finder.rules(), st);
    lemma_walk_extends::<FinderRules, ObserverRegistry>(root, remaining, finder.rules(), st);
    lemma_first_of_kind(st.observer, ObserverKind::Tracking, 0);
    lemma_first_of_kind(out.observer, ObserverKind::Tracking, 0);
    let k = first_of_kind(st.observer, ObserverKind::Tracking, 0);
    let j = first_of_kind(out.observer, ObserverKind::Tracking, 0);
    assert(out.observer[k].kind == ObserverKind::Tracking);
    if j != k {
        if j == -1 || j > k {
            assert(out.observer[k].kind != ObserverKind::Tracking);
        } else {
            assert(out.observer[j].kind == st.observer[j].kind);
            assert(st.observer[j].kind != ObserverKind::Tracking);
        }
    }
    assert(out.matched.skip(0) =~= out.matched);
    assert(st.observer[k].found + paths_of(out.matched) =~= paths_of(out.matched));
    assert(keys_of(st.matched) =~= Seq::empty());
}

/// With a tracking observer that starts empty, or with none, a search of a
/// tree in which the path settles the key hands back no path twice, and no
/// two paths of one file.
pub proof fn lemma_results_are_distinct(finder: FileFinder, root: DirNode)
    requires
        is_path_keyed(root),
        starts_empty(finder.observer_registry.states()),
    ensures
        results_in(finder.outcome(root)) == paths_of(finder.outcome(root).matched),
        crate::text::distinct(results_in(finder.outcome(root))),
        crate::text::distinct(keys_of(finder.outcome(root).matched)),
{
    let st = WalkState { matched: Seq::empty(), observer: finder.observer_registry.states() };
    let remaining = levels(finder.config.max_depth);
    lemma_walk_paths_are_distinct::<FinderRules, ObserverRegistry>(
        root,
        remaining,
        finder.rules(),
        st,
    );
    if first_of_kind(st.observer, ObserverKind::Tracking, 0) >= 0 {
        lemma_results_are_the_matches(finder, root);
    } else {
        let out = finder.outcome(root);
        lemma_walk_tracks(root, remaining, finder.rules(), st);
        lemma_first_of_kind(st.observer, ObserverKind::Tracking, 0);
        lemma_first_of_kind(out.observer, ObserverKind::Tracking, 0);
        let j = first_of_kind(out.observer, ObserverKind::Tracking, 0);
        if j >= 0 {
            assert(out.observer[j].kind == st.observer[j].kind);
        }
    }
}

/// Two searches of one tree under the same rules find the same files,
/// whatever their observers have seen before.
pub proof fn lemma_search_is_repeatable(first: FileFinder, second: FileFinder, root: DirNode)
    requires
        first.config == second.config,
        first.traversal_strategy == second.traversal_strategy,
        first.filter_registry == second.filter_registry,
    ensures
        first.outcome(root).matched == second.outcome(root).matched,
{
    lemma_matches_ignore_observer::<FinderRules, ObserverRegistry, ObserverRegistry>(
        root,
        levels(first.config.max_depth),
        first.rules(),
        WalkState { matched: Seq::empty(), observer: first.observer_registry.states() },
        WalkState { matched: Seq::empty(), observer: second.observer_registry.states() },
    );
}

/// A search misses nothing: every file that matches under the finder's
/// rules and is reachable from the root within the finder's depth limit is
/// among the matches.
pub proof fn lemma_search_is_complete(finder: FileFinder, root: DirNode, target: EntryView)
    requires
        reaches(root, levels(finder.config.max_depth), finder.rules(), target),
    ensures
        keys_of(finder.outcome(root).matched).contains(target.key()),
{
    lemma_walk_finds::<FinderRules, ObserverRegistry>(
        root,
        levels(finder.config.max_depth),
        finder.rules(),
        WalkState { matched: Seq::empty(), observer: finder.observer_registry.states() },
        target,
    );
}

} // verus!
