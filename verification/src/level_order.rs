//! The walk in level order: the files of a level are found before those of
//! the next level down.
//!
//! The directories are announced by one walk that matches nothing. Then
//! the tree is walked once for every level, each time one level deeper and
//! without announcing directories again; a walk adds only the files that
//! no walk before it has matched, which are those of its deepest level.

use vstd::prelude::*;
use crate::entry::{DirNode, EntryKind, EntryView, FileEntry};
use crate::observer::SearchObserver;
use crate::text::distinct;
use crate::walk::{
    all_keyed, below, descends, extends, is_path_keyed, keyed_by, keys_of, lemma_extends_chain,
    lemma_keyed_paths_differ, lemma_nothing_matches, lemma_walk_extends, lemma_walk_finds,
    lemma_walk_keeps_keyed, levels, offered_from, offers, paths_of, reaches, views, visit, walk,
    walk_children, walk_tree, EntryRules, WalkState,
};

verus! {

/// The rules `inner` without the announcement of directories.
pub struct Quiet<'a, R: EntryRules> {
    pub inner: &'a R,
}

impl<'a, R: EntryRules> EntryRules for Quiet<'a, R> {
    open spec fn enters(&self, entry: EntryView) -> bool {
        self.inner.enters(entry)
    }

    open spec fn matches(&self, entry: EntryView) -> bool {
        self.inner.matches(entry)
    }

    open spec fn follows_links(&self) -> bool {
        self.inner.follows_links()
    }

    open spec fn announces(&self) -> bool {
        false
    }

    fn may_enter(&self, entry: &FileEntry) -> (r: bool) {
        self.inner.may_enter(entry)
    }

    fn is_match(&self, entry: &FileEntry) -> (r: bool) {
        self.inner.is_match(entry)
    }

    fn follow_links(&self) -> (r: bool) {
        self.inner.follow_links()
    }

    fn announce_directories(&self) -> (r: bool) {
        false
    }
}

/// The rules `inner` without a match: the walk enters and announces what
/// `inner` enters and announces, and finds nothing.
pub struct Scout<'a, R: EntryRules> {
    pub inner: &'a R,
}

impl<'a, R: EntryRules> EntryRules for Scout<'a, R> {
    open spec fn enters(&self, entry: EntryView) -> bool {
        self.inner.enters(entry)
    }

    open spec fn matches(&self, entry: EntryView) -> bool {
        false
    }

    open spec fn follows_links(&self) -> bool {
        self.inner.follows_links()
    }

    open spec fn announces(&self) -> bool {
        self.inner.announces()
    }

    fn may_enter(&self, entry: &FileEntry) -> (r: bool) {
        self.inner.may_enter(entry)
    }

    fn is_match(&self, entry: &FileEntry) -> (r: bool) {
        false
    }

    fn follow_links(&self) -> (r: bool) {
        self.inner.follow_links()
    }

    fn announce_directories(&self) -> (r: bool) {
        self.inner.announce_directories()
    }
}

/// The number of levels of directories below `node`.
pub open spec fn height(node: DirNode) -> nat
    decreases node, 1nat, 0nat,
{
    tallest_from(node, 0)
}

/// The greatest number of levels that an entry of `node` at or behind index
/// `from` adds: one more than its own height for a directory, none for
/// anything else.
pub open spec fn tallest_from(node: DirNode, from: int) -> nat
    decreases node, 0nat, node.children@.len() - from,
{
    if 0 <= from < node.children@.len() {
        let rest = tallest_from(node, from + 1);
        let own = if node.children@[from].entry@.kind == EntryKind::Directory {
            1 + height(node.children@[from])
        } else {
            0
        };
        if own >= rest {
            own
        } else {
            rest
        }
    } else {
        0
    }
}

/// The number of levels of directories below `node`, or `None` where it
/// does not fit the machine's counter.
pub fn levels_below(node: &DirNode) -> (h: Option<usize>)
    ensures
        match h {
            Some(n) => n == height(*node),
            None => height(*node) > usize::MAX,
        },
    decreases *node,
{
    let mut tallest: usize = 0;
    let mut i: usize = node.children.len();
    while i > 0
        invariant
            i <= node.children.len(),
            tallest == tallest_from(*node, i as int),
        decreases i,
    {
        i = i - 1;
        if node.children[i].entry.kind == EntryKind::Directory {
            match levels_below(&node.children[i]) {
                Some(below) => {
                    if below == usize::MAX {
                        proof {
                            lemma_tallest_grows(*node, 0, i as int);
                        }
                        return None;
                    }
                    if below + 1 > tallest {
                        tallest = below + 1;
                    }
                },
                None => {
                    proof {
                        lemma_tallest_grows(*node, 0, i as int);
                    }
                    return None;
                },
            }
        }
    }
    Some(tallest)
}

proof fn lemma_tallest_grows(node: DirNode, from: int, to: int)
    requires
        0 <= from <= to,
    ensures
        tallest_from(node, from) >= tallest_from(node, to),
    decreases to - from,
{
    if from < to {
        lemma_tallest_grows(node, from + 1, to);
    }
}

/// Whether a budget of levels reaches down `h` levels.
pub open spec fn covers(budget: Option<nat>, h: nat) -> bool {
    budget matches Some(b) ==> b >= h
}

/// Levels that the tree does not have change nothing: two walks whose
/// budgets both reach the bottom of the tree are the same walk.
pub proof fn lemma_budget_beyond_height<R: EntryRules, O: SearchObserver>(
    node: DirNode,
    first: Option<nat>,
    second: Option<nat>,
    rules: R,
    st: WalkState<O::State>,
)
    requires
        covers(first, height(node)),
        covers(second, height(node)),
    ensures
        walk::<R, O>(node, first, rules, st) == walk::<R, O>(node, second, rules, st),
    decreases node, 1nat, 0nat,
{
    if rules.enters(node.entry@) && node.readable {
        lemma_children_budget::<R, O>(
            node,
            first,
            second,
            rules,
            crate::walk::entered::<R, O>(node, rules, st),
            0,
        );
    }
}

proof fn lemma_children_budget<R: EntryRules, O: SearchObserver>(
    node: DirNode,
    first: Option<nat>,
    second: Option<nat>,
    rules: R,
    st: WalkState<O::State>,
    from: int,
)
    requires
        0 <= from,
        covers(first, tallest_from(node, from)),
        covers(second, tallest_from(node, from)),
    ensures
        walk_children::<R, O>(node, first, rules, st, from) == walk_children::<R, O>(
            node,
            second,
            rules,
            st,
            from,
        ),
    decreases node, 0nat, node.children@.len() - from,
{
    if from < node.children@.len() {
        let child = node.children@[from];
        let e = child.entry@;
        assert(tallest_from(node, from) >= tallest_from(node, from + 1));
        if !(e.via_link && !rules.follows_links()) && e.kind == EntryKind::Directory {
            assert(tallest_from(node, from) >= 1 + height(child));
            assert(descends(first) && descends(second));
            if !(e.via_link && e.canonical is None) {
                lemma_budget_beyond_height::<R, O>(child, below(first), below(second), rules, st);
            }
        }
        assert(visit::<R, O>(child, first, rules, st) == visit::<R, O>(child, second, rules, st));
        lemma_children_budget::<R, O>(
            node,
            first,
            second,
            rules,
            visit::<R, O>(child, first, rules, st),
            from + 1,
        );
    }
}

/// What is reachable under rules is reachable under the same rules kept
/// quiet.
pub proof fn lemma_quiet_reaches<R: EntryRules>(
    node: DirNode,
    remaining: Option<nat>,
    rules: R,
    target: EntryView,
)
    ensures
        reaches(node, remaining, rules, target) == reaches(
            node,
            remaining,
            Quiet { inner: &rules },
            target,
        ),
    decreases node, 1nat, 0nat,
{
    lemma_quiet_offered(node, remaining, rules, target, 0);
}

proof fn lemma_quiet_offered<R: EntryRules>(
    node: DirNode,
    remaining: Option<nat>,
    rules: R,
    target: EntryView,
    from: int,
)
    ensures
        offered_from(node, remaining, rules, target, from) == offered_from(
            node,
            remaining,
            Quiet { inner: &rules },
            target,
            from,
        ),
    decreases node, 0nat, node.children@.len() - from,
{
    if 0 <= from < node.children@.len() {
        let child = node.children@[from];
        let e = child.entry@;
        let quiet = Quiet { inner: &rules };
        if !(e.via_link && !rules.follows_links()) && e.kind == EntryKind::Directory {
            lemma_quiet_reaches(child, below(remaining), rules, target);
        }
        assert(offers(child, remaining, rules, target) == offers(child, remaining, quiet, target));
        lemma_quiet_offered(node, remaining, rules, target, from + 1);
    }
}

/// The last level that a walk in level order goes down to: the height of
/// the tree, or the budget where that is less.
pub open spec fn last_level(root: DirNode, remaining: Option<nat>) -> nat {
    match remaining {
        Some(b) => if b <= height(root) {
            b
        } else {
            height(root)
        },
        None => height(root),
    }
}

/// The walks of the levels 0 up to `count - 1`, one after the other.
pub open spec fn level_passes<R: EntryRules, O: SearchObserver>(
    root: DirNode,
    rules: R,
    st: WalkState<O::State>,
    count: nat,
) -> WalkState<O::State>
    decreases count,
{
    if count == 0 {
        st
    } else {
        walk::<Quiet<R>, O>(
            root,
            Some((count - 1) as nat),
            Quiet { inner: &rules },
            level_passes::<R, O>(root, rules, st, (count - 1) as nat),
        )
    }
}

/// The walk of `root` in level order with `remaining` levels left below
/// it.
pub open spec fn level_order<R: EntryRules, O: SearchObserver>(
    root: DirNode,
    remaining: Option<nat>,
    rules: R,
    st: WalkState<O::State>,
) -> WalkState<O::State> {
    level_passes::<R, O>(
        root,
        rules,
        walk::<Scout<R>, O>(root, remaining, Scout { inner: &rules }, st),
        last_level(root, remaining) + 1,
    )
}

/// Walks `root` in level order, notifies `observer` and adds the matches
/// to `matched`. The tree must not be deeper than the machine can count,
/// unless the budget of levels says where to stop.
pub fn walk_by_levels<R: EntryRules, O: SearchObserver>(
    root: &DirNode,
    remaining: Option<usize>,
    rules: &R,
    observer: &mut O,
    matched: &mut Vec<FileEntry>,
)
    requires
        remaining is Some || height(*root) <= usize::MAX,
    ensures
        views(final(matched)@) == level_order::<R, O>(
            *root,
            levels(remaining),
            *rules,
            WalkState { matched: views(old(matched)@), observer: old(observer).state() },
        ).matched,
        final(observer).state() == level_order::<R, O>(
            *root,
            levels(remaining),
            *rules,
            WalkState { matched: views(old(matched)@), observer: old(observer).state() },
        ).observer,
{
    let last: usize = match (levels_below(root), remaining) {
        (Some(h), Some(b)) => if b <= h {
            b
        } else {
            h
        },
        (Some(h), None) => h,
        (None, Some(b)) => b,
        (None, None) => 0,
    };
    assert(last == last_level(*root, levels(remaining)));
    let scout = Scout { inner: rules };
    walk_tree(root, remaining, &scout, observer, matched);
    let ghost scouted = WalkState::<O::State> {
        matched: views(matched@),
        observer: observer.state(),
    };
    let quiet = Quiet { inner: rules };
    let mut level: usize = 0;
    loop
        invariant_except_break
            (WalkState::<O::State> { matched: views(matched@), observer: observer.state() })
                == level_passes::<R, O>(*root, *rules, scouted, level as nat),
        invariant
            level <= last,
            quiet.inner == rules,
        ensures
            (WalkState::<O::State> { matched: views(matched@), observer: observer.state() })
                == level_passes::<R, O>(*root, *rules, scouted, (last + 1) as nat),
        decreases last - level,
    {
        walk_tree(root, Some(level), &quiet, observer, matched);
        if level == last {
            break ;
        }
        level = level + 1;
    }
}

/// A continuation under quiet rules is one under the rules themselves.
proof fn lemma_quiet_extends<R: EntryRules>(
    before: Seq<EntryView>,
    after: Seq<EntryView>,
    rules: R,
)
    requires
        extends(before, after, Quiet { inner: &rules }),
    ensures
        extends(before, after, rules),
{
    let quiet = Quiet { inner: &rules };
    assert forall|i: int| before.len() <= i < after.len() implies rules.matches(
        #[trigger] after[i],
    ) && after[i].kind == EntryKind::File by {
        assert(quiet.matches(after[i]));
    }
}

/// The walks of the levels only add files that match, keep what was
/// matched, and let no key occur twice.
pub proof fn lemma_passes_extend<R: EntryRules, O: SearchObserver>(
    root: DirNode,
    rules: R,
    st: WalkState<O::State>,
    count: nat,
)
    ensures
        extends(st.matched, level_passes::<R, O>(root, rules, st, count).matched, rules),
    decreases count,
{
    assert(st.matched.take(st.matched.len() as int) =~= st.matched);
    if count > 0 {
        let before = level_passes::<R, O>(root, rules, st, (count - 1) as nat);
        lemma_passes_extend::<R, O>(root, rules, st, (count - 1) as nat);
        let quiet = Quiet { inner: &rules };
        lemma_walk_extends::<Quiet<R>, O>(root, Some((count - 1) as nat), quiet, before);
        let after = walk::<Quiet<R>, O>(root, Some((count - 1) as nat), quiet, before);
        lemma_quiet_extends(before.matched, after.matched, rules);
        lemma_extends_chain(st.matched, before.matched, after.matched, rules);
    }
}

/// Soundness of the walk in level order: what it adds are files that match
/// under the rules, what was matched before stays in place, and no key
/// comes to occur twice.
pub proof fn lemma_level_order_extends<R: EntryRules, O: SearchObserver>(
    root: DirNode,
    remaining: Option<nat>,
    rules: R,
    st: WalkState<O::State>,
)
    ensures
        extends(st.matched, level_order::<R, O>(root, remaining, rules, st).matched, rules),
{
    let scout = Scout { inner: &rules };
    lemma_nothing_matches::<Scout<R>, O>(root, remaining, scout, st);
    let scouted = walk::<Scout<R>, O>(root, remaining, scout, st);
    lemma_passes_extend::<R, O>(root, rules, scouted, last_level(root, remaining) + 1);
}

/// In a tree where the path settles the key, it settles the key of every
/// match of the walks of the levels.
pub proof fn lemma_passes_keep_keyed<R: EntryRules, O: SearchObserver>(
    root: DirNode,
    rules: R,
    st: WalkState<O::State>,
    count: nat,
    key_of: spec_fn(Seq<char>) -> Seq<char>,
)
    requires
        keyed_by(root, key_of, 0),
        all_keyed(st.matched, key_of),
    ensures
        all_keyed(level_passes::<R, O>(root, rules, st, count).matched, key_of),
    decreases count,
{
    if count > 0 {
        let before = level_passes::<R, O>(root, rules, st, (count - 1) as nat);
        lemma_passes_keep_keyed::<R, O>(root, rules, st, (count - 1) as nat, key_of);
        lemma_walk_keeps_keyed::<Quiet<R>, O>(
            root,
            Some((count - 1) as nat),
            Quiet { inner: &rules },
            before,
            key_of,
        );
    }
}

/// A walk in level order that starts without a match in a tree where the
/// path settles the key returns no path twice.
pub proof fn lemma_level_order_paths_are_distinct<R: EntryRules, O: SearchObserver>(
    root: DirNode,
    remaining: Option<nat>,
    rules: R,
    st: WalkState<O::State>,
)
    requires
        is_path_keyed(root),
        st.matched.len() == 0,
    ensures
        distinct(keys_of(level_order::<R, O>(root, remaining, rules, st).matched)),
        distinct(paths_of(level_order::<R, O>(root, remaining, rules, st).matched)),
{
    let key_of = choose|key_of: spec_fn(Seq<char>) -> Seq<char>| keyed_by(root, key_of, 0);
    let scout = Scout { inner: &rules };
    lemma_nothing_matches::<Scout<R>, O>(root, remaining, scout, st);
    let scouted = walk::<Scout<R>, O>(root, remaining, scout, st);
    lemma_level_order_extends::<R, O>(root, remaining, rules, st);
    lemma_passes_keep_keyed::<R, O>(
        root,
        rules,
        scouted,
        last_level(root, remaining) + 1,
        key_of,
    );
    lemma_keyed_paths_differ(level_order::<R, O>(root, remaining, rules, st).matched, key_of);
}

/// Completeness of the walk in level order: a matching file that is
/// reachable from the root is among the matches, under its own path or,
/// where the same file was matched before under another path, under that
/// one.
pub proof fn lemma_level_order_finds<R: EntryRules, O: SearchObserver>(
    root: DirNode,
    remaining: Option<nat>,
    rules: R,
    st: WalkState<O::State>,
    target: EntryView,
)
    requires
        reaches(root, remaining, rules, target),
    ensures
        keys_of(level_order::<R, O>(root, remaining, rules, st).matched).contains(target.key()),
{
    let scout = Scout { inner: &rules };
    let quiet = Quiet { inner: &rules };
    let scouted = walk::<Scout<R>, O>(root, remaining, scout, st);
    let last = last_level(root, remaining);
    let before = level_passes::<R, O>(root, rules, scouted, last);
    if covers(remaining, height(root)) {
        lemma_budget_beyond_height::<Quiet<R>, O>(root, Some(last), remaining, quiet, before);
    } else {
        assert(remaining == Some(last));
    }
    lemma_quiet_reaches(root, remaining, rules, target);
    lemma_walk_finds::<Quiet<R>, O>(root, remaining, quiet, before, target);
}

} // verus!
