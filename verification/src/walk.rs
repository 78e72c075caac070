//! The recursive descent through a directory snapshot.

use vstd::prelude::*;
use crate::entry::{DirNode, EntryKind, EntryView, FileEntry};
use crate::observer::SearchObserver;
use crate::text::distinct;

verus! {

/// What decides a walk: which directories are entered, which files match,
/// and whether symbolic links are followed.
pub trait EntryRules {
    /// Whether the directory `entry` is entered.
    spec fn enters(&self, entry: EntryView) -> bool;

    /// Whether the file `entry` is a match.
    spec fn matches(&self, entry: EntryView) -> bool;

    /// Whether entries reached through symbolic links take part.
    spec fn follows_links(&self) -> bool;

    /// Whether the observer is told of the directories entered.
    spec fn announces(&self) -> bool;

    fn may_enter(&self, entry: &FileEntry) -> (r: bool)
        ensures
            r == self.enters(entry@),
    ;

    fn is_match(&self, entry: &FileEntry) -> (r: bool)
        ensures
            r == self.matches(entry@),
    ;

    fn follow_links(&self) -> (r: bool)
        ensures
            r == self.follows_links(),
    ;

    fn announce_directories(&self) -> (r: bool)
        ensures
            r == self.announces(),
    ;
}

/// What a walk has gathered: the matched entries in the order in which they
/// were found, and the observer's state.
pub struct WalkState<S> {
    pub matched: Seq<EntryView>,
    pub observer: S,
}

/// The values of a list of entries.
pub open spec fn views(entries: Seq<FileEntry>) -> Seq<EntryView> {
    Seq::new(entries.len(), |i: int| entries[i]@)
}

/// The keys of a list of entries.
pub open spec fn keys_of(entries: Seq<EntryView>) -> Seq<Seq<char>> {
    Seq::new(entries.len(), |i: int| entries[i].key())
}

/// The paths of a list of entries.
pub open spec fn paths_of(entries: Seq<EntryView>) -> Seq<Seq<char>> {
    Seq::new(entries.len(), |i: int| entries[i].path)
}

/// The levels left below a directory, as a number without bound.
pub open spec fn levels(remaining: Option<usize>) -> Option<nat> {
    match remaining {
        Some(n) => Some(n as nat),
        None => None,
    }
}

/// Whether subdirectories are entered with `remaining` levels left.
pub open spec fn descends(remaining: Option<nat>) -> bool {
    remaining != Some(0nat)
}

/// The levels left one level further down.
pub open spec fn below(remaining: Option<nat>) -> Option<nat> {
    match remaining {
        Some(n) => Some((n - 1) as nat),
        None => None,
    }
}

/// The levels left one level further down, where subdirectories are entered
/// with `remaining` levels left; nothing where they are not.
pub fn step_down(remaining: Option<usize>) -> (r: Option<Option<usize>>)
    ensures
        r is Some <==> descends(levels(remaining)),
        r matches Some(left) ==> levels(left) == below(levels(remaining)),
{
    match remaining {
        Some(n) => if n > 0 {
            Some(Some(n - 1))
        } else {
            None
        },
        None => Some(None),
    }
}

/// What a walk holds when it has entered the directory `node`: the matches
/// unchanged, and the observer told of the directory where the rules
/// announce directories.
pub open spec fn entered<R: EntryRules, O: SearchObserver>(
    node: DirNode,
    rules: R,
    st: WalkState<O::State>,
) -> WalkState<O::State> {
    WalkState {
        matched: st.matched,
        observer: if rules.announces() {
            O::after_directory(st.observer, node.entry@.path)
        } else {
            st.observer
        },
    }
}

/// The walk of the directory `node` with `remaining` levels left below it.
///
/// A directory that the rules do not enter contributes nothing. An entered
/// one is notified; if its listing is readable, its entries are visited in
/// order.
pub open spec fn walk<R: EntryRules, O: SearchObserver>(
    node: DirNode,
    remaining: Option<nat>,
    rules: R,
    st: WalkState<O::State>,
) -> WalkState<O::State>
    decreases node, 1nat, 0nat,
{
    if !rules.enters(node.entry@) {
        st
    } else if !node.readable {
        entered::<R, O>(node, rules, st)
    } else {
        walk_children::<R, O>(node, remaining, rules, entered::<R, O>(node, rules, st), 0)
    }
}

/// The visits of the entries of `node` from index `from` on.
pub open spec fn walk_children<R: EntryRules, O: SearchObserver>(
    node: DirNode,
    remaining: Option<nat>,
    rules: R,
    st: WalkState<O::State>,
    from: int,
) -> WalkState<O::State>
    decreases node, 0nat, node.children@.len() - from,
{
    if 0 <= from < node.children@.len() {
        walk_children::<R, O>(
            node,
            remaining,
            rules,
            visit::<R, O>(node.children@[from], remaining, rules, st),
            from + 1,
        )
    } else {
        st
    }
}

/// The visit of one entry of a directory that has `remaining` levels left.
///
/// An entry reached through a link is ignored unless links are followed. A
/// directory is walked if a level is left and, where it was reached through
/// a link, its canonical path is known. A file that matches and whose key
/// was not matched before is notified and added. Anything else is ignored.
pub open spec fn visit<R: EntryRules, O: SearchObserver>(
    child: DirNode,
    remaining: Option<nat>,
    rules: R,
    st: WalkState<O::State>,
) -> WalkState<O::State>
    decreases child, 2nat, 0nat,
{
    let e = child.entry@;
    if e.via_link && !rules.follows_links() {
        st
    } else if e.kind == EntryKind::Directory {
        if descends(remaining) && !(e.via_link && e.canonical is None) {
            walk::<R, O>(child, below(remaining), rules, st)
        } else {
            st
        }
    } else if e.kind == EntryKind::File {
        if rules.matches(e) && !keys_of(st.matched).contains(e.key()) {
            WalkState { matched: st.matched.push(e), observer: O::after_file(st.observer, e.path) }
        } else {
            st
        }
    } else {
        st
    }
}

/// Whether one of `matched` has the key `key`.
pub fn has_key(matched: &Vec<FileEntry>, key: &String) -> (r: bool)
    ensures
        r == keys_of(views(matched@)).contains(key@),
{
    let mut i: usize = 0;
    while i < matched.len()
        invariant
            i <= matched.len(),
            forall|k: int| 0 <= k < i ==> keys_of(views(matched@))[k] != key@,
        decreases matched.len() - i,
    {
        let k = matched[i].key();
        if k == *key {
            assert(keys_of(views(matched@))[i as int] == key@);
            return true;
        }
        i = i + 1;
    }
    false
}

/// Walks the directory `node` with `remaining` levels left below it,
/// notifies `observer` and adds the matches to `matched`.
pub fn walk_tree<R: EntryRules, O: SearchObserver>(
    node: &DirNode,
    remaining: Option<usize>,
    rules: &R,
    observer: &mut O,
    matched: &mut Vec<FileEntry>,
)
    ensures
        views(final(matched)@) == walk::<R, O>(
            *node,
            levels(remaining),
            *rules,
            WalkState { matched: views(old(matched)@), observer: old(observer).state() },
        ).matched,
        final(observer).state() == walk::<R, O>(
            *node,
            levels(remaining),
            *rules,
            WalkState { matched: views(old(matched)@), observer: old(observer).state() },
        ).observer,
    decreases *node, 1nat,
{
    if !rules.may_enter(&node.entry) {
        return ;
    }
    if rules.announce_directories() {
        observer.directory_processed(node.entry.path.as_str());
    }
    if !node.readable {
        return ;
    }
    let ghost entered = WalkState::<O::State> {
        matched: views(old(matched)@),
        observer: observer.state(),
    };
    let mut i: usize = 0;
    while i < node.children.len()
        invariant
            i <= node.children.len(),
            walk_children::<R, O>(*node, levels(remaining), *rules, entered, 0)
                == walk_children::<R, O>(
                *node,
                levels(remaining),
                *rules,
                WalkState { matched: views(matched@), observer: observer.state() },
                i as int,
            ),
        decreases node.children.len() - i,
    {
        visit_entry(&node.children[i], remaining, rules, observer, matched);
        i = i + 1;
    }
}

/// Visits one entry of a directory that has `remaining` levels left.
pub fn visit_entry<R: EntryRules, O: SearchObserver>(
    child: &DirNode,
    remaining: Option<usize>,
    rules: &R,
    observer: &mut O,
    matched: &mut Vec<FileEntry>,
)
    ensures
        views(final(matched)@) == visit::<R, O>(
            *child,
            levels(remaining),
            *rules,
            WalkState { matched: views(old(matched)@), observer: old(observer).state() },
        ).matched,
        final(observer).state() == visit::<R, O>(
            *child,
            levels(remaining),
            *rules,
            WalkState { matched: views(old(matched)@), observer: old(observer).state() },
        ).observer,
    decreases *child, 2nat,
{
    let entry = &child.entry;
    if entry.via_link && !rules.follow_links() {
        return ;
    }
    match entry.kind {
        EntryKind::Directory => {
            let unresolved = entry.via_link && entry.canonical.is_none();
            if let Some(left) = step_down(remaining) {
                if !unresolved {
                    walk_tree(child, left, rules, observer, matched);
                }
            }
        },
        EntryKind::File => {
            if rules.is_match(entry) {
                let key = entry.key();
                if !has_key(matched, &key) {
                    observer.file_found(entry.path.as_str());
                    matched.push(entry.duplicate());
                    assert(views(matched@) =~= views(old(matched)@).push(entry@));
                }
            }
        },
        _ => {},
    }
}

/// `after` continues `before`: it starts with `before`, every entry behind
/// that is a file that matches under `rules`, and if no key occurs twice in
/// `before`, none occurs twice in `after`.
pub open spec fn extends<R: EntryRules>(before: Seq<EntryView>, after: Seq<EntryView>, rules: R) -> bool {
    &&& before.len() <= after.len()
    &&& after.take(before.len() as int) == before
    &&& forall|i: int|
        before.len() <= i < after.len() ==> rules.matches(#[trigger] after[i]) && after[i].kind
            == EntryKind::File
    &&& distinct(keys_of(before)) ==> distinct(keys_of(after))
}

/// Continuations compose.
pub proof fn lemma_extends_chain<R: EntryRules>(
    a: Seq<EntryView>,
    b: Seq<EntryView>,
    c: Seq<EntryView>,
    rules: R,
)
    requires
        extends(a, b, rules),
        extends(b, c, rules),
    ensures
        extends(a, c, rules),
{
    assert(c.take(a.len() as int) =~= a) by {
        assert forall|i: int| 0 <= i < a.len() implies c.take(a.len() as int)[i] == a[i] by {
            assert(c.take(b.len() as int)[i] == b[i]);
            assert(b.take(a.len() as int)[i] == a[i]);
        }
    }
    assert forall|i: int| a.len() <= i < c.len() implies rules.matches(#[trigger] c[i])
        && c[i].kind == EntryKind::File by {
        if i < b.len() {
            assert(c.take(b.len() as int)[i] == b[i]);
        }
    }
}

/// An entry with a new key keeps the keys apart.
pub proof fn lemma_new_key_keeps_distinct(matched: Seq<EntryView>, e: EntryView)
    requires
        distinct(keys_of(matched)),
        !keys_of(matched).contains(e.key()),
    ensures
        distinct(keys_of(matched.push(e))),
{
    let after = matched.push(e);
    assert forall|i: int, j: int| 0 <= i < j < keys_of(after).len() implies keys_of(after)[i]
        != keys_of(after)[j] by {
        if j < matched.len() {
            assert(keys_of(matched)[i] != keys_of(matched)[j]);
        } else {
            assert(keys_of(matched)[i] == after[i].key());
            assert(keys_of(matched).contains(keys_of(matched)[i]));
        }
    }
}

/// A key matched before stays matched in every continuation.
pub proof fn lemma_keys_stay<R: EntryRules>(
    before: Seq<EntryView>,
    after: Seq<EntryView>,
    rules: R,
    key: Seq<char>,
)
    requires
        extends(before, after, rules),
        keys_of(before).contains(key),
    ensures
        keys_of(after).contains(key),
{
    let i = choose|i: int| 0 <= i < keys_of(before).len() && keys_of(before)[i] == key;
    assert(after.take(before.len() as int)[i] == before[i]);
    assert(keys_of(after)[i] == key);
}

/// Soundness of the walk: what it adds are files that match under the
/// rules, what was matched before stays in place, and no key comes to occur
/// twice.
pub proof fn lemma_walk_extends<R: EntryRules, O: SearchObserver>(
    node: DirNode,
    remaining: Option<nat>,
    rules: R,
    st: WalkState<O::State>,
)
    ensures
        extends(st.matched, walk::<R, O>(node, remaining, rules, st).matched, rules),
    decreases node, 1nat, 0nat,
{
    assert(st.matched.take(st.matched.len() as int) =~= st.matched);
    if rules.enters(node.entry@) && node.readable {
        let entered = entered::<R, O>(node, rules, st);
        lemma_children_extend::<R, O>(node, remaining, rules, entered, 0);
    }
}

/// The visits of the entries of a directory continue what was matched.
pub proof fn lemma_children_extend<R: EntryRules, O: SearchObserver>(
    node: DirNode,
    remaining: Option<nat>,
    rules: R,
    st: WalkState<O::State>,
    from: int,
)
    ensures
        extends(st.matched, walk_children::<R, O>(node, remaining, rules, st, from).matched, rules),
    decreases node, 0nat, node.children@.len() - from,
{
    assert(st.matched.take(st.matched.len() as int) =~= st.matched);
    if 0 <= from < node.children@.len() {
        let mid = visit::<R, O>(node.children@[from], remaining, rules, st);
        lemma_visit_extends::<R, O>(node.children@[from], remaining, rules, st);
        lemma_children_extend::<R, O>(node, remaining, rules, mid, from + 1);
        lemma_extends_chain(
            st.matched,
            mid.matched,
            walk_children::<R, O>(node, remaining, rules, mid, from + 1).matched,
            rules,
        );
    }
}

/// The visit of one entry continues what was matched.
pub proof fn lemma_visit_extends<R: EntryRules, O: SearchObserver>(
    child: DirNode,
    remaining: Option<nat>,
    rules: R,
    st: WalkState<O::State>,
)
    ensures
        extends(st.matched, visit::<R, O>(child, remaining, rules, st).matched, rules),
    decreases child, 2nat, 0nat,
{
    assert(st.matched.take(st.matched.len() as int) =~= st.matched);
    let e = child.entry@;
    if e.via_link && !rules.follows_links() {
    } else if e.kind == EntryKind::Directory {
        if descends(remaining) && !(e.via_link && e.canonical is None) {
            lemma_walk_extends::<R, O>(child, below(remaining), rules, st);
        }
    } else if e.kind == EntryKind::File {
        if rules.matches(e) && !keys_of(st.matched).contains(e.key()) {
            let after = st.matched.push(e);
            assert(after.take(st.matched.len() as int) =~= st.matched);
            if distinct(keys_of(st.matched)) {
                lemma_new_key_keeps_distinct(st.matched, e);
            }
        }
    }
}

/// The file `target` is reachable from the directory `node` with
/// `remaining` levels left: `node` is entered and readable, and one of its
/// entries offers `target`.
pub open spec fn reaches<R: EntryRules>(
    node: DirNode,
    remaining: Option<nat>,
    rules: R,
    target: EntryView,
) -> bool
    decreases node, 1nat, 0nat,
{
    rules.enters(node.entry@) && node.readable && offered_from(node, remaining, rules, target, 0)
}

/// An entry of `node` at or behind index `from` offers `target`.
pub open spec fn offered_from<R: EntryRules>(
    node: DirNode,
    remaining: Option<nat>,
    rules: R,
    target: EntryView,
    from: int,
) -> bool
    decreases node, 0nat, node.children@.len() - from,
{
    if 0 <= from < node.children@.len() {
        offers(node.children@[from], remaining, rules, target) || offered_from(
            node,
            remaining,
            rules,
            target,
            from + 1,
        )
    } else {
        false
    }
}

/// The entry `child` of a directory with `remaining` levels left offers
/// `target`: it is the matching file `target` itself, or a directory that
/// the walk descends into and from which `target` is reachable. Entries
/// reached through links offer nothing unless links are followed.
pub open spec fn offers<R: EntryRules>(
    child: DirNode,
    remaining: Option<nat>,
    rules: R,
    target: EntryView,
) -> bool
    decreases child, 2nat, 0nat,
{
    let e = child.entry@;
    if e.via_link && !rules.follows_links() {
        false
    } else if e.kind == EntryKind::Directory {
        descends(remaining) && !(e.via_link && e.canonical is None) && reaches(
            child,
            below(remaining),
            rules,
            target,
        )
    } else if e.kind == EntryKind::File {
        e == target && rules.matches(e)
    } else {
        false
    }
}

/// Completeness of the walk: a matching file that is reachable from `node`
/// is among the matches, under its own path or, where the same file was
/// matched before under another path, under that one.
pub proof fn lemma_walk_finds<R: EntryRules, O: SearchObserver>(
    node: DirNode,
    remaining: Option<nat>,
    rules: R,
    st: WalkState<O::State>,
    target: EntryView,
)
    requires
        reaches(node, remaining, rules, target),
    ensures
        keys_of(walk::<R, O>(node, remaining, rules, st).matched).contains(target.key()),
    decreases node, 1nat, 0nat,
{
    let entered = entered::<R, O>(node, rules, st);
    lemma_children_find::<R, O>(node, remaining, rules, entered, target, 0);
}

proof fn lemma_children_find<R: EntryRules, O: SearchObserver>(
    node: DirNode,
    remaining: Option<nat>,
    rules: R,
    st: WalkState<O::State>,
    target: EntryView,
    from: int,
)
    requires
        offered_from(node, remaining, rules, target, from),
    ensures
        keys_of(walk_children::<R, O>(node, remaining, rules, st, from).matched).contains(
            target.key(),
        ),
    decreases node, 0nat, node.children@.len() - from,
{
    let child = node.children@[from];
    let mid = visit::<R, O>(child, remaining, rules, st);
    if offers(child, remaining, rules, target) {
        lemma_visit_finds::<R, O>(child, remaining, rules, st, target);
        lemma_children_extend::<R, O>(node, remaining, rules, mid, from + 1);
        lemma_keys_stay(
            mid.matched,
            walk_children::<R, O>(node, remaining, rules, mid, from + 1).matched,
            rules,
            target.key(),
        );
    } else {
        lemma_children_find::<R, O>(node, remaining, rules, mid, target, from + 1);
    }
}

proof fn lemma_visit_finds<R: EntryRules, O: SearchObserver>(
    child: DirNode,
    remaining: Option<nat>,
    rules: R,
    st: WalkState<O::State>,
    target: EntryView,
)
    requires
        offers(child, remaining, rules, target),
    ensures
        keys_of(visit::<R, O>(child, remaining, rules, st).matched).contains(target.key()),
    decreases child, 2nat, 0nat,
{
    let e = child.entry@;
    if e.kind == EntryKind::Directory {
        lemma_walk_finds::<R, O>(child, below(remaining), rules, st, target);
    } else if !keys_of(st.matched).contains(e.key()) {
        let after = st.matched.push(e);
        assert(keys_of(after)[st.matched.len() as int] == target.key());
    }
}

/// The matches do not depend on who observes: two walks that start from the
/// same matches end with the same matches.
pub proof fn lemma_matches_ignore_observer<R: EntryRules, O1: SearchObserver, O2: SearchObserver>(
    node: DirNode,
    remaining: Option<nat>,
    rules: R,
    first: WalkState<O1::State>,
    second: WalkState<O2::State>,
)
    requires
        first.matched == second.matched,
    ensures
        walk::<R, O1>(node, remaining, rules, first).matched == walk::<R, O2>(
            node,
            remaining,
            rules,
            second,
        ).matched,
    decreases node, 1nat, 0nat,
{
    if rules.enters(node.entry@) && node.readable {
        let a = entered::<R, O1>(node, rules, first);
        let b = entered::<R, O2>(node, rules, second);
        lemma_children_ignore_observer::<R, O1, O2>(node, remaining, rules, a, b, 0);
    }
}

proof fn lemma_children_ignore_observer<
    R: EntryRules,
    O1: SearchObserver,
    O2: SearchObserver,
>(
    node: DirNode,
    remaining: Option<nat>,
    rules: R,
    first: WalkState<O1::State>,
    second: WalkState<O2::State>,
    from: int,
)
    requires
        first.matched == second.matched,
    ensures
        walk_children::<R, O1>(node, remaining, rules, first, from).matched == walk_children::<
            R,
            O2,
        >(node, remaining, rules, second, from).matched,
    decreases node, 0nat, node.children@.len() - from,
{
    if 0 <= from < node.children@.len() {
        let child = node.children@[from];
        lemma_visit_ignores_observer::<R, O1, O2>(child, remaining, rules, first, second);
        lemma_children_ignore_observer::<R, O1, O2>(
            node,
            remaining,
            rules,
            visit::<R, O1>(child, remaining, rules, first),
            visit::<R, O2>(child, remaining, rules, second),
            from + 1,
        );
    }
}

proof fn lemma_visit_ignores_observer<R: EntryRules, O1: SearchObserver, O2: SearchObserver>(
    child: DirNode,
    remaining: Option<nat>,
    rules: R,
    first: WalkState<O1::State>,
    second: WalkState<O2::State>,
)
    requires
        first.matched == second.matched,
    ensures
        visit::<R, O1>(child, remaining, rules, first).matched == visit::<R, O2>(
            child,
            remaining,
            rules,
            second,
        ).matched,
    decreases child, 2nat, 0nat,
{
    let e = child.entry@;
    if e.via_link && !rules.follows_links() {
    } else if e.kind == EntryKind::Directory {
        if descends(remaining) && !(e.via_link && e.canonical is None) {
            lemma_matches_ignore_observer::<R, O1, O2>(
                child,
                below(remaining),
                rules,
                first,
                second,
            );
        }
    }
}

/// What every notification keeps, the whole walk keeps.
pub proof fn lemma_walk_keeps<R: EntryRules, O: SearchObserver>(
    node: DirNode,
    remaining: Option<nat>,
    rules: R,
    st: WalkState<O::State>,
    kept: spec_fn(O::State) -> bool,
)
    requires
        kept(st.observer),
        forall|s: O::State, p: Seq<char>| kept(s) ==> kept(#[trigger] O::after_file(s, p)),
        forall|s: O::State, p: Seq<char>| kept(s) ==> kept(#[trigger] O::after_directory(s, p)),
    ensures
        kept(walk::<R, O>(node, remaining, rules, st).observer),
    decreases node, 1nat, 0nat,
{
    if rules.enters(node.entry@) && node.readable {
        let entered = entered::<R, O>(node, rules, st);
        lemma_children_keep::<R, O>(node, remaining, rules, entered, kept, 0);
    }
}

proof fn lemma_children_keep<R: EntryRules, O: SearchObserver>(
    node: DirNode,
    remaining: Option<nat>,
    rules: R,
    st: WalkState<O::State>,
    kept: spec_fn(O::State) -> bool,
    from: int,
)
    requires
        kept(st.observer),
        forall|s: O::State, p: Seq<char>| kept(s) ==> kept(#[trigger] O::after_file(s, p)),
        forall|s: O::State, p: Seq<char>| kept(s) ==> kept(#[trigger] O::after_directory(s, p)),
    ensures
        kept(walk_children::<R, O>(node, remaining, rules, st, from).observer),
    decreases node, 0nat, node.children@.len() - from,
{
    if 0 <= from < node.children@.len() {
        let child = node.children@[from];
        lemma_visit_keeps::<R, O>(child, remaining, rules, st, kept);
        lemma_children_keep::<R, O>(
            node,
            remaining,
            rules,
            visit::<R, O>(child, remaining, rules, st),
            kept,
            from + 1,
        );
    }
}

proof fn lemma_visit_keeps<R: EntryRules, O: SearchObserver>(
    child: DirNode,
    remaining: Option<nat>,
    rules: R,
    st: WalkState<O::State>,
    kept: spec_fn(O::State) -> bool,
)
    requires
        kept(st.observer),
        forall|s: O::State, p: Seq<char>| kept(s) ==> kept(#[trigger] O::after_file(s, p)),
        forall|s: O::State, p: Seq<char>| kept(s) ==> kept(#[trigger] O::after_directory(s, p)),
    ensures
        kept(visit::<R, O>(child, remaining, rules, st).observer),
    decreases child, 2nat, 0nat,
{
    let e = child.entry@;
    if e.via_link && !rules.follows_links() {
    } else if e.kind == EntryKind::Directory {
        if descends(remaining) && !(e.via_link && e.canonical is None) {
            lemma_walk_keeps::<R, O>(child, below(remaining), rules, st, kept);
        }
    }
}

/// Whether the path settles the key of every file listed in `node`, from
/// the entry `from` on, and in the directories below: the key of such a
/// file is what `key_of` gives its path. A tree that holds one path under
/// two keys is keyed by nothing.
pub open spec fn keyed_by(node: DirNode, key_of: spec_fn(Seq<char>) -> Seq<char>, from: int) -> bool
    decreases node, node.children@.len() - from,
{
    if 0 <= from < node.children@.len() {
        let child = node.children@[from];
        &&& child.entry@.kind == EntryKind::File ==> child.entry@.key() == key_of(child.entry@.path)
        &&& keyed_by(child, key_of, 0)
        &&& keyed_by(node, key_of, from + 1)
    } else {
        true
    }
}

/// Whether the path settles the key of every file in the tree below
/// `root`: no path stands there under two keys.
pub open spec fn is_path_keyed(root: DirNode) -> bool {
    exists|key_of: spec_fn(Seq<char>) -> Seq<char>| keyed_by(root, key_of, 0)
}

/// Whether no file listed in `node`, from the entry `from` on, or in the
/// directories below has a canonical path: each is known by its path
/// alone.
pub open spec fn is_unresolved(node: DirNode, from: int) -> bool
    decreases node, node.children@.len() - from,
{
    if 0 <= from < node.children@.len() {
        let child = node.children@[from];
        &&& child.entry@.kind == EntryKind::File ==> child.entry@.canonical is None
        &&& is_unresolved(child, 0)
        &&& is_unresolved(node, from + 1)
    } else {
        true
    }
}

/// In a tree whose files have no canonical path, the path is the key.
pub proof fn lemma_unresolved_is_keyed(
    node: DirNode,
    key_of: spec_fn(Seq<char>) -> Seq<char>,
    from: int,
)
    requires
        0 <= from,
        is_unresolved(node, from),
        forall|path: Seq<char>| #[trigger] key_of(path) == path,
    ensures
        keyed_by(node, key_of, from),
    decreases node, node.children@.len() - from,
{
    if from < node.children@.len() {
        lemma_unresolved_is_keyed(node.children@[from], key_of, 0);
        lemma_unresolved_is_keyed(node, key_of, from + 1);
    }
}

/// A tree whose files have no canonical path holds no path under two keys.
pub proof fn lemma_unresolved_is_path_keyed(root: DirNode)
    requires
        is_unresolved(root, 0),
    ensures
        is_path_keyed(root),
{
    let key_of = |path: Seq<char>| path;
    lemma_unresolved_is_keyed(root, key_of, 0);
}

/// Whether every one of `entries` has the key that `key_of` gives its path.
pub open spec fn all_keyed(entries: Seq<EntryView>, key_of: spec_fn(Seq<char>) -> Seq<char>) -> bool {
    forall|i: int| 0 <= i < entries.len() ==> (#[trigger] entries[i]).key() == key_of(entries[i].path)
}

/// Where the path settles the key, entries with different keys have
/// different paths.
pub proof fn lemma_keyed_paths_differ(entries: Seq<EntryView>, key_of: spec_fn(Seq<char>) -> Seq<char>)
    requires
        all_keyed(entries, key_of),
        distinct(keys_of(entries)),
    ensures
        distinct(paths_of(entries)),
{
    assert forall|i: int, j: int| 0 <= i < j < paths_of(entries).len() implies paths_of(entries)[i]
        != paths_of(entries)[j] by {
        assert(keys_of(entries)[i] != keys_of(entries)[j]);
        assert(entries[i].key() == key_of(entries[i].path));
        assert(entries[j].key() == key_of(entries[j].path));
    }
}

/// In a tree where the path settles the key, it settles the key of every
/// match of a walk.
pub proof fn lemma_walk_keeps_keyed<R: EntryRules, O: SearchObserver>(
    node: DirNode,
    remaining: Option<nat>,
    rules: R,
    st: WalkState<O::State>,
    key_of: spec_fn(Seq<char>) -> Seq<char>,
)
    requires
        keyed_by(node, key_of, 0),
        all_keyed(st.matched, key_of),
    ensures
        all_keyed(walk::<R, O>(node, remaining, rules, st).matched, key_of),
    decreases node, 1nat, 0nat,
{
    if rules.enters(node.entry@) && node.readable {
        let entered = entered::<R, O>(node, rules, st);
        lemma_children_keep_keyed::<R, O>(node, remaining, rules, entered, key_of, 0);
    }
}

proof fn lemma_children_keep_keyed<R: EntryRules, O: SearchObserver>(
    node: DirNode,
    remaining: Option<nat>,
    rules: R,
    st: WalkState<O::State>,
    key_of: spec_fn(Seq<char>) -> Seq<char>,
    from: int,
)
    requires
        0 <= from,
        keyed_by(node, key_of, from),
        all_keyed(st.matched, key_of),
    ensures
        all_keyed(walk_children::<R, O>(node, remaining, rules, st, from).matched, key_of),
    decreases node, 0nat, node.children@.len() - from,
{
    if from < node.children@.len() {
        let child = node.children@[from];
        let e = child.entry@;
        let mid = visit::<R, O>(child, remaining, rules, st);
        if e.via_link && !rules.follows_links() {
        } else if e.kind == EntryKind::Directory {
            if descends(remaining) && !(e.via_link && e.canonical is None) {
                lemma_walk_keeps_keyed::<R, O>(child, below(remaining), rules, st, key_of);
            }
        } else if e.kind == EntryKind::File {
            if rules.matches(e) && !keys_of(st.matched).contains(e.key()) {
                assert forall|i: int| 0 <= i < mid.matched.len() implies (
                #[trigger] mid.matched[i]).key() == key_of(mid.matched[i].path) by {
                    if i < st.matched.len() {
                        assert(mid.matched[i] == st.matched[i]);
                    }
                }
            }
        }
        lemma_children_keep_keyed::<R, O>(node, remaining, rules, mid, key_of, from + 1);
    }
}

/// A walk that starts without a match in a tree where the path settles the
/// key returns no path twice.
pub proof fn lemma_walk_paths_are_distinct<R: EntryRules, O: SearchObserver>(
    node: DirNode,
    remaining: Option<nat>,
    rules: R,
    st: WalkState<O::State>,
)
    requires
        is_path_keyed(node),
        st.matched.len() == 0,
    ensures
        distinct(keys_of(walk::<R, O>(node, remaining, rules, st).matched)),
        distinct(paths_of(walk::<R, O>(node, remaining, rules, st).matched)),
{
    let key_of = choose|key_of: spec_fn(Seq<char>) -> Seq<char>| keyed_by(node, key_of, 0);
    lemma_walk_extends::<R, O>(node, remaining, rules, st);
    lemma_walk_keeps_keyed::<R, O>(node, remaining, rules, st, key_of);
    lemma_keyed_paths_differ(walk::<R, O>(node, remaining, rules, st).matched, key_of);
}

/// An empty directory that is entered gives one notification of an entered
/// directory, where directories are announced, and no match.
pub proof fn lemma_empty_directory<R: EntryRules, O: SearchObserver>(
    node: DirNode,
    remaining: Option<nat>,
    rules: R,
    st: WalkState<O::State>,
)
    requires
        node.children@.len() == 0,
        rules.enters(node.entry@),
    ensures
        walk::<R, O>(node, remaining, rules, st).matched == st.matched,
        walk::<R, O>(node, remaining, rules, st).observer == if rules.announces() {
            O::after_directory(st.observer, node.entry@.path)
        } else {
            st.observer
        },
{
}

/// A subdirectory whose listing cannot be read is notified where it is
/// entered and is otherwise passed over: it adds no match, and the visit of
/// the entries around it goes on.
pub proof fn lemma_unreadable_is_skipped<R: EntryRules, O: SearchObserver>(
    child: DirNode,
    remaining: Option<nat>,
    rules: R,
    st: WalkState<O::State>,
)
    requires
        child.entry@.kind == EntryKind::Directory,
        !child.readable,
    ensures
        visit::<R, O>(child, remaining, rules, st).matched == st.matched,
{
}

/// `e` is the entry of `node` at some index at or behind `from`.
pub open spec fn lists(node: DirNode, e: EntryView, from: int) -> bool {
    exists|k: int| from <= k < node.children@.len() && (#[trigger] node.children@[k]).entry@ == e
}

/// With no level left below the root, every match is an entry of the root
/// itself.
pub proof fn lemma_depth_zero_stays_at_root<R: EntryRules, O: SearchObserver>(
    node: DirNode,
    rules: R,
    st: WalkState<O::State>,
)
    ensures
        forall|i: int|
            st.matched.len() <= i < walk::<R, O>(node, Some(0nat), rules, st).matched.len()
                ==> lists(node, #[trigger] walk::<R, O>(node, Some(0nat), rules, st).matched[i], 0),
{
    if rules.enters(node.entry@) && node.readable {
        let entered = entered::<R, O>(node, rules, st);
        lemma_depth_zero_children::<R, O>(node, rules, entered, 0);
        let out = walk_children::<R, O>(node, Some(0nat), rules, entered, 0);
        assert(walk::<R, O>(node, Some(0nat), rules, st) == out);
        assert forall|i: int| st.matched.len() <= i < out.matched.len() implies lists(
            node,
            #[trigger] out.matched[i],
            0,
        ) by {}
    }
}

proof fn lemma_depth_zero_children<R: EntryRules, O: SearchObserver>(
    node: DirNode,
    rules: R,
    st: WalkState<O::State>,
    from: int,
)
    requires
        0 <= from,
    ensures
        forall|i: int|
            st.matched.len() <= i < walk_children::<R, O>(
                node,
                Some(0nat),
                rules,
                st,
                from,
            ).matched.len() ==> lists(
                node,
                #[trigger] walk_children::<R, O>(node, Some(0nat), rules, st, from).matched[i],
                from,
            ),
    decreases node.children@.len() - from,
{
    if from < node.children@.len() {
        let child = node.children@[from];
        let mid = visit::<R, O>(child, Some(0nat), rules, st);
        let out = walk_children::<R, O>(node, Some(0nat), rules, mid, from + 1);
        lemma_depth_zero_children::<R, O>(node, rules, mid, from + 1);
        lemma_children_extend::<R, O>(node, Some(0nat), rules, mid, from + 1);
        assert forall|i: int| st.matched.len() <= i < out.matched.len() implies lists(
            node,
            #[trigger] out.matched[i],
            from,
        ) by {
            if i < mid.matched.len() {
                assert(out.matched.take(mid.matched.len() as int)[i] == mid.matched[i]);
                assert(node.children@[from].entry@ == out.matched[i]);
            } else {
                assert(lists(node, out.matched[i], from + 1));
                let k = choose|k: int|
                    from + 1 <= k < node.children@.len() && (#[trigger] node.children@[k]).entry@
                        == out.matched[i];
                assert(from <= k);
            }
        }
    }
}

/// Where no entry matches under the rules, the walk adds no match.
pub proof fn lemma_nothing_matches<R: EntryRules, O: SearchObserver>(
    node: DirNode,
    remaining: Option<nat>,
    rules: R,
    st: WalkState<O::State>,
)
    requires
        forall|e: EntryView| !rules.matches(e),
    ensures
        walk::<R, O>(node, remaining, rules, st).matched == st.matched,
{
    lemma_walk_extends::<R, O>(node, remaining, rules, st);
    let out = walk::<R, O>(node, remaining, rules, st).matched;
    if out.len() > st.matched.len() {
        assert(rules.matches(out[st.matched.len() as int]));
    }
    assert(out.take(st.matched.len() as int) =~= out);
}

} // verus!
