//! The two registries of a search: named predicates and observers.

use vstd::prelude::*;
use crate::entry::{EntryView, FileEntry};
use crate::filters::composite::{conjunction, conjunction_from, Predicate};
use crate::filters::{Filter, FilterResult};
use crate::text::distinct;
use crate::observer::{
    fresh, observe_directory, observe_file, wrapping_sum, NullObserver, Observer, ObserverKind,
    ObserverView, SearchObserver, TrackingObserver,
};

verus! {

/// A predicate under its name.
#[derive(Debug)]
pub struct NamedFilter {
    pub name: String,
    pub filter: Predicate,
}

/// Named predicates in the order of their registration, applied as one
/// conjunction with short circuit. No name occurs twice.
///
/// The predicates are kept in a list, not in a hash map under their names:
/// which refusal comes first, a rejection or a pruning, then follows from
/// the order of registration and not from the order in which a map happens
/// to be walked.
#[derive(Debug)]
pub struct FilterRegistry {
    entries: Vec<NamedFilter>,
}

/// The names of a list of named predicates.
pub open spec fn names_of(entries: Seq<NamedFilter>) -> Seq<Seq<char>> {
    Seq::new(entries.len(), |i: int| entries[i].name@)
}

/// The predicates of a list of named predicates.
pub open spec fn filters_of(entries: Seq<NamedFilter>) -> Seq<Predicate> {
    Seq::new(entries.len(), |i: int| entries[i].filter)
}

/// What registering `filter` under `name` makes of the names and predicates
/// `before`: a predicate already registered under that name is replaced and
/// keeps its place; otherwise the new one comes last.
pub open spec fn registers(
    before: FilterRegistry,
    after: FilterRegistry,
    name: Seq<char>,
    filter: Predicate,
) -> bool {
    &&& after.names().len() == after.filters().len()
    &&& before.well_formed() ==> after.well_formed()
    &&& match before.names().index_of_first(name) {
        Some(i) => after.names() == before.names() && after.filters() == before.filters().update(
            i,
            filter,
        ),
        None => after.names() == before.names().push(name) && after.filters()
            == before.filters().push(filter),
    }
}

impl FilterRegistry {
    /// No name is registered twice. Every registry starts so and stays so.
    pub closed spec fn well_formed(self) -> bool {
        distinct(names_of(self.entries@))
    }

    /// The registered names, in the order of registration.
    pub closed spec fn names(&self) -> Seq<Seq<char>> {
        names_of(self.entries@)
    }

    /// The registered predicates, in the order of registration.
    pub closed spec fn filters(&self) -> Seq<Predicate> {
        filters_of(self.entries@)
    }

    /// The decision of the registry: that of the first predicate that does
    /// not accept; accept where all accept, and where there is none.
    pub open spec fn decide(&self, entry: EntryView) -> FilterResult {
        conjunction(self.filters(), entry)
    }

    /// The names and the predicates go by pairs; in a well-formed registry no
    /// name occurs twice.
    pub proof fn lemma_shape(&self)
        ensures
            self.names().len() == self.filters().len(),
            self.well_formed() ==> distinct(self.names()),
    {
    }

    pub fn new() -> (r: FilterRegistry)
        ensures
            r.names().len() == 0,
            r.filters().len() == 0,
            r.well_formed(),
    {
        FilterRegistry { entries: Vec::new() }
    }

    /// The number of registered predicates.
    pub fn len(&self) -> (n: usize)
        ensures
            n == self.filters().len(),
            n == self.names().len(),
    {
        self.entries.len()
    }

    /// Where `name` is registered.
    pub fn position(&self, name: &str) -> (r: Option<usize>)
        ensures
            self.names().len() == self.filters().len(),
            match r {
                Some(i) => self.names().index_of_first(name@) == Some(i as int) && i
                    < self.names().len(),
                None => self.names().index_of_first(name@) is None,
            },
    {
        let wanted = name.to_string();
        let mut i: usize = 0;
        while i < self.entries.len()
            invariant
                i <= self.entries.len(),
                wanted@ == name@,
                forall|k: int| 0 <= k < i ==> names_of(self.entries@)[k] != name@,
            decreases self.entries.len() - i,
        {
            if self.entries[i].name == wanted {
                proof {
                    assert(names_of(self.entries@)[i as int] == name@);
                    self.names().index_of_first_ensures(name@);
                }
                return Some(i);
            }
            i = i + 1;
        }
        proof {
            self.names().index_of_first_ensures(name@);
        }
        None
    }

    /// Registers `filter` under `name`. A predicate already registered under
    /// that name is replaced and keeps its place; otherwise the new one comes
    /// last.
    pub fn register(&mut self, name: &str, filter: Predicate)
        ensures
            registers(*old(self), *final(self), name@, filter),
    {
        proof {
            old(self).names().index_of_first_ensures(name@);
        }
        match self.position(name) {
            Some(i) => {
                let ghost before = self.entries@;
                self.entries.set(i, NamedFilter { name: name.to_string(), filter });
                assert(names_of(self.entries@) =~= names_of(before));
                assert(filters_of(self.entries@) =~= filters_of(before).update(i as int, filter));
            },
            None => {
                let ghost before = self.entries@;
                self.entries.push(NamedFilter { name: name.to_string(), filter });
                assert(names_of(self.entries@) =~= names_of(before).push(name@));
                assert(filters_of(self.entries@) =~= filters_of(before).push(filter));
            },
        }
    }

    /// The predicate registered under `name`.
    pub fn get(&self, name: &str) -> (r: Option<&Predicate>)
        ensures
            match self.names().index_of_first(name@) {
                Some(i) => r == Some(&self.filters()[i]),
                None => r is None,
            },
    {
        proof {
            self.names().index_of_first_ensures(name@);
        }
        match self.position(name) {
            Some(i) => Some(&self.entries[i].filter),
            None => None,
        }
    }

    /// Takes the predicate registered under `name` out of the registry; the
    /// others keep their order.
    pub fn remove(&mut self, name: &str) -> (r: Option<Predicate>)
        ensures
            final(self).names().len() == final(self).filters().len(),
            old(self).well_formed() ==> final(self).well_formed(),
            match old(self).names().index_of_first(name@) {
                Some(i) => {
                    &&& r == Some(old(self).filters()[i])
                    &&& final(self).names() == old(self).names().remove(i)
                    &&& final(self).filters() == old(self).filters().remove(i)
                },
                None => {
                    &&& r is None
                    &&& final(self).names() == old(self).names()
                    &&& final(self).filters() == old(self).filters()
                },
            },
    {
        proof {
            old(self).names().index_of_first_ensures(name@);
        }
        match self.position(name) {
            Some(i) => {
                let ghost before = self.entries@;
                let taken = self.entries.remove(i);
                assert(names_of(self.entries@) =~= names_of(before).remove(i as int));
                assert(filters_of(self.entries@) =~= filters_of(before).remove(i as int));
                Some(taken.filter)
            },
            None => None,
        }
    }

    /// Applies the predicates in the order of registration and returns the
    /// first decision that is not an accept.
    pub fn apply_all(&self, entry: &FileEntry) -> (r: FilterResult)
        ensures
            r == self.decide(entry@),
    {
        let mut i: usize = 0;
        while i < self.entries.len()
            invariant
                i <= self.entries.len(),
                self.decide(entry@) == conjunction_from(self.filters(), entry@, i as int),
            decreases self.entries.len() - i,
        {
            let r = self.entries[i].filter.evaluate(entry);
            assert(self.filters()[i as int] == self.entries@[i as int].filter);
            if r != FilterResult::Accept {
                return r;
            }
            i = i + 1;
        }
        FilterResult::Accept
    }
}

impl Filter for FilterRegistry {
    open spec fn spec_filter(&self, entry: EntryView) -> FilterResult {
        self.decide(entry)
    }

    fn filter(&self, entry: &FileEntry) -> (r: FilterResult) {
        self.apply_all(entry)
    }
}

/// The observers of a search, notified in the order of their registration.
#[derive(Debug)]
pub struct ObserverRegistry {
    pub observers: Vec<Observer>,
}

/// The values of a list of observers.
pub open spec fn states_of(observers: Seq<Observer>) -> Seq<ObserverView> {
    Seq::new(observers.len(), |i: int| observers[i].state())
}

/// Every value after the notification of a matched file.
pub open spec fn all_observe_file(states: Seq<ObserverView>, path: Seq<char>) -> Seq<ObserverView> {
    Seq::new(states.len(), |i: int| observe_file(states[i], path))
}

/// Every value after the notification of an entered directory.
pub open spec fn all_observe_directory(states: Seq<ObserverView>, path: Seq<char>) -> Seq<
    ObserverView,
> {
    Seq::new(states.len(), |i: int| observe_directory(states[i], path))
}

/// The file counts of the first `n` values, summed with wrap-around.
pub open spec fn total_files(states: Seq<ObserverView>, n: int) -> usize
    decreases n,
{
    if n <= 0 || n > states.len() {
        0
    } else {
        wrapping_sum(total_files(states, n - 1), states[n - 1].files)
    }
}

/// The directory counts of the first `n` values, summed with wrap-around.
pub open spec fn total_directories(states: Seq<ObserverView>, n: int) -> usize
    decreases n,
{
    if n <= 0 || n > states.len() {
        0
    } else {
        wrapping_sum(total_directories(states, n - 1), states[n - 1].directories)
    }
}

/// The index of the first value of kind `kind` at or behind `from`, or -1.
pub open spec fn first_of_kind(states: Seq<ObserverView>, kind: ObserverKind, from: int) -> int
    decreases states.len() - from,
{
    if 0 <= from < states.len() {
        if states[from].kind == kind {
            from
        } else {
            first_of_kind(states, kind, from + 1)
        }
    } else {
        -1
    }
}

/// `first_of_kind` is the index of a value of that kind, and no value in
/// front of it has the kind; it is -1 where no value has it.
pub proof fn lemma_first_of_kind(states: Seq<ObserverView>, kind: ObserverKind, from: int)
    requires
        0 <= from,
    ensures
        first_of_kind(states, kind, from) == -1 || (from <= first_of_kind(states, kind, from)
            < states.len() && states[first_of_kind(states, kind, from)].kind == kind),
        forall|i: int|
            from <= i < states.len() && (first_of_kind(states, kind, from) == -1 || i
                < first_of_kind(states, kind, from)) ==> (#[trigger] states[i]).kind != kind,
    decreases states.len() - from,
{
    if from < states.len() {
        lemma_first_of_kind(states, kind, from + 1);
    }
}

impl ObserverRegistry {
    /// The values of the registered observers, in the order of registration.
    pub open spec fn states(&self) -> Seq<ObserverView> {
        states_of(self.observers@)
    }

    pub fn new() -> (r: ObserverRegistry)
        ensures
            r.states().len() == 0,
    {
        ObserverRegistry { observers: Vec::new() }
    }

    /// Registers `observer` behind the ones already there.
    pub fn register(&mut self, observer: Observer)
        ensures
            final(self).states() == old(self).states().push(observer.state()),
    {
        self.observers.push(observer);
        assert(states_of(self.observers@) =~= states_of(old(self).observers@).push(
            observer.state(),
        ));
    }

    /// Tells every observer that the file at `path` matched.
    pub fn notify_file_found(&mut self, path: &str)
        ensures
            final(self).states() == all_observe_file(old(self).states(), path@),
    {
        let n = self.observers.len();
        let mut i: usize = 0;
        while i < n
            invariant
                i <= n,
                n == self.observers@.len(),
                n == old(self).observers@.len(),
                forall|k: int|
                    0 <= k < i ==> (#[trigger] self.observers@[k]).state() == observe_file(
                        old(self).observers@[k].state(),
                        path@,
                    ),
                forall|k: int| i <= k < n ==> self.observers@[k] == old(self).observers@[k],
            decreases n - i,
        {
            self.observers[i].file_found(path);
            i = i + 1;
        }
        assert(states_of(self.observers@) =~= all_observe_file(
            states_of(old(self).observers@),
            path@,
        ));
    }

    /// Tells every observer that the directory at `path` was entered.
    pub fn notify_directory_processed(&mut self, path: &str)
        ensures
            final(self).states() == all_observe_directory(old(self).states(), path@),
    {
        let n = self.observers.len();
        let mut i: usize = 0;
        while i < n
            invariant
                i <= n,
                n == self.observers@.len(),
                n == old(self).observers@.len(),
                forall|k: int|
                    0 <= k < i ==> (#[trigger] self.observers@[k]).state() == observe_directory(
                        old(self).observers@[k].state(),
                        path@,
                    ),
                forall|k: int| i <= k < n ==> self.observers@[k] == old(self).observers@[k],
            decreases n - i,
        {
            self.observers[i].directory_processed(path);
            i = i + 1;
        }
        assert(states_of(self.observers@) =~= all_observe_directory(
            states_of(old(self).observers@),
            path@,
        ));
    }

    /// The file counts of all observers, summed with wrap-around.
    pub fn files_count(&self) -> (n: usize)
        ensures
            n == total_files(self.states(), self.states().len() as int),
    {
        let mut total: usize = 0;
        let mut i: usize = 0;
        while i < self.observers.len()
            invariant
                i <= self.observers.len(),
                total == total_files(self.states(), i as int),
            decreases self.observers.len() - i,
        {
            total = total.wrapping_add(self.observers[i].files_count());
            i = i + 1;
        }
        total
    }

    /// The directory counts of all observers, summed with wrap-around.
    pub fn directories_count(&self) -> (n: usize)
        ensures
            n == total_directories(self.states(), self.states().len() as int),
    {
        let mut total: usize = 0;
        let mut i: usize = 0;
        while i < self.observers.len()
            invariant
                i <= self.observers.len(),
                total == total_directories(self.states(), i as int),
            decreases self.observers.len() - i,
        {
            total = total.wrapping_add(self.observers[i].directories_count());
            i = i + 1;
        }
        total
    }

    /// The first registered observer of kind `kind`.
    pub fn get_observer_of_type(&self, kind: ObserverKind) -> (r: Option<&Observer>)
        ensures
            match r {
                Some(o) => first_of_kind(self.states(), kind, 0) >= 0 && o.state()
                    == self.states()[first_of_kind(self.states(), kind, 0)],
                None => first_of_kind(self.states(), kind, 0) == -1,
            },
    {
        let mut i: usize = 0;
        while i < self.observers.len()
            invariant
                i <= self.observers.len(),
                first_of_kind(self.states(), kind, 0) == first_of_kind(
                    self.states(),
                    kind,
                    i as int,
                ),
            decreases self.observers.len() - i,
        {
            if self.observers[i].kind() == kind {
                return Some(&self.observers[i]);
            }
            i = i + 1;
        }
        None
    }

    /// The first registered tracking observer.
    pub fn find_tracking_observer(&self) -> (r: Option<&TrackingObserver>)
        ensures
            match r {
                Some(o) => first_of_kind(self.states(), ObserverKind::Tracking, 0) >= 0
                    && o.state() == self.states()[first_of_kind(
                    self.states(),
                    ObserverKind::Tracking,
                    0,
                )],
                None => first_of_kind(self.states(), ObserverKind::Tracking, 0) == -1,
            },
    {
        proof {
            lemma_first_of_kind(self.states(), ObserverKind::Tracking, 0);
        }
        match self.get_observer_of_type(ObserverKind::Tracking) {
            Some(o) => o.as_tracking(),
            None => None,
        }
    }
}

impl Default for ObserverRegistry {
    /// A registry that holds one null observer.
    fn default() -> (r: ObserverRegistry)
        ensures
            r.states() == seq![fresh(ObserverKind::Null)],
    {
        let mut r = ObserverRegistry::new();
        r.register(Observer::Null(NullObserver::new()));
        assert(r.states() =~= seq![fresh(ObserverKind::Null)]);
        r
    }
}

impl SearchObserver for ObserverRegistry {
    type State = Seq<ObserverView>;

    open spec fn state(&self) -> Seq<ObserverView> {
        self.states()
    }

    open spec fn after_file(state: Seq<ObserverView>, path: Seq<char>) -> Seq<ObserverView> {
        all_observe_file(state, path)
    }

    open spec fn after_directory(state: Seq<ObserverView>, path: Seq<char>) -> Seq<ObserverView> {
        all_observe_directory(state, path)
    }

    open spec fn files_in(state: Seq<ObserverView>) -> usize {
        total_files(state, state.len() as int)
    }

    open spec fn directories_in(state: Seq<ObserverView>) -> usize {
        total_directories(state, state.len() as int)
    }

    fn file_found(&mut self, path: &str) {
        self.notify_file_found(path)
    }

    fn directory_processed(&mut self, path: &str) {
        self.notify_directory_processed(path)
    }

    fn files_count(&self) -> (n: usize) {
        ObserverRegistry::files_count(self)
    }

    fn directories_count(&self) -> (n: usize) {
        ObserverRegistry::directories_count(self)
    }
}

} // verus!
