//! Predicates made of predicates.

use vstd::prelude::*;
use crate::entry::{EntryKind, EntryView, FileEntry};
use crate::filters::{
    and_then_result, or_else_result, DateFilter, ExtensionFilter, Filter, FilterOperation,
    FilterResult, NameFilter, RegexFilter, SizeFilter,
};

verus! {

/// Any predicate of this library.
#[derive(Debug)]
pub enum Predicate {
    Name(NameFilter),
    Extension(ExtensionFilter),
    Regex(RegexFilter),
    Size(SizeFilter),
    Date(DateFilter),
    Composite(CompositeFilter),
}

/// A list of predicates combined by one operation.
#[derive(Debug)]
pub struct CompositeFilter {
    pub filters: Vec<Predicate>,
    pub operation: FilterOperation,
}

/// The decision of the first predicate of `filters` at or behind index `from`
/// that does not accept `entry`; accept where every one of them accepts.
pub open spec fn conjunction_from(filters: Seq<Predicate>, entry: EntryView, from: int) -> FilterResult
    decreases filters.len() - from,
{
    if 0 <= from < filters.len() {
        if filters[from].decide(entry) != FilterResult::Accept {
            filters[from].decide(entry)
        } else {
            conjunction_from(filters, entry, from + 1)
        }
    } else {
        FilterResult::Accept
    }
}

/// The implicit conjunction of a list of predicates, with short circuit.
pub open spec fn conjunction(filters: Seq<Predicate>, entry: EntryView) -> FilterResult {
    conjunction_from(filters, entry, 0)
}

/// A conjunction accepts exactly where every predicate accepts.
pub proof fn lemma_conjunction_accepts(filters: Seq<Predicate>, entry: EntryView, from: int)
    requires
        0 <= from,
    ensures
        conjunction_from(filters, entry, from) == FilterResult::Accept <==> forall|i: int|
            from <= i < filters.len() ==> (#[trigger] filters[i]).decide(entry)
                == FilterResult::Accept,
    decreases filters.len() - from,
{
    if from < filters.len() {
        lemma_conjunction_accepts(filters, entry, from + 1);
    }
}

/// One predicate that does not accept is enough for the conjunction not to
/// accept.
pub proof fn lemma_refusal_decides(filters: Seq<Predicate>, entry: EntryView, i: int)
    requires
        0 <= i < filters.len(),
        filters[i].decide(entry) != FilterResult::Accept,
    ensures
        conjunction(filters, entry) != FilterResult::Accept,
{
    lemma_conjunction_accepts(filters, entry, 0);
}

/// A size predicate whose least size lies above its greatest accepts no
/// file: a predicate that refuses every file exists.
pub proof fn lemma_empty_range_accepts_no_file(filter: SizeFilter, entry: EntryView)
    requires
        filter.lower() is Some,
        filter.upper() is Some,
        filter.lower()->0 > filter.upper()->0,
        entry.kind == EntryKind::File,
    ensures
        Predicate::Size(filter).decide(entry) == FilterResult::Reject,
{
}

/// One more predicate behind a conjunction decides only where the
/// conjunction accepts.
pub proof fn lemma_conjunction_push(
    filters: Seq<Predicate>,
    added: Predicate,
    entry: EntryView,
    from: int,
)
    requires
        0 <= from <= filters.len(),
    ensures
        conjunction_from(filters.push(added), entry, from) == and_then_result(
            conjunction_from(filters, entry, from),
            added.decide(entry),
        ),
    decreases filters.len() - from,
{
    if from < filters.len() {
        assert(filters.push(added)[from] == filters[from]);
        lemma_conjunction_push(filters, added, entry, from + 1);
    } else {
        assert(filters.push(added)[from] == added);
        assert(conjunction_from(filters.push(added), entry, from + 1) == FilterResult::Accept);
    }
}

impl Predicate {
    /// The decision of the predicate on `entry`.
    pub open spec fn decide(self, entry: EntryView) -> FilterResult
        decreases self,
    {
        match self {
            Predicate::Name(f) => f.spec_filter(entry),
            Predicate::Extension(f) => f.spec_filter(entry),
            Predicate::Regex(f) => f.spec_filter(entry),
            Predicate::Size(f) => f.spec_filter(entry),
            Predicate::Date(f) => f.spec_filter(entry),
            Predicate::Composite(c) => c.decide(entry),
        }
    }

/// Applies the predicate to `entry`.
    pub fn evaluate(&self, entry: &FileEntry) -> (r: FilterResult)
        ensures
            r == self.decide(entry@),
        decreases *self,
    {
        match self {
            Predicate::Name(f) => f.filter(entry),
            Predicate::Extension(f) => f.filter(entry),
            Predicate::Regex(f) => f.filter(entry),
            Predicate::Size(f) => f.filter(entry),
            Predicate::Date(f) => f.filter(entry),
            Predicate::Composite(c) => c.evaluate(entry),
        }
    }
}

impl CompositeFilter {
    /// The decision of the child at index `i`.
    pub open spec fn child(self, entry: EntryView, i: int) -> FilterResult
        decreases self, 0nat,
    {
        if 0 <= i < self.filters@.len() {
            self.filters@[i].decide(entry)
        } else {
            FilterResult::Accept
        }
    }

    /// The decision of the first child at or behind index `from` that does
    /// not accept; accept where every one of them accepts.
    pub open spec fn first_refusal(self, entry: EntryView, from: int) -> FilterResult
        decreases self, self.filters@.len() - from + 1,
    {
        if 0 <= from < self.filters@.len() {
            if self.child(entry, from) != FilterResult::Accept {
                self.child(entry, from)
            } else {
                self.first_refusal(entry, from + 1)
            }
        } else {
            FilterResult::Accept
        }
    }

    /// Some child at or behind index `from` decides `wanted` on `entry`.
    pub open spec fn any_child(self, entry: EntryView, from: int, wanted: FilterResult) -> bool
        decreases self, self.filters@.len() - from + 1,
    {
        if 0 <= from < self.filters@.len() {
            self.child(entry, from) == wanted || self.any_child(entry, from + 1, wanted)
        } else {
            false
        }
    }

    /// The decision of the composite. Without children it accepts. Under
    /// `And` it is the first decision that is not an accept. Under `Or` it
    /// accepts where a child accepts, else prunes where a child prunes, else
    /// rejects.
    pub open spec fn decide(self, entry: EntryView) -> FilterResult
        decreases self, self.filters@.len() + 2,
    {
        if self.filters@.len() == 0 {
            FilterResult::Accept
        } else {
            match self.operation {
                FilterOperation::And => self.first_refusal(entry, 0),
                FilterOperation::Or => if self.any_child(entry, 0, FilterResult::Accept) {
                    FilterResult::Accept
                } else if self.any_child(entry, 0, FilterResult::Prune) {
                    FilterResult::Prune
                } else {
                    FilterResult::Reject
                },
            }
        }
    }

    /// A composite without children.
    pub fn new(operation: FilterOperation) -> (c: CompositeFilter)
        ensures
            c.filters@.len() == 0,
            c.operation == operation,
    {
        CompositeFilter { filters: Vec::new(), operation }
    }

    /// Adds `filter` behind the children already there.
    pub fn add_filter(&mut self, filter: Predicate)
        ensures
            final(self).filters@ == old(self).filters@.push(filter),
            final(self).operation == old(self).operation,
    {
        self.filters.push(filter);
    }

    /// The composite with `filter` added behind its children.
    pub fn with_filter(self, filter: Predicate) -> (c: CompositeFilter)
        ensures
            c.filters@ == self.filters@.push(filter),
            c.operation == self.operation,
    {
        let mut c = self;
        c.filters.push(filter);
        c
    }

    /// The composite of two predicates.
    pub fn new_with_filters(first: Predicate, second: Predicate, operation: FilterOperation) -> (c:
        CompositeFilter)
        ensures
            c.filters@ == seq![first, second],
            c.operation == operation,
    {
        let mut filters: Vec<Predicate> = Vec::new();
        filters.push(first);
        filters.push(second);
        CompositeFilter { filters, operation }
    }

    /// The conjunction of an extension predicate and a name predicate.
    pub fn with_extension_and_name(extension: &str, name: &str) -> (c: CompositeFilter)
        ensures
            c.operation == FilterOperation::And,
            c.filters@.len() == 2,
            c.filters@[0] is Extension,
            c.filters@[0]->Extension_0.wanted() == crate::filters::extension::strip_dots(
                extension@,
            ),
            c.filters@[1] is Name,
            c.filters@[1]->Name_0.wanted() == name@,
            !c.filters@[1]->Name_0.ignores_case(),
    {
        let mut c = CompositeFilter::new(FilterOperation::And);
        c.add_filter(Predicate::Extension(ExtensionFilter::new(extension)));
        c.add_filter(Predicate::Name(NameFilter::new(name)));
        c
    }

/// Applies the children to `entry` and combines their decisions.
    pub fn evaluate(&self, entry: &FileEntry) -> (r: FilterResult)
        ensures
            r == self.decide(entry@),
        decreases *self,
    {
        if self.filters.len() == 0 {
            return FilterResult::Accept;
        }
        match self.operation {
            FilterOperation::And => {
                let mut i: usize = 0;
                while i < self.filters.len()
                    invariant
                        i <= self.filters.len(),
                        self.filters@.len() > 0,
                        self.operation == FilterOperation::And,
                        self.decide(entry@) == self.first_refusal(entry@, i as int),
                    decreases self.filters.len() - i,
                {
                    let r = self.filters[i].evaluate(entry);
                    assert(r == self.child(entry@, i as int));
                    if r != FilterResult::Accept {
                        return r;
                    }
                    i = i + 1;
                }
                FilterResult::Accept
            },
            FilterOperation::Or => {
                let mut found_prune = false;
                let mut i: usize = 0;
                while i < self.filters.len()
                    invariant
                        i <= self.filters.len(),
                        self.filters@.len() > 0,
                        self.operation == FilterOperation::Or,
                        self.any_child(entry@, 0, FilterResult::Accept) == self.any_child(
                            entry@,
                            i as int,
                            FilterResult::Accept,
                        ),
                        self.any_child(entry@, 0, FilterResult::Prune) == (found_prune
                            || self.any_child(entry@, i as int, FilterResult::Prune)),
                    decreases self.filters.len() - i,
                {
                    let r = self.filters[i].evaluate(entry);
                    assert(r == self.child(entry@, i as int));
                    match r {
                        FilterResult::Accept => {
                            return FilterResult::Accept;
                        },
                        FilterResult::Prune => {
                            found_prune = true;
                        },
                        FilterResult::Reject => {},
                    }
                    i = i + 1;
                }
                if found_prune {
                    FilterResult::Prune
                } else {
                    FilterResult::Reject
                }
            },
        }
    }

    /// `any_child` from the first child on says that some child decides
    /// `wanted`.
    pub proof fn lemma_any_child(self, entry: EntryView, from: int, wanted: FilterResult)
        requires
            0 <= from,
        ensures
            self.any_child(entry, from, wanted) <==> exists|i: int|
                from <= i < self.filters@.len() && #[trigger] self.child(entry, i) == wanted,
        decreases self.filters@.len() - from,
    {
        if from < self.filters@.len() {
            self.lemma_any_child(entry, from + 1, wanted);
            if self.child(entry, from) == wanted {
            } else if self.any_child(entry, from + 1, wanted) {
            } else {
                assert forall|i: int| from <= i < self.filters@.len() implies #[trigger] self.child(
                    entry,
                    i,
                ) != wanted by {
                    if i > from {
                    }
                }
            }
        }
    }
}

impl Filter for Predicate {
    open spec fn spec_filter(&self, entry: EntryView) -> FilterResult {
        self.decide(entry)
    }

    fn filter(&self, entry: &FileEntry) -> (r: FilterResult) {
        self.evaluate(entry)
    }
}

impl Filter for CompositeFilter {
    open spec fn spec_filter(&self, entry: EntryView) -> FilterResult {
        self.decide(entry)
    }

    fn filter(&self, entry: &FileEntry) -> (r: FilterResult) {
        self.evaluate(entry)
    }
}

/// Two predicates of known types combined by one operation.
#[derive(Debug)]
pub struct TypedCompositeFilter<F1: Filter, F2: Filter> {
    pub filter1: F1,
    pub filter2: F2,
    pub operation: FilterOperation,
}

impl<F1: Filter, F2: Filter> TypedCompositeFilter<F1, F2> {
/// The combination of `filter1` and `filter2` by `operation`.
    pub fn new(filter1: F1, filter2: F2, operation: FilterOperation) -> (c: Self)
        ensures
            c.filter1 == filter1,
            c.filter2 == filter2,
            c.operation == operation,
    {
        TypedCompositeFilter { filter1, filter2, operation }
    }
}

impl<F1: Filter, F2: Filter> Filter for TypedCompositeFilter<F1, F2> {
    open spec fn spec_filter(&self, entry: EntryView) -> FilterResult {
        match self.operation {
            FilterOperation::And => and_then_result(
                self.filter1.spec_filter(entry),
                self.filter2.spec_filter(entry),
            ),
            FilterOperation::Or => or_else_result(
                self.filter1.spec_filter(entry),
                self.filter2.spec_filter(entry),
            ),
        }
    }

    fn filter(&self, entry: &FileEntry) -> (r: FilterResult) {
        match self.operation {
            FilterOperation::And => match self.filter1.filter(entry) {
                FilterResult::Accept => self.filter2.filter(entry),
                other => other,
            },
            FilterOperation::Or => match self.filter1.filter(entry) {
                FilterResult::Accept => FilterResult::Accept,
                FilterResult::Prune => match self.filter2.filter(entry) {
                    FilterResult::Accept => FilterResult::Accept,
                    _ => FilterResult::Prune,
                },
                FilterResult::Reject => self.filter2.filter(entry),
            },
        }
    }
}

} // verus!
