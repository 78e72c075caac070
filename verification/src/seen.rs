//! The files that a running search has matched, by key. The keys are held
//! in a `dashmap::DashMap`, as the worker threads of the search share them.

use vstd::prelude::*;

verus! {

/// `dashmap::DashMap`, a concurrent hash map; what it holds is known only
/// through `held`.
#[verifier::external_type_specification]
#[verifier::external_body]
#[verifier::reject_recursive_types(K)]
#[verifier::reject_recursive_types(V)]
#[verifier::reject_recursive_types(S)]
pub struct ExDashMap<K, V, S>(dashmap::DashMap<K, V, S>);

/// What a `DashMap` from keys to paths holds.
pub uninterp spec fn held(keys: dashmap::DashMap<String, String>) -> Map<Seq<char>, Seq<char>>;

/// The map that holds nothing.
pub open spec fn nothing() -> Map<Seq<char>, Seq<char>> {
    Map::empty()
}

/// `DashMap::new`: a map that holds nothing.
#[verifier::external_body]
pub(crate) fn new_map() -> (made: dashmap::DashMap<String, String>)
    ensures
        held(made) == nothing(),
{
    dashmap::DashMap::new()
}

/// `DashMap::contains_key`: whether the map holds an entry under `key`.
#[verifier::external_body]
pub(crate) fn holds_key(keys: &dashmap::DashMap<String, String>, key: &String) -> (r: bool)
    ensures
        r == held(*keys).dom().contains(key@),
{
    keys.contains_key(key)
}

/// `DashMap::insert`: puts `path` under `key`, in place of what was there,
/// and hands back what was there.
#[verifier::external_body]
pub(crate) fn put(keys: &mut dashmap::DashMap<String, String>, key: String, path: String) -> (was:
    Option<String>)
    ensures
        held(*final(keys)) == held(*old(keys)).insert(key@, path@),
        match was {
            Some(p) => held(*old(keys)).dom().contains(key@) && held(*old(keys))[key@] == p@,
            None => !held(*old(keys)).dom().contains(key@),
        },
{
    keys.insert(key, path)
}

} // verus!
