//! The concurrent collections of `dashmap`, seen through the contracts that this library relies on.
//!
//! `dashmap` lets a shared reference change a collection. Here every change goes through an
//! exclusive reference, so what a collection holds is a function of its value.

use dashmap::DashMap;
use dashmap::DashSet;
use vstd::prelude::*;

use crate::text::texts;

verus! {

/// `dashmap::DashMap`, opaque.
#[verifier::external_type_specification]
#[verifier::external_body]
#[verifier::reject_recursive_types(K)]
#[verifier::reject_recursive_types(V)]
#[verifier::reject_recursive_types(S)]
pub struct ExDashMap<K, V, S>(DashMap<K, V, S>);

/// `dashmap::DashSet`, opaque.
#[verifier::external_type_specification]
#[verifier::external_body]
#[verifier::reject_recursive_types(K)]
#[verifier::reject_recursive_types(S)]
pub struct ExDashSet<K, S>(DashSet<K, S>);

/// What an index holds: a position for each key, the key by its characters.
pub uninterp spec fn index_of(m: DashMap<String, usize>) -> Map<Seq<char>, usize>;

/// What a set of names holds, each name by its characters.
pub uninterp spec fn set_of(s: DashSet<String>) -> Set<Seq<char>>;

/// A set is finite and has `n` elements.
pub open spec fn has_size(s: Set<Seq<char>>, n: nat) -> bool {
    s.finite() && s.len() == n
}

/// `DashMap::new`: a map without entries.
#[verifier::external_body]
pub(crate) fn index_new() -> (m: DashMap<String, usize>)
    ensures
        (index_of(m) == Map::<Seq<char>, usize>::empty()),
{
    DashMap::new()
}

/// `DashMap::get`: the value under `key`, or nothing where the map has no such key.
#[verifier::external_body]
pub(crate) fn index_get(m: &DashMap<String, usize>, key: &str) -> (r: Option<usize>)
    ensures
        r == index_of(*m).get(key@),
{
    m.get(key).map(|at| *at.value())
}

/// `DashMap::contains_key`: whether the map has an entry under `key`.
#[verifier::external_body]
pub(crate) fn index_contains(m: &DashMap<String, usize>, key: &str) -> (r: bool)
    ensures
        r == index_of(*m).contains_key(key@),
{
    m.contains_key(key)
}

/// `DashMap::insert`: the entry under `key` becomes `at`, whether or not there was one.
#[verifier::external_body]
pub(crate) fn index_insert(m: &mut DashMap<String, usize>, key: String, at: usize)
    ensures
        index_of(*final(m)) == index_of(*old(m)).insert(key@, at),
{
    m.insert(key, at);
}

/// `DashMap::remove`: takes the entry under `key` out, and gives its value back.
#[verifier::external_body]
pub(crate) fn index_remove(m: &mut DashMap<String, usize>, key: &str) -> (r: Option<usize>)
    ensures
        index_of(*final(m)) == index_of(*old(m)).remove(key@),
        r == index_of(*old(m)).get(key@),
{
    m.remove(key).map(|entry| entry.1)
}

/// `DashMap::clear`: the map has no entries afterwards.
#[verifier::external_body]
pub(crate) fn index_clear(m: &mut DashMap<String, usize>)
    ensures
        (index_of(*final(m)) == Map::<Seq<char>, usize>::empty()),
{
    m.clear();
}

/// `DashSet::new`: a set without names.
#[verifier::external_body]
pub(crate) fn set_new() -> (s: DashSet<String>)
    ensures
        set_of(s) == Set::<Seq<char>>::empty(),
{
    DashSet::new()
}

/// `DashSet::insert`: puts `name` in, and says whether it was absent before.
#[verifier::external_body]
pub(crate) fn set_insert(s: &mut DashSet<String>, name: String) -> (r: bool)
    ensures
        set_of(*final(s)) == set_of(*old(s)).insert(name@),
        r == !set_of(*old(s)).contains(name@),
{
    s.insert(name)
}

/// `DashSet::remove`: takes `name` out, and says whether it was there.
#[verifier::external_body]
pub(crate) fn set_remove(s: &mut DashSet<String>, name: &str) -> (r: bool)
    ensures
        set_of(*final(s)) == set_of(*old(s)).remove(name@),
        r == set_of(*old(s)).contains(name@),
{
    s.remove(name).is_some()
}

/// `DashSet::contains`: whether `name` is in the set.
#[verifier::external_body]
pub(crate) fn set_contains(s: &DashSet<String>, name: &str) -> (r: bool)
    ensures
        r == set_of(*s).contains(name@),
{
    s.contains(name)
}

/// `DashSet::len`: the number of names in the set, which is finite.
#[verifier::external_body]
pub(crate) fn set_len(s: &DashSet<String>) -> (r: usize)
    ensures
        has_size(set_of(*s), r as nat),
{
    s.len()
}

/// `DashSet::iter`: every name of the set once. The order in which the set is walked is not
/// stated: it differs from run to run.
#[verifier::external_body]
pub(crate) fn set_items(s: &DashSet<String>) -> (r: Vec<String>)
    ensures
        texts(r@).no_duplicates(),
        texts(r@).to_set() == set_of(*s),
{
    s.iter().map(|name| name.key().clone()).collect()
}

} // verus!
