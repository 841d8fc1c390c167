//! Maps hashed with FNV, as the `fnv` crate provides them, and the few of
//! their operations that the mempool uses.
use crate::msg::Digest;
use fnv::{FnvHashMap, FnvHasher};
use std::hash::BuildHasherDefault;
use vstd::prelude::*;

verus! {

#[verifier::external_type_specification]
#[verifier::external_body]
pub struct ExFnvHasher(FnvHasher);

#[verifier::external_type_specification]
#[verifier::external_body]
#[verifier::reject_recursive_types(H)]
pub struct ExBuildHasherDefault<H>(BuildHasherDefault<H>);

/// The key types of the mempool's maps: plain values whose `==` and `Hash`
/// are std's own, so that two keys are the same entry exactly when they are
/// equal.
pub trait MapKey: Copy + Eq + std::hash::Hash {

}

impl MapKey for usize {

}

impl MapKey for Digest {

}

/// Relies on `HashMap::default` (with `fnv::FnvBuildHasher`): the map is empty.
#[verifier::external_body]
pub(crate) fn map_new<K: MapKey, V>() -> (m: FnvHashMap<K, V>)
    ensures
        m@.dom().is_empty(),
{
    FnvHashMap::default()
}

/// Relies on `HashMap::contains_key`: whether the key is mapped.
#[verifier::external_body]
pub(crate) fn map_contains<K: MapKey, V>(m: &FnvHashMap<K, V>, k: &K) -> (r: bool)
    ensures
        r == m@.contains_key(*k),
{
    m.contains_key(k)
}

/// Relies on `HashMap::get`: the value of the key, if any (copied out).
#[verifier::external_body]
pub(crate) fn map_get<K: MapKey, V: Copy>(m: &FnvHashMap<K, V>, k: &K) -> (r: Option<V>)
    ensures
        m@.contains_key(*k) ==> r == Some(m@[*k]),
        !m@.contains_key(*k) ==> r is None,
{
    m.get(k).copied()
}

/// Relies on `HashMap::insert`: the key is mapped to the value afterwards,
/// every other key keeps its value.
#[verifier::external_body]
pub(crate) fn map_insert<K: MapKey, V>(m: &mut FnvHashMap<K, V>, k: K, v: V)
    ensures
        final(m)@ == old(m)@.insert(k, v),
{
    m.insert(k, v);
}

/// Relies on `HashMap::remove`: the value of the key is handed out, if any,
/// and the key is gone afterwards.
#[verifier::external_body]
pub(crate) fn map_remove<K: MapKey, V>(m: &mut FnvHashMap<K, V>, k: &K) -> (r: Option<V>)
    ensures
        final(m)@ == old(m)@.remove(*k),
        old(m)@.contains_key(*k) ==> r == Some(old(m)@[*k]),
        !old(m)@.contains_key(*k) ==> r is None,
{
    m.remove(k)
}

/// Relies on `HashMap::clear`: the map is empty afterwards.
#[verifier::external_body]
pub(crate) fn map_clear<K: MapKey, V>(m: &mut FnvHashMap<K, V>)
    ensures
        final(m)@.dom().is_empty(),
{
    m.clear();
}

/// Relies on `HashMap::keys`: every key once, in some order.
#[verifier::external_body]
pub(crate) fn map_keys<K: MapKey, V>(m: &FnvHashMap<K, V>) -> (r: Vec<K>)
    ensures
        r@.no_duplicates(),
        forall|k: K| #[trigger] r@.contains(k) <==> m@.contains_key(k),
{
    m.keys().copied().collect()
}

} // verus!
