//! The persistent (structurally shared) map backing the type environment.
//!
//! The map itself comes from the `im` crate; these are the trusted
//! declarations through which the verified code sees it.

use vstd::prelude::*;

verus! {

#[verifier::external_type_specification]
#[verifier::external_body]
#[verifier::reject_recursive_types(K)]
#[verifier::reject_recursive_types(V)]
pub struct ExOrdMap<K, V>(im::OrdMap<K, V>);

/// The persistent map type as the environment uses it: interned-name symbol
/// to slot index.
pub type EnvMap = im::OrdMap<u64, u64>;

/// What the persistent map holds.
pub uninterp spec fn ord_map_entries(m: EnvMap) -> Map<u64, u64>;

/// The empty environment contents.
pub open spec fn no_entries() -> Map<u64, u64> {
    Map::empty()
}

/// Relies on im::OrdMap::new: constructs the empty map.
#[verifier::external_body]
pub fn ord_map_new() -> (r: EnvMap)
    ensures
        ord_map_entries(r) == no_entries(),
{
    im::OrdMap::new()
}

/// Relies on im::OrdMap::get: the value at a key, if the key is bound.
#[verifier::external_body]
pub fn ord_map_get(m: &EnvMap, key: u64) -> (r: Option<u64>)
    ensures
        r == if ord_map_entries(*m).dom().contains(key) {
            Some(ord_map_entries(*m)[key])
        } else {
            None::<u64>
        },
{
    m.get(&key).copied()
}

/// Relies on im::OrdMap::insert: adds or replaces a binding in place,
/// returning the value the key held before, if any.
#[verifier::external_body]
pub fn ord_map_insert(m: &mut EnvMap, key: u64, value: u64) -> (r: Option<u64>)
    ensures
        ord_map_entries(*final(m)) == ord_map_entries(*old(m)).insert(key, value),
        r == if ord_map_entries(*old(m)).dom().contains(key) {
            Some(ord_map_entries(*old(m))[key])
        } else {
            None::<u64>
        },
{
    m.insert(key, value)
}

} // verus!
