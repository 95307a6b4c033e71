//! The hash map and the hash set of the `rustc-hash` crate, as far as the
//! exporter uses them: keyed by integers, with the mathematical map or set of
//! their entries as the view.

use vstd::prelude::*;

use rustc_hash::{FxBuildHasher, FxHashMap, FxHashSet};

verus! {

#[verifier::external_type_specification]
#[verifier::external_body]
pub struct ExFxBuildHasher(FxBuildHasher);

/// `FxHashMap::default`: a map without entries.
#[verifier::external_body]
pub(crate) fn fx_new<V>() -> (m: FxHashMap<u128, V>)
    ensures
        (m@ == Map::<u128, V>::empty()),
{
    FxHashMap::default()
}

/// `HashMap::get` on an `FxHashMap`: the value of a key, if the key is there.
#[verifier::external_body]
pub(crate) fn fx_get<'a, V>(m: &'a FxHashMap<u128, V>, k: u128) -> (r: Option<&'a V>)
    ensures
        r == (if m@.contains_key(k) {
            Some(&m@[k])
        } else {
            None
        }),
{
    m.get(&k)
}

/// `HashMap::insert` on an `FxHashMap`: the key maps to the value afterwards and
/// all other entries stay as they are.
#[verifier::external_body]
pub(crate) fn fx_insert<V>(m: &mut FxHashMap<u128, V>, k: u128, v: V)
    ensures
        final(m)@ == old(m)@.insert(k, v),
{
    m.insert(k, v);
}

/// `HashMap::keys` on an `FxHashMap`: every key once, in no order that is stated.
#[verifier::external_body]
pub(crate) fn fx_keys<V>(m: &FxHashMap<u128, V>) -> (r: Vec<u128>)
    ensures
        r@.to_set() == m@.dom(),
        r@.no_duplicates(),
{
    m.keys().copied().collect()
}

/// `FxHashSet::default`: a set without elements.
#[verifier::external_body]
pub(crate) fn fx_set_new() -> (s: FxHashSet<u128>)
    ensures
        s@ == Set::<u128>::empty(),
{
    FxHashSet::default()
}

/// `HashSet::contains` on an `FxHashSet`.
#[verifier::external_body]
pub(crate) fn fx_set_contains(s: &FxHashSet<u128>, k: u128) -> (r: bool)
    ensures
        r == s@.contains(k),
{
    s.contains(&k)
}

/// `HashSet::insert` on an `FxHashSet`: the element is in the set afterwards,
/// and the result says whether it was not before.
#[verifier::external_body]
pub(crate) fn fx_set_insert(s: &mut FxHashSet<u128>, k: u128) -> (fresh: bool)
    ensures
        final(s)@ == old(s)@.insert(k),
        fresh == !old(s)@.contains(k),
{
    s.insert(k)
}

} // verus!
