use vstd::prelude::*;
use dashmap::DashMap;

verus! {

#[verifier::external_type_specification]
#[verifier::external_body]
#[verifier::reject_recursive_types(K)]
#[verifier::reject_recursive_types(V)]
#[verifier::reject_recursive_types(S)]
pub struct ExDashMap<K, V, S>(DashMap<K, V, S>);

/// The price levels that a store holds: price to quantity.
pub uninterp spec fn store_levels(m: DashMap<u64, u32>) -> Map<u64, u32>;

/// Relies on `DashMap::new`: a new map holds no entry.
#[verifier::external_body]
pub(crate) fn store_new() -> (r: DashMap<u64, u32>)
    ensures
        store_levels(r) =~= Map::empty(),
{
    DashMap::new()
}

/// Relies on `DashMap::clear`: every entry is removed.
#[verifier::external_body]
pub(crate) fn store_clear(m: &mut DashMap<u64, u32>)
    ensures
        store_levels(*final(m)) =~= Map::empty(),
{
    m.clear();
}

/// Relies on `DashMap::insert`: the key maps to the value afterwards, other keys are untouched.
#[verifier::external_body]
pub(crate) fn store_insert(m: &mut DashMap<u64, u32>, price: u64, quantity: u32)
    ensures
        store_levels(*final(m)) == store_levels(*old(m)).insert(price, quantity),
{
    m.insert(price, quantity);
}

/// Relies on `DashMap::remove`: the key is absent afterwards, other keys are untouched.
#[verifier::external_body]
pub(crate) fn store_remove(m: &mut DashMap<u64, u32>, price: u64)
    ensures
        store_levels(*final(m)) == store_levels(*old(m)).remove(price),
{
    m.remove(&price);
}

/// Relies on `DashMap::iter`: each entry is visited once, in an unspecified order.
#[verifier::external_body]
pub(crate) fn store_entries(m: &DashMap<u64, u32>) -> (r: Vec<(u64, u32)>)
    ensures
        forall|i: int|
            0 <= i < r@.len() ==> #[trigger] store_levels(*m).contains_key(r@[i].0)
                && store_levels(*m)[r@[i].0] == r@[i].1,
        forall|i: int, j: int| 0 <= i < j < r@.len() ==> #[trigger] r@[i].0 != #[trigger] r@[j].0,
        forall|p: u64|
            #[trigger] store_levels(*m).contains_key(p) ==> exists|i: int|
                0 <= i < r@.len() && #[trigger] r@[i].0 == p,
{
    m.iter().map(|e| (*e.key(), *e.value())).collect()
}

} // verus!
