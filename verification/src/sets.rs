//! Sets of row ids.
use vstd::prelude::*;
use std::collections::BTreeSet;

verus! {

/// Whether `id` is in `ids`.
pub fn has_id(ids: &BTreeSet<u64>, id: u64) -> (r: bool)
    ensures
        r == ids@.contains(id),
{
    broadcast use vstd::std_specs::btree::group_btree_axioms, vstd::laws_cmp::group_laws_cmp;
    ids.contains(&id)
}

/// Adds `id` to `ids`.
pub fn add_id(ids: &mut BTreeSet<u64>, id: u64)
    ensures
        final(ids)@ == old(ids)@.insert(id),
{
    broadcast use vstd::std_specs::btree::group_btree_axioms, vstd::laws_cmp::group_laws_cmp;
    ids.insert(id);
}

/// An empty set of ids.
pub fn no_ids() -> (r: BTreeSet<u64>)
    ensures
        r@ == Set::<u64>::empty(),
{
    BTreeSet::new()
}

} // verus!
