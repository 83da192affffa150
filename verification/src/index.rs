//! The ordered map from element IDs to seek positions.

use std::collections::BTreeMap;
use vstd::prelude::*;

verus! {

broadcast use {vstd::laws_cmp::group_laws_cmp, vstd::std_specs::btree::group_btree_axioms};

/// Records that the element `id` is found at `position`, in place of what
/// was recorded for it before.
pub fn record(table: &mut BTreeMap<u32, u64>, id: u32, position: u64)
    ensures
        final(table)@ == old(table)@.insert(id, position),
{
    table.insert(id, position);
}

/// Takes the entry for `id` out of the table, if there is one.
pub fn take(table: &mut BTreeMap<u32, u64>, id: u32) -> (position: Option<u64>)
    ensures
        match position {
            Some(p) => old(table)@.contains_key(id) && old(table)@[id] == p,
            None => !old(table)@.contains_key(id),
        },
        final(table)@ == old(table)@.remove(id),
{
    table.remove(&id)
}

/// The position recorded for `id`, if there is one.
pub fn lookup(table: &BTreeMap<u32, u64>, id: u32) -> (position: Option<u64>)
    ensures
        match position {
            Some(p) => table@.contains_key(id) && table@[id] == p,
            None => !table@.contains_key(id),
        },
{
    match table.get(&id) {
        Some(p) => Some(*p),
        None => None,
    }
}

} // verus!
