//! The container's laws, as proof functions.
//!
//! Each law relates states of a [`TypeMap`] as the operations' contracts
//! describe them: an insert leaves the view `pre@.insert(k, s)`, a remove
//! leaves `pre@.remove(k)`, a clear leaves the empty map, and a mutation
//! through `get_mut` leaves `pre@.insert(k, s)` with `s` the written slot.
//! The laws say what the next lookup of any key then finds.

use core::any::TypeId;
use vstd::prelude::*;

use crate::erased::Slot;
use crate::typemap::TypeMap;

verus! {

/// Inserting under a key and then looking the same key up finds exactly the
/// slot inserted.
pub proof fn lemma_insert_then_get(pre: TypeMap, post: TypeMap, k: TypeId, s: Slot)
    requires
        post@ == pre@.insert(k, s),
    ensures
        post@.contains_key(k),
        post@[k] == s,
{
}

/// Inserting under one key leaves every other key exactly as it was:
/// neither its presence nor its slot changes.
pub proof fn lemma_insert_other_key_unchanged(
    pre: TypeMap,
    post: TypeMap,
    k: TypeId,
    s: Slot,
    other: TypeId,
)
    requires
        post@ == pre@.insert(k, s),
        other != k,
    ensures
        post@.contains_key(other) == pre@.contains_key(other),
        pre@.contains_key(other) ==> post@[other] == pre@[other],
{
}

/// Inserting twice under one key replaces: at the second insert the key is
/// present and holds the first slot (so the second insert hands the first
/// slot back), and afterwards a lookup finds the second slot.
pub proof fn lemma_insert_replace(
    pre: TypeMap,
    mid: TypeMap,
    post: TypeMap,
    k: TypeId,
    s1: Slot,
    s2: Slot,
)
    requires
        mid@ == pre@.insert(k, s1),
        post@ == mid@.insert(k, s2),
    ensures
        mid@.contains_key(k),
        mid@[k] == s1,
        post@.contains_key(k),
        post@[k] == s2,
{
}

/// After a removal the key is gone: a lookup finds nothing, and a second
/// removal finds nothing and changes nothing.
pub proof fn lemma_remove_then_get(pre: TypeMap, post: TypeMap, k: TypeId)
    requires
        post@ == pre@.remove(k),
    ensures
        !post@.contains_key(k),
        post@.remove(k) == post@,
{
    assert(post@.remove(k) =~= post@);
}

/// After a clear no key is present at all.  (That a later insert works as
/// ever is `insert`'s own contract, which asks nothing of the map's state.)
pub proof fn lemma_clear_empties(post: TypeMap, k: TypeId)
    requires
        post@ == Map::<TypeId, Slot>::empty(),
    ensures
        !post@.contains_key(k),
{
}

/// A mutation in place is observed: writing a present key's slot through
/// `get_mut`'s reference leaves the map with that slot under the key and
/// with the same keys as before, and the next lookup of the key finds the
/// written slot.
pub proof fn lemma_mutation_observed(pre: TypeMap, post: TypeMap, k: TypeId, s: Slot)
    requires
        pre@.contains_key(k),
        post@ == pre@.insert(k, s),
    ensures
        post@.contains_key(k),
        post@[k] == s,
        post@.dom() == pre@.dom(),
{
    assert(post@.dom() =~= pre@.dom());
}

} // verus!
