//! The verified backing store: an association list from type identifier to
//! type-erased holder, viewed as a `Map<TypeId, Slot>`.
//!
//! The store's well-formedness — no two entries share a type identifier —
//! is established by the constructor and proved preserved by every
//! operation, and every operation's contract is stated over the map view.

use core::any::TypeId;
use vstd::prelude::*;

use crate::erased::Slot;
use crate::erased::type_id_eq;

verus! {

/// One stored entry: a type identifier and the erased value filed under it.
struct Entry {
    key: TypeId,
    slot: Slot,
}

/// The association map described by a sequence of entries; a later entry
/// shadows an earlier one with the same key (the store's invariant rules
/// that case out).
spec fn map_of(s: Seq<Entry>) -> Map<TypeId, Slot>
    decreases s.len(),
{
    if s.len() == 0 {
        Map::empty()
    } else {
        map_of(s.drop_last()).insert(s.last().key, s.last().slot)
    }
}

/// No two entries share a key.
spec fn unique_keys(s: Seq<Entry>) -> bool {
    forall|i: int, j: int| 0 <= i < j < s.len() ==> s[i].key != s[j].key
}

/// How `map_of` relates to the entries themselves: a key is in the map
/// exactly when some entry carries it, and under unique keys that entry's
/// slot is the key's value.
proof fn lemma_map_of(s: Seq<Entry>)
    ensures
        forall|k: TypeId| #[trigger] map_of(s).contains_key(k) ==> exists|i: int|
            0 <= i < s.len() && s[i].key == k,
        forall|i: int| 0 <= i < s.len() ==> map_of(s).contains_key(#[trigger] s[i].key),
        unique_keys(s) ==> forall|i: int|
            0 <= i < s.len() ==> map_of(s)[#[trigger] s[i].key] == s[i].slot,
    decreases s.len(),
{
    if s.len() > 0 {
        let t = s.drop_last();
        lemma_map_of(t);
        assert forall|k: TypeId| #[trigger] map_of(s).contains_key(k) implies exists|i: int|
            0 <= i < s.len() && s[i].key == k by {
            if k == s.last().key {
                assert(s[s.len() - 1].key == k);
            } else {
                let i = choose|i: int| 0 <= i < t.len() && t[i].key == k;
                assert(s[i].key == k);
            }
        }
        assert forall|i: int| 0 <= i < s.len() implies map_of(s).contains_key(
            #[trigger] s[i].key,
        ) by {
            if i < s.len() - 1 {
                assert(t[i].key == s[i].key);
                assert(map_of(t).contains_key(s[i].key));
            }
        }
        if unique_keys(s) {
            assert(unique_keys(t));
            assert forall|i: int| 0 <= i < s.len() implies map_of(s)[#[trigger] s[i].key]
                == s[i].slot by {
                if i < s.len() - 1 {
                    assert(s[i].key != s.last().key);
                    assert(t[i].key == s[i].key && t[i].slot == s[i].slot);
                }
            }
        }
    }
}

/// The backing store.  Created empty; its single field is the entry list,
/// whose keys well-formedness keeps pairwise distinct.
pub struct Store {
    entries: Vec<Entry>,
}

impl View for Store {
    type V = Map<TypeId, Slot>;

    closed spec fn view(&self) -> Map<TypeId, Slot> {
        map_of(self.entries@)
    }
}

impl Store {
    /// Well-formedness: no two entries share a type identifier.  Every
    /// constructor establishes it and every method preserves it.
    pub closed spec fn wf(&self) -> bool {
        unique_keys(self.entries@)
    }

    /// An empty store.
    pub fn new() -> (r: Store)
        ensures
            r@ == Map::<TypeId, Slot>::empty(),
            r.wf(),
    {
        Store { entries: Vec::new() }
    }

    /// The position of the entry carrying `key`, if any.
    fn find(&self, key: &TypeId) -> (r: Option<usize>)
        ensures
            match r {
                Some(i) => i < self.entries@.len() && self.entries@[i as int].key == *key,
                None => !self@.contains_key(*key),
            },
    {
        let n = self.entries.len();
        let mut i: usize = 0;
        while i < n
            invariant
                n == self.entries@.len(),
                i <= n,
                forall|j: int| 0 <= j < i ==> self.entries@[j].key != *key,
            decreases n - i,
        {
            if type_id_eq(&self.entries[i].key, key) {
                return Some(i);
            }
            i = i + 1;
        }
        proof {
            lemma_map_of(self.entries@);
        }
        None
    }

    /// File `slot` under `key`.  An already-present slot for the same key is
    /// replaced and handed back; any other key is untouched.
    pub fn insert_slot(&mut self, key: TypeId, slot: Slot) -> (r: Option<Slot>)
        requires
            old(self).wf(),
        ensures
            final(self).wf(),
            final(self)@ == old(self)@.insert(key, slot),
            r is Some <==> old(self)@.contains_key(key),
            r matches Some(prev) ==> prev == old(self)@[key],
    {
        proof {
            lemma_map_of(self.entries@);
        }
        let ghost s0 = self.entries@;
        match self.find(&key) {
            Some(i) => {
                let mut e = Entry { key, slot };
                core::mem::swap(&mut self.entries[i], &mut e);
                proof {
                    let s1 = self.entries@;
                    assert(s1 == s0.update(i as int, Entry { key, slot }));
                    assert(forall|j: int| 0 <= j < s1.len() ==> s1[j].key == s0[j].key);
                    assert(unique_keys(s1));
                    lemma_map_of(s1);
                    assert forall|k: TypeId| #[trigger] map_of(s1).contains_key(k)
                        <==> map_of(s0).insert(key, slot).contains_key(k) by {
                        if map_of(s1).contains_key(k) {
                            let j = choose|j: int| 0 <= j < s1.len() && s1[j].key == k;
                            assert(map_of(s0).contains_key(s0[j].key));
                        }
                        if map_of(s0).contains_key(k) {
                            let j = choose|j: int| 0 <= j < s0.len() && s0[j].key == k;
                            assert(map_of(s1).contains_key(s1[j].key));
                        }
                    }
                    assert forall|k: TypeId|
                        map_of(s1).contains_key(k) && k != key implies #[trigger] map_of(s1)[k]
                        == map_of(s0)[k] by {
                        let j = choose|j: int| 0 <= j < s1.len() && s1[j].key == k;
                        assert(j != i);
                        assert(s1[j] == s0[j]);
                        assert(map_of(s1)[s1[j].key] == s1[j].slot);
                        assert(map_of(s0)[s0[j].key] == s0[j].slot);
                    }
                    assert(map_of(s1)[s1[i as int].key] == s1[i as int].slot);
                    assert(map_of(s1) =~= map_of(s0).insert(key, slot));
                }
                Some(e.slot)
            },
            None => {
                proof {
                    assert(forall|j: int| 0 <= j < s0.len() ==> s0[j].key != key);
                }
                self.entries.push(Entry { key, slot });
                proof {
                    let s1 = self.entries@;
                    assert(s1.drop_last() =~= s0);
                    assert(s1.last() == Entry { key, slot });
                    assert(map_of(s1) == map_of(s0).insert(key, slot));
                }
                None
            },
        }
    }

    /// Take the slot filed under `key` out of the store, if any.
    pub fn remove_slot(&mut self, key: &TypeId) -> (r: Option<Slot>)
        requires
            old(self).wf(),
        ensures
            final(self).wf(),
            final(self)@ == old(self)@.remove(*key),
            r is Some <==> old(self)@.contains_key(*key),
            r matches Some(prev) ==> prev == old(self)@[*key],
    {
        proof {
            lemma_map_of(self.entries@);
        }
        let ghost s0 = self.entries@;
        match self.find(key) {
            Some(i) => {
                let e = self.entries.swap_remove(i);
                proof {
                    let s1 = self.entries@;
                    assert(s1 == s0.update(i as int, s0.last()).drop_last());
                    assert(e == s0[i as int]);
                    assert forall|l: int, j: int| 0 <= l < j < s1.len() implies s1[l].key
                        != s1[j].key by {
                        assert(s1[l] == if l == i { s0[s0.len() - 1] } else { s0[l] });
                        assert(s1[j] == if j == i { s0[s0.len() - 1] } else { s0[j] });
                    }
                    assert(unique_keys(s1));
                    lemma_map_of(s1);
                    assert forall|k: TypeId| #[trigger] map_of(s1).contains_key(k)
                        <==> (map_of(s0).contains_key(k) && k != *key) by {
                        if map_of(s1).contains_key(k) {
                            let j = choose|j: int| 0 <= j < s1.len() && s1[j].key == k;
                            let j0: int = if j == i { s0.len() - 1 } else { j };
                            assert(s1[j] == s0[j0]);
                            assert(map_of(s0).contains_key(s0[j0].key));
                            assert(j0 != i);
                        }
                        if map_of(s0).contains_key(k) && k != *key {
                            let j = choose|j: int| 0 <= j < s0.len() && s0[j].key == k;
                            assert(j != i);
                            if j == s0.len() - 1 {
                                assert(i < s0.len() - 1);
                                assert(s1[i as int].key == k);
                            } else {
                                assert(s1[j].key == k);
                            }
                        }
                    }
                    assert forall|k: TypeId|
                        map_of(s1).contains_key(k) implies #[trigger] map_of(s1)[k] == map_of(
                        s0,
                    )[k] by {
                        let j = choose|j: int| 0 <= j < s1.len() && s1[j].key == k;
                        let j0: int = if j == i { s0.len() - 1 } else { j };
                        assert(s1[j] == s0[j0]);
                        assert(map_of(s1)[s1[j].key] == s1[j].slot);
                        assert(map_of(s0)[s0[j0].key] == s0[j0].slot);
                    }
                    assert(map_of(s1) =~= map_of(s0).remove(*key));
                }
                Some(e.slot)
            },
            None => {
                proof {
                    assert(map_of(s0).remove(*key) =~= map_of(s0));
                }
                None
            },
        }
    }

    /// A mutable reference to the slot filed under `key`, if any.  What the
    /// caller writes through the reference becomes the key's value; the rest
    /// of the store is untouched.
    pub fn get_slot_mut(&mut self, key: &TypeId) -> (r: Option<&mut Slot>)
        requires
            old(self).wf(),
        ensures
            final(self).wf(),
            r is None ==> !old(self)@.contains_key(*key) && final(self)@ == old(self)@,
            r is Some ==> old(self)@.contains_key(*key) && *r.unwrap() == old(self)@[*key]
                && final(self)@ == old(self)@.insert(*key, *final(r.unwrap())),
            r is Some ==> final(self)@.dom() == old(self)@.dom(),
            r is Some ==> (*final(r.unwrap()) == old(self)@[*key] ==> final(self)@ == old(
                self,
            )@),
    {
        proof {
            lemma_map_of(self.entries@);
        }
        let ghost s0 = self.entries@;
        match self.find(key) {
            Some(i) => {
                let ghost k = *key;
                let r = &mut self.entries[i].slot;
                proof {
                    let s1 = s0.update(i as int, Entry { key: s0[i as int].key, slot: *final(r) });
                    assert(forall|j: int| 0 <= j < s1.len() ==> s1[j].key == s0[j].key);
                    assert(unique_keys(s1));
                    lemma_map_of(s1);
                    assert forall|kk: TypeId| #[trigger] map_of(s1).contains_key(kk)
                        <==> map_of(s0).insert(k, *final(r)).contains_key(kk) by {
                        if map_of(s1).contains_key(kk) {
                            let j = choose|j: int| 0 <= j < s1.len() && s1[j].key == kk;
                            assert(map_of(s0).contains_key(s0[j].key));
                        }
                        if map_of(s0).contains_key(kk) {
                            let j = choose|j: int| 0 <= j < s0.len() && s0[j].key == kk;
                            assert(map_of(s1).contains_key(s1[j].key));
                        }
                    }
                    assert forall|kk: TypeId|
                        map_of(s1).contains_key(kk) && kk != k implies #[trigger] map_of(s1)[kk]
                        == map_of(s0)[kk] by {
                        let j = choose|j: int| 0 <= j < s1.len() && s1[j].key == kk;
                        assert(j != i);
                        assert(s1[j] == s0[j]);
                        assert(map_of(s1)[s1[j].key] == s1[j].slot);
                        assert(map_of(s0)[s0[j].key] == s0[j].slot);
                    }
                    assert(map_of(s1)[s1[i as int].key] == s1[i as int].slot);
                    assert(map_of(s1) =~= map_of(s0).insert(k, *final(r)));
                    assert(map_of(s1).dom() =~= map_of(s0).dom());
                    assert(*final(r) == map_of(s0)[k] ==> (map_of(s1) =~= map_of(s0)));
                }
                Some(r)
            },
            None => None,
        }
    }

    /// Empty the store, keeping its allocation for reuse.
    pub fn clear_slots(&mut self)
        ensures
            final(self)@ == Map::<TypeId, Slot>::empty(),
            final(self).wf(),
    {
        self.entries.clear();
    }

    /// A reference to the slot filed under `key`, if any.
    pub fn get_slot(&self, key: &TypeId) -> (r: Option<&Slot>)
        requires
            self.wf(),
        ensures
            match r {
                Some(s) => self@.contains_key(*key) && *s == self@[*key],
                None => !self@.contains_key(*key),
            },
    {
        match self.find(key) {
            Some(i) => {
                proof {
                    lemma_map_of(self.entries@);
                }
                Some(&self.entries[i].slot)
            },
            None => None,
        }
    }
}

} // verus!
