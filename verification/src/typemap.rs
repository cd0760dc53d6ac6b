//! The public container: typed access to the backing store.
//!
//! Every method computes the type identifier of `T`, goes to the verified
//! backing store with it, and crosses the trusted erasure boundary only to
//! wrap a value on the way in or to recover one on the way out.  Because a
//! type's identifier is known only at run time, the contracts name the
//! identifier a call used existentially; everything said about the store's
//! map view under that identifier is proved.

use core::any::TypeId;
use vstd::prelude::*;

use crate::erased::Slot;
use crate::store::Store;

verus! {

/// A container holding at most one value per distinct type, keyed by the
/// type's runtime identifier.  The backing store is absent until the first
/// insertion, so a fresh map costs no heap allocation.
pub struct TypeMap {
    store: Option<Store>,
}

impl View for TypeMap {
    type V = Map<TypeId, Slot>;

    closed spec fn view(&self) -> Map<TypeId, Slot> {
        match self.store {
            Some(st) => st@,
            None => Map::empty(),
        }
    }
}

impl TypeMap {
    /// Whether the backing store has been allocated.  A fresh map has none;
    /// the first insertion allocates it, and `clear` keeps it.
    pub closed spec fn allocated(&self) -> bool {
        self.store is Some
    }

    /// Well-formedness: the backing store, if present, is well-formed.
    pub closed spec fn wf(&self) -> bool {
        match self.store {
            Some(st) => st.wf(),
            None => true,
        }
    }

    /// Make a new `TypeMap`, with no backing store and nothing in it.
    pub fn new() -> (r: TypeMap)
        ensures
            r@ == Map::<TypeId, Slot>::empty(),
            !r.allocated(),
            r.wf(),
    {
        TypeMap { store: None }
    }

    /// Insert a value into the map under its type's identifier.  If a value
    /// of the same type was present, it is replaced and returned.  The first
    /// insertion ever allocates the backing store.
    pub fn insert<T: Send + Sync + 'static>(&mut self, val: T) -> (r: Option<T>)
        requires
            old(self).wf(),
        ensures
            final(self).wf(),
            final(self).allocated(),
            exists|k: TypeId, s: Slot|
                #![trigger old(self)@.insert(k, s)]
                {
                    &&& final(self)@ == old(self)@.insert(k, s)
                    &&& (r is Some ==> old(self)@.contains_key(k))
                },
            old(self)@ == Map::<TypeId, Slot>::empty() ==> r is None,
    {
        let k = TypeId::of::<T>();
        let s = Slot::erase(val);
        let ghost gk = k;
        let ghost gs = s;
        if self.store.is_none() {
            self.store = Some(Store::new());
        }
        let r = match &mut self.store {
            Some(st) => {
                proof {
                    assert(st@ == old(self)@);
                }
                match st.insert_slot(k, s) {
                    Some(prev) => prev.downcast_owned::<T>(),
                    None => None,
                }
            },
            None => {
                proof {
                    assert(false);
                }
                None
            },
        };
        proof {
            assert(self@ == old(self)@.insert(gk, gs));
        }
        r
    }

    /// Get a reference to the value of type `T` inserted earlier, if any.
    /// Never allocates the backing store.
    pub fn get<T: Send + Sync + 'static>(&self) -> (r: Option<&T>)
        requires
            self.wf(),
        ensures
            !self.allocated() ==> r is None,
            r is Some ==> exists|k: TypeId| self@.contains_key(k),
    {
        let k = TypeId::of::<T>();
        match &self.store {
            Some(st) => {
                match st.get_slot(&k) {
                    Some(s) => {
                        proof {
                            assert(self@.contains_key(k));
                        }
                        s.downcast_ref::<T>()
                    },
                    None => None,
                }
            },
            None => None,
        }
    }

    /// Get a mutable reference to the value of type `T` inserted earlier, if
    /// any, for mutation in place.  No entry appears or disappears: the set
    /// of stored type identifiers is unchanged, and only the entry the
    /// returned reference points into can change at all.
    pub fn get_mut<T: Send + Sync + 'static>(&mut self) -> (r: Option<&mut T>)
        requires
            old(self).wf(),
        ensures
            final(self).wf(),
            final(self).allocated() == old(self).allocated(),
            final(self)@.dom() == old(self)@.dom(),
            r is None ==> final(self)@ == old(self)@,
            r is Some ==> exists|k: TypeId| old(self)@.contains_key(k),
            !old(self).allocated() ==> r is None,
    {
        let k = TypeId::of::<T>();
        match &mut self.store {
            Some(st) => {
                match st.get_slot_mut(&k) {
                    Some(p) => {
                        proof {
                            assert(old(self)@.contains_key(k));
                        }
                        p.downcast_mut::<T>()
                    },
                    None => None,
                }
            },
            None => None,
        }
    }

    /// Remove the value of type `T` from the map and hand it back, if any.
    /// Never allocates the backing store.
    pub fn remove<T: Send + Sync + 'static>(&mut self) -> (r: Option<T>)
        requires
            old(self).wf(),
        ensures
            final(self).wf(),
            final(self).allocated() == old(self).allocated(),
            exists|k: TypeId|
                #![trigger old(self)@.remove(k)]
                {
                    &&& final(self)@ == old(self)@.remove(k)
                    &&& (r is Some ==> old(self)@.contains_key(k))
                },
            old(self)@ == Map::<TypeId, Slot>::empty() ==> r is None && final(self)@ == old(
                self,
            )@,
    {
        let k = TypeId::of::<T>();
        match &mut self.store {
            Some(st) => {
                let taken = st.remove_slot(&k);
                proof {
                    if old(self)@ == Map::<TypeId, Slot>::empty() {
                        assert(st@ =~= old(self)@.remove(k));
                    }
                }
                match taken {
                    Some(s) => s.downcast_owned::<T>(),
                    None => None,
                }
            },
            None => {
                proof {
                    let k0 = k;
                    assert(old(self)@.remove(k0) =~= old(self)@);
                }
                None
            },
        }
    }

    /// Clear the map of all inserted values, dropping each of them.  The
    /// backing store itself is kept as it is: absent if it was never
    /// allocated, allocated but empty otherwise, ready for reuse.
    pub fn clear(&mut self)
        requires
            old(self).wf(),
        ensures
            final(self).wf(),
            final(self)@ == Map::<TypeId, Slot>::empty(),
            final(self).allocated() == old(self).allocated(),
    {
        match &mut self.store {
            Some(st) => st.clear_slots(),
            None => {
                proof {
                    assert(old(self)@ =~= Map::<TypeId, Slot>::empty());
                }
            },
        }
    }
}

impl Default for TypeMap {
    /// Same as `TypeMap::new`: an empty map with no backing store.
    fn default() -> (r: TypeMap)
        ensures
            r@ == Map::<TypeId, Slot>::empty(),
            !r.allocated(),
            r.wf(),
    {
        TypeMap::new()
    }
}

} // verus!
