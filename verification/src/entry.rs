//! Handles on one slot of the map, occupied or vacant.
//!
//! A handle borrows the map. What the map holds at the handle's key once the
//! handle is gone is the final value of the table's own entry handle, which
//! [`Entry::inner`] and its like give access to. The operations that consume
//! a handle say what that final value is; for a handle that is given up unused
//! the lemmas named `lemma_unused` do.

use crate::lease::made_unset;
use crate::lease::share;
use crate::lease::MarkOnDrop;
use crate::lease::ReclaimCounter;
use crate::lease::ReleasedFlag;
use vstd::prelude::*;
use vstd::std_specs::hash::EntrySpecFns;
use vstd::std_specs::hash::OccupiedEntrySpecFns;
use vstd::std_specs::hash::VacantEntrySpecFns;

verus! {

/// A handle on a slot that holds an entry whose flag read not released when
/// the handle was made.
pub struct OccupiedEntry<'a, K: 'a, V: 'a> {
    n: std::collections::hash_map::OccupiedEntry<'a, K, (V, ReleasedFlag)>,
}

/// A handle on an empty slot, with the counter that a lease issued for it will
/// bump.
pub struct VacantEntry<'a, K: 'a, V: 'a> {
    n: std::collections::hash_map::VacantEntry<'a, K, (V, ReleasedFlag)>,
    gc: ReclaimCounter,
}

/// A handle on one slot of the map.
pub enum Entry<'a, K: 'a, V: 'a> {
    /// An occupied entry.
    Occupied(OccupiedEntry<'a, K, V>),
    /// A vacant entry.
    Vacant(VacantEntry<'a, K, V>),
}

impl<'a, K, V> OccupiedEntry<'a, K, V> {
    /// The table's own handle on the slot.
    pub closed spec fn inner(self) -> std::collections::hash_map::OccupiedEntry<
        'a,
        K,
        (V, ReleasedFlag),
    > {
        self.n
    }

    /// The key of the slot.
    pub open spec fn key(self) -> K {
        self.inner().spec_key()
    }

    /// The value in the slot and its flag.
    pub open spec fn slot(self) -> (V, ReleasedFlag) {
        self.inner().value()
    }

    /// A handle that is given up unused leaves the entry as it found it.
    pub proof fn lemma_unused(self)
        requires
            has_resolved(self),
        ensures
            self.inner().final_value() == Some(self.slot()),
    {
    }

    /// Gives up the handle for a mutable reference to the value. The slot keeps
    /// its flag, and ends with what is written through the reference.
    pub fn into_mut(self) -> (r: &'a mut V)
        ensures
            *r == self.slot().0,
            self.inner().final_value() == Some((*final(r), self.slot().1)),
    {
        &mut self.n.into_mut().0
    }
}

impl<'a, K, V> VacantEntry<'a, K, V> {
    /// The table's own handle on the slot.
    pub closed spec fn inner(self) -> std::collections::hash_map::VacantEntry<
        'a,
        K,
        (V, ReleasedFlag),
    > {
        self.n
    }

    /// The key of the slot.
    pub open spec fn key(self) -> K {
        self.inner().spec_key()
    }

    /// The counter that a lease issued for this slot bumps.
    pub closed spec fn counter(self) -> ReclaimCounter {
        self.gc
    }

    /// A handle that is given up unused leaves the slot empty.
    pub proof fn lemma_unused(self)
        requires
            has_resolved(self),
        ensures
            self.inner().final_value() == None::<(V, ReleasedFlag)>,
    {
    }

    /// Fills the slot with what `value` makes of the new lease.
    ///
    /// The factory is called once, on a lease bound to the map's counter whose
    /// flag was made not set. The slot gets the value it returns, with the flag
    /// of that lease, and ends with what is written through the returned
    /// reference.
    pub fn insert_with<F: FnOnce(MarkOnDrop) -> V>(self, value: F) -> (r: &'a mut V)
        requires
            forall|lease: MarkOnDrop|
                lease.counter() == self.counter() ==> #[trigger] call_requires(value, (lease,)),
        ensures
            exists|lease: MarkOnDrop|
                {
                    &&& lease.counter() == self.counter()
                    &&& made_unset(lease.flag())
                    &&& #[trigger] call_ensures(value, (lease,), *r)
                    &&& self.inner().final_value() == Some((*final(r), lease.flag()))
                },
    {
        let (mark, marker) = MarkOnDrop::issue(&self.gc);
        let ghost lease = mark;
        let made = value(mark);
        let r = &mut self.n.insert((made, marker)).0;
        proof {
            assert(call_ensures(value, (lease,), *r));
        }
        r
    }
}

impl<'a, K, V> Entry<'a, K, V> {
    /// The table's own handle on the slot.
    pub open spec fn inner(self) -> std::collections::hash_map::Entry<'a, K, (V, ReleasedFlag)> {
        match self {
            Entry::Occupied(e) => std::collections::hash_map::Entry::Occupied(e.inner()),
            Entry::Vacant(e) => std::collections::hash_map::Entry::Vacant(e.inner()),
        }
    }

    /// The key of the slot.
    pub open spec fn key(self) -> K {
        self.inner().spec_key()
    }

    /// The value in the slot and its flag, if the slot is occupied.
    pub open spec fn slot(self) -> Option<(V, ReleasedFlag)> {
        self.inner().value()
    }

    /// A handle that is given up unused leaves its slot as it found it.
    pub proof fn lemma_unused(self)
        requires
            has_resolved(self),
        ensures
            self.inner().final_value() == self.slot(),
    {
    }

    /// Wraps the table's own handle on a slot. A vacant one is bound to `gc`,
    /// the counter of the map.
    pub(crate) fn wrap(
        slot: std::collections::hash_map::Entry<'a, K, (V, ReleasedFlag)>,
        gc: &ReclaimCounter,
    ) -> (e: Self)
        ensures
            e.inner() == slot,
            e matches Entry::Vacant(vacant) ==> vacant.counter() == *gc,
    {
        match slot {
            std::collections::hash_map::Entry::Occupied(n) => Entry::Occupied(OccupiedEntry { n }),
            std::collections::hash_map::Entry::Vacant(n) => Entry::Vacant(
                VacantEntry { n, gc: share(gc) },
            ),
        }
    }

    /// A mutable reference to the value in the slot, which is filled first if
    /// it is vacant.
    ///
    /// On an occupied slot the factory is not called, and the reference points
    /// at the value that is there. On a vacant slot the factory is called once,
    /// as in [`VacantEntry::insert_with`].
    pub fn or_insert_with<F: FnOnce(MarkOnDrop) -> V>(self, default: F) -> (r: &'a mut V)
        requires
            self matches Entry::Vacant(e) ==> forall|lease: MarkOnDrop|
                lease.counter() == e.counter() ==> #[trigger] call_requires(default, (lease,)),
        ensures
            match self {
                Entry::Occupied(e) => {
                    &&& *r == e.slot().0
                    &&& e.inner().final_value() == Some((*final(r), e.slot().1))
                },
                Entry::Vacant(e) => exists|lease: MarkOnDrop|
                    {
                        &&& lease.counter() == e.counter()
                        &&& made_unset(lease.flag())
                        &&& #[trigger] call_ensures(default, (lease,), *r)
                        &&& e.inner().final_value() == Some((*final(r), lease.flag()))
                    },
            },
    {
        match self {
            Entry::Occupied(entry) => entry.into_mut(),
            Entry::Vacant(entry) => entry.insert_with(default),
        }
    }
}

} // verus!
