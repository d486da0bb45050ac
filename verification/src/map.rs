//! The map: an ordinary hash table of values paired with released flags.

use crate::entry::Entry;
use crate::lease::count_gave;
use crate::lease::is_released;
use crate::lease::made_at_zero;
use crate::lease::made_unset;
use crate::lease::new_counter;
use crate::lease::read_gave;
use crate::lease::releases;
use crate::lease::reset;
use crate::lease::was_reset;
use crate::lease::MarkOnDrop;
use crate::lease::ReclaimCounter;
use crate::lease::ReleasedFlag;
use crate::model::collected;
use crate::model::collected_except;
use crate::model::evict;
use crate::model::gc_due;
use crate::model::live_value;
use crate::model::swept;
use crate::model::within;
use crate::model::within_except;
use std::hash::Hash;
use vstd::prelude::*;
use vstd::std_specs::hash::obeys_key_model;
use vstd::std_specs::hash::EntrySpecFns;

verus! {

/// A map from keys to values in which each value is paired with the released
/// flag of the lease that was issued for it.
///
/// Its view is the physical table: every entry that has not been removed yet,
/// whether its lease is still held or not, with its value and its flag. The
/// view leaves out the reclaim counter, which [`HashMap::counter`] names: that
/// is the handle on the cell, and what the cell holds is no part of either.
///
/// The contracts speak of the table by key, so they hold for key types whose
/// `Eq` and `Hash` behave as a hash table needs, which `obeys_key_model` says.
pub struct HashMap<K, V> {
    v: std::collections::HashMap<K, (V, ReleasedFlag)>,
    gc: ReclaimCounter,
}

impl<K, V> View for HashMap<K, V> {
    type V = Map<K, (V, ReleasedFlag)>;

    closed spec fn view(&self) -> Map<K, (V, ReleasedFlag)> {
        self.v@
    }
}

impl<K, V> HashMap<K, V> {
    /// The counter that the leases of this map bump.
    pub closed spec fn counter(&self) -> ReclaimCounter {
        self.gc
    }

    /// The table holds finitely many entries.
    pub proof fn lemma_finite(&self)
        ensures
            self@.dom().finite(),
    {
    }
}

impl<K: Eq + Hash, V> Default for HashMap<K, V> {
    /// An empty map with a counter of its own at zero.
    fn default() -> (m: Self)
        ensures
            m@ == Map::<K, (V, ReleasedFlag)>::empty(),
            made_at_zero(m.counter()),
    {
        HashMap { v: std::collections::HashMap::new(), gc: new_counter() }
    }
}

/// `HashMap::get_mut`: a mutable reference to the value stored at `k`. Trusted:
/// it is `None` exactly when the table has no entry at `k` and then leaves the
/// table as it was; otherwise it points at the stored value, and the table ends
/// as it was but for what is written through the reference.
#[verifier::external_body]
fn table_get_mut<'a, K: Eq + Hash, T>(
    table: &'a mut std::collections::HashMap<K, T>,
    k: &K,
) -> (r: Option<&'a mut T>)
    ensures
        obeys_key_model::<K>() ==> (match r {
            Some(slot) => {
                &&& old(table)@.contains_key(*k)
                &&& *slot == old(table)@[*k]
                &&& final(table)@ == old(table)@.insert(*k, *final(slot))
            },
            None => !old(table)@.contains_key(*k) && final(table)@ == old(table)@,
        }),
{
    table.get_mut(k)
}

/// Whether an entry stays through a collection pass: its flag reads not
/// released.
fn is_live<V>(slot: &(V, ReleasedFlag)) -> (live: bool)
    ensures
        read_gave(slot.1, !live),
{
    !is_released(&slot.1)
}

/// `HashMap::retain` with [`is_live`] as the predicate. Trusted: `retain`
/// calls the predicate on each entry, removes the entries for which it returns
/// `false` and touches no other. So every entry that is left was there before,
/// with the same value and flag, and whether an entry is left is what the
/// predicate returned for it.
#[verifier::external_body]
fn retain_live<K: Eq + Hash, V>(table: &mut std::collections::HashMap<K, (V, ReleasedFlag)>)
    ensures
        obeys_key_model::<K>() ==> within(final(table)@, old(table)@),
        obeys_key_model::<K>() ==> forall|j: K| #[trigger]
            old(table)@.contains_key(j) ==> call_ensures(
                is_live::<V>,
                (&old(table)@[j],),
                final(table)@.contains_key(j),
            ),
{
    table.retain(|_, slot| is_live(slot))
}

/// The trigger of a collection pass.
fn due(count: usize, len: usize) -> (d: bool)
    ensures
        d == gc_due(count as nat, len as nat),
{
    count >= len / 2
}

impl<K: Eq + Hash, V> HashMap<K, V> {
    /// An empty map with a counter of its own at zero.
    pub fn new() -> (m: Self)
        ensures
            m@ == Map::<K, (V, ReleasedFlag)>::empty(),
            made_at_zero(m.counter()),
    {
        Self::default()
    }

    /// The number of entries in the table, those included whose lease was
    /// dropped and which have not been removed yet.
    pub fn len(&self) -> (n: usize)
        ensures
            obeys_key_model::<K>() ==> n == self@.len(),
    {
        self.v.len()
    }

    /// Reads the flag of the entry at `k`: the result is what the read gave,
    /// and `false` if there is no entry at `k`.
    fn released(&self, k: &K) -> (r: bool)
        ensures
            obeys_key_model::<K>() ==> (r ==> self@.contains_key(*k)),
            obeys_key_model::<K>() ==> (self@.contains_key(*k) ==> read_gave(self@[*k].1, r)),
    {
        match self.v.get(k) {
            Some(slot) => is_released(&slot.1),
            None => false,
        }
    }

    /// Runs a collection pass if one is due by the counter as it reads now.
    ///
    /// Whatever the counter and the flags read, entries are only removed, and
    /// those that stay are unchanged. What happens is what [`HashMap::gc_given`]
    /// does for the count that the read of the counter gave.
    pub fn gc(&mut self)
        ensures
            final(self).counter() == old(self).counter(),
            obeys_key_model::<K>() ==> within(final(self)@, old(self)@),
            obeys_key_model::<K>() ==> exists|count: usize|
                {
                    &&& #[trigger] count_gave(old(self).counter(), count)
                    &&& collected(old(self)@, final(self)@, old(self).counter(), count)
                },
    {
        let count: usize = releases(&self.gc);
        self.gc_given(count)
    }

    /// The collection check for a counter that read `count`. If no pass is due
    /// the table is left as it was. Otherwise the counter is reset and one pass
    /// over the whole table removes each entry whose flag reads released, and
    /// no other.
    pub fn gc_given(&mut self, count: usize)
        ensures
            final(self).counter() == old(self).counter(),
            obeys_key_model::<K>() ==> within(final(self)@, old(self)@),
            obeys_key_model::<K>() && !gc_due(count as nat, old(self)@.len()) ==> final(self)@
                == old(self)@,
            obeys_key_model::<K>() && gc_due(count as nat, old(self)@.len()) ==> swept(
                old(self)@,
                final(self)@,
            ),
            obeys_key_model::<K>() && gc_due(count as nat, old(self)@.len()) ==> was_reset(
                old(self).counter(),
            ),
            obeys_key_model::<K>() ==> collected(
                old(self)@,
                final(self)@,
                old(self).counter(),
                count,
            ),
    {
        if !due(count, self.v.len()) {
            return ;
        }
        reset(&self.gc);
        retain_live(&mut self.v);
    }

    /// Inserts `v` at `k` under a new lease, after a collection check.
    ///
    /// Returns the lease and the value that was visible at `k` before. A value
    /// is reported only if the table held it at `k` and the read of its flag
    /// gave not released; a value that the table held is passed over only if a
    /// read of its flag gave released. The new entry carries the flag of the
    /// returned lease, which was made not set. No other entry is added or
    /// changed, and another entry leaves only by the collection check: only if
    /// a pass was due by the count that the read of the counter gave, the
    /// counter was reset, and the read of the entry's flag gave released.
    pub fn insert(&mut self, k: K, v: V) -> (r: (MarkOnDrop, Option<V>))
        ensures
            final(self).counter() == old(self).counter(),
            r.0.counter() == old(self).counter(),
            obeys_key_model::<K>() ==> {
                &&& final(self)@.contains_key(k)
                &&& final(self)@[k] == (v, r.0.flag())
                &&& within_except(final(self)@, old(self)@, k)
                &&& r.1 matches Some(p) ==> old(self)@.contains_key(k) && p == old(self)@[k].0
                    && read_gave(old(self)@[k].1, false)
                &&& r.1 is None && old(self)@.contains_key(k) ==> read_gave(old(self)@[k].1, true)
                &&& made_unset(r.0.flag())
                &&& forall|j: K|
                    #![trigger old(self)@.contains_key(j)]
                    #![trigger final(self)@.contains_key(j)]
                    j != k && old(self)@.contains_key(j) && !final(self)@.contains_key(j)
                        ==> read_gave(old(self)@[j].1, true)
                &&& exists|count: usize|
                    {
                        &&& #[trigger] count_gave(old(self).counter(), count)
                        &&& collected_except(
                            old(self)@,
                            final(self)@,
                            old(self).counter(),
                            count,
                            k,
                        )
                    }
            },
    {
        self.gc();
        let released = self.released(&k);
        self.insert_given(k, v, released)
    }

    /// The insertion itself, for a flag at `k` that read `released`: the entry
    /// at `k` becomes `v` with the flag of the returned lease, which was made not
    /// set, and the value that was there is returned unless its flag read
    /// released.
    pub fn insert_given(&mut self, k: K, v: V, released: bool) -> (r: (MarkOnDrop, Option<V>))
        ensures
            final(self).counter() == old(self).counter(),
            r.0.counter() == old(self).counter(),
            obeys_key_model::<K>() ==> {
                &&& final(self)@ == old(self)@.insert(k, (v, r.0.flag()))
                &&& r.1 == live_value(old(self)@, k, released)
            },
            made_unset(r.0.flag()),
    {
        let (mark, marker) = MarkOnDrop::issue(&self.gc);
        let previous = match self.v.insert(k, (v, marker)) {
            None => None,
            Some(slot) => if released {
                None
            } else {
                Some(slot.0)
            },
        };
        (mark, previous)
    }

    /// Looks `k` up. An entry whose flag reads released is removed and reported
    /// absent.
    ///
    /// Whatever the flag reads: a value that is returned is the one the table
    /// holds at `k`, the read of its flag gave not released, and the table is
    /// unchanged; if none is returned, the table has no entry at `k` afterwards
    /// and is otherwise unchanged, and an entry that was there was removed
    /// because the read of its flag gave released.
    ///
    /// The key is taken as the table stores it, as `&K`, and not in a borrowed
    /// form `&Q` with `K: Borrow<Q>` (a `&str` for a `String`): the view is keyed
    /// by `K`, and which entry a borrowed form finds has no statement over it.
    pub fn get(&mut self, k: &K) -> (r: Option<&V>)
        ensures
            final(self).counter() == old(self).counter(),
            obeys_key_model::<K>() ==> (match r {
                Some(v) => {
                    &&& old(self)@.contains_key(*k)
                    &&& *v == old(self)@[*k].0
                    &&& final(self)@ == old(self)@
                    &&& read_gave(old(self)@[*k].1, false)
                },
                None => {
                    &&& final(self)@ == old(self)@.remove(*k)
                    &&& old(self)@.contains_key(*k) ==> read_gave(old(self)@[*k].1, true)
                },
            }),
    {
        let released = self.released(k);
        let r = self.get_given(k, released);
        proof {
            if !old(self)@.contains_key(*k) {
                assert(old(self)@.remove(*k) =~= old(self)@);
            }
        }
        r
    }

    /// The lookup for a flag at `k` that read `released`: the entry is removed
    /// if so, and the value visible at `k` is returned.
    pub fn get_given(&mut self, k: &K, released: bool) -> (r: Option<&V>)
        ensures
            final(self).counter() == old(self).counter(),
            obeys_key_model::<K>() ==> {
                &&& final(self)@ == evict(old(self)@, *k, released)
                &&& match r {
                    Some(v) => live_value(old(self)@, *k, released) == Some(*v),
                    None => live_value(old(self)@, *k, released) is None,
                }
            },
    {
        if released {
            self.v.remove(k);
        }
        match self.v.get(k) {
            Some(slot) => Some(&slot.0),
            None => None,
        }
    }

    /// Looks `k` up for writing, with the lazy eviction of [`HashMap::get`].
    ///
    /// Whatever the flag reads: a reference that is returned points at the
    /// value the table holds at `k`, the read of its flag gave not released, and
    /// the table ends as it was but for what is written through the reference;
    /// if none is returned, the table has no entry at `k` afterwards and is
    /// otherwise unchanged, and an entry that was there was removed because the
    /// read of its flag gave released.
    ///
    /// The key is taken as `&K`, for the reason given at [`HashMap::get`].
    pub fn get_mut(&mut self, k: &K) -> (r: Option<&mut V>)
        ensures
            final(self).counter() == old(self).counter(),
            obeys_key_model::<K>() ==> (match r {
                Some(v) => {
                    &&& old(self)@.contains_key(*k)
                    &&& *v == old(self)@[*k].0
                    &&& final(self)@ == old(self)@.insert(*k, (*final(v), old(self)@[*k].1))
                    &&& read_gave(old(self)@[*k].1, false)
                },
                None => {
                    &&& final(self)@ == old(self)@.remove(*k)
                    &&& old(self)@.contains_key(*k) ==> read_gave(old(self)@[*k].1, true)
                },
            }),
    {
        let released = self.released(k);
        let r = self.get_mut_given(k, released);
        proof {
            if !old(self)@.contains_key(*k) {
                assert(old(self)@.remove(*k) =~= old(self)@);
            }
        }
        r
    }

    /// The lookup for writing, for a flag at `k` that read `released`: the
    /// entry is removed if so, and a reference to the value visible at `k` is
    /// returned. The entry keeps its flag whatever is written.
    pub fn get_mut_given(&mut self, k: &K, released: bool) -> (r: Option<&mut V>)
        ensures
            final(self).counter() == old(self).counter(),
            obeys_key_model::<K>() ==> (match r {
                Some(v) => {
                    &&& live_value(old(self)@, *k, released) == Some(*v)
                    &&& final(self)@ == old(self)@.insert(*k, (*final(v), old(self)@[*k].1))
                },
                None => {
                    &&& live_value(old(self)@, *k, released) is None
                    &&& final(self)@ == evict(old(self)@, *k, released)
                },
            }),
    {
        if released {
            self.v.remove(k);
        }
        match table_get_mut(&mut self.v, k) {
            Some(slot) => Some(&mut slot.0),
            None => None,
        }
    }

    /// The slot of `k`, after a collection check and the lazy eviction at `k`.
    ///
    /// Whatever the counter and the flags read: an occupied handle holds the
    /// entry that the table had at `k`, whose flag was read not released; the
    /// handle is vacant over an entry that the table had only if a read of its
    /// flag gave released; a vacant handle is bound to the counter of this map;
    /// the table ends with what the handle leaves at `k`. No other entry is
    /// added or changed, and another entry leaves only by the collection check,
    /// as in [`HashMap::insert`].
    pub fn entry<'a>(&'a mut self, k: K) -> (e: Entry<'a, K, V>)
        ensures
            final(self).counter() == old(self).counter(),
            e matches Entry::Vacant(vacant) ==> vacant.counter() == old(self).counter(),
            obeys_key_model::<K>() ==> {
                &&& e.key() == k
                &&& e.slot() matches Some(slot) ==> old(self)@.contains_key(k) && old(self)@[k]
                    == slot && read_gave(slot.1, false)
                &&& e.slot() is None && old(self)@.contains_key(k) ==> read_gave(
                    old(self)@[k].1,
                    true,
                )
                &&& within_except(final(self)@, old(self)@, k)
                &&& match e.inner().final_value() {
                    Some(slot) => final(self)@.contains_key(k) && final(self)@[k] == slot,
                    None => !final(self)@.contains_key(k),
                }
                &&& forall|j: K|
                    #![trigger old(self)@.contains_key(j)]
                    #![trigger final(self)@.contains_key(j)]
                    j != k && old(self)@.contains_key(j) && !final(self)@.contains_key(j)
                        ==> read_gave(old(self)@[j].1, true)
                &&& exists|count: usize|
                    {
                        &&& #[trigger] count_gave(old(self).counter(), count)
                        &&& collected_except(
                            old(self)@,
                            final(self)@,
                            old(self).counter(),
                            count,
                            k,
                        )
                    }
            },
    {
        self.gc();
        let released = self.released(&k);
        self.entry_given(k, released)
    }

    /// The slot of `k` for a flag at `k` that read `released`: the entry is
    /// removed if so, and the handle is occupied exactly if a value is visible
    /// at `k`. The table ends with what the handle leaves at `k`.
    pub fn entry_given<'a>(&'a mut self, k: K, released: bool) -> (e: Entry<'a, K, V>)
        ensures
            final(self).counter() == old(self).counter(),
            e matches Entry::Vacant(vacant) ==> vacant.counter() == old(self).counter(),
            obeys_key_model::<K>() ==> {
                &&& e.key() == k
                &&& e.slot() == evict(old(self)@, k, released).get(k)
                &&& match e.slot() {
                    Some(slot) => live_value(old(self)@, k, released) == Some(slot.0),
                    None => live_value(old(self)@, k, released) is None,
                }
                &&& final(self)@ == match e.inner().final_value() {
                    Some(slot) => evict(old(self)@, k, released).insert(k, slot),
                    None => evict(old(self)@, k, released).remove(k),
                }
            },
    {
        if released {
            self.v.remove(&k);
        }
        Entry::wrap(self.v.entry(k), &self.gc)
    }
}

} // verus!
