//! The mathematical model of the table, and the laws that hold of it.
//!
//! A table is a `Map` from keys to pairs of a value and a released flag. What a
//! flag or the counter reads is not part of the table: each function below
//! takes it as a parameter, so the laws hold for every way the leases may have
//! been held or dropped. A lease that is still held shows as a flag that reads
//! not released wherever it is read; a lease that was dropped, as one that reads
//! released from then on. Only [`swept`], [`collected`] and
//! [`collected_except`] speak of the reads themselves: they say of a whole
//! pass which read made which entry leave.

use crate::lease::read_gave;
use crate::lease::was_reset;
use crate::lease::ReclaimCounter;
use crate::lease::ReleasedFlag;
use vstd::prelude::*;

verus! {

/// Whether a collection pass is due when the counter reads `count` and the
/// table holds `len` entries: at least half as many releases as entries, the
/// half rounded down.
pub open spec fn gc_due(count: nat, len: nat) -> bool {
    count >= len / 2
}

/// Every entry of `part` is an entry of `whole`, with the same value and flag:
/// `part` is `whole` with some entries removed.
pub open spec fn within<K, V>(
    part: Map<K, (V, ReleasedFlag)>,
    whole: Map<K, (V, ReleasedFlag)>,
) -> bool {
    forall|j: K| #[trigger] part.contains_key(j) ==> whole.contains_key(j) && part[j] == whole[j]
}

/// Apart from what it holds at `k`, `after` is `before` with some entries
/// removed: no entry but the one at `k` was added or changed.
pub open spec fn within_except<K, V>(
    after: Map<K, (V, ReleasedFlag)>,
    before: Map<K, (V, ReleasedFlag)>,
    k: K,
) -> bool {
    forall|j: K|
        j != k && #[trigger] after.contains_key(j) ==> before.contains_key(j) && after[j]
            == before[j]
}

/// The table after a collection pass that found the flag released at the keys
/// in `found` and at no other.
pub open spec fn sweep<K, V>(t: Map<K, (V, ReleasedFlag)>, found: Set<K>) -> Map<
    K,
    (V, ReleasedFlag),
> {
    t.remove_keys(found)
}

/// `after` is what a collection pass leaves of `before`: each entry stays, as
/// it was, exactly if the read of its flag gave not released.
pub open spec fn swept<K, V>(
    before: Map<K, (V, ReleasedFlag)>,
    after: Map<K, (V, ReleasedFlag)>,
) -> bool {
    &&& within(after, before)
    &&& forall|j: K|
        #![trigger before.contains_key(j)]
        #![trigger after.contains_key(j)]
        before.contains_key(j) ==> read_gave(before[j].1, !after.contains_key(j))
}

/// `after` is what the collection check for a counter that read `count` makes
/// of `before`: nothing if no pass is due; if one is, the counter is reset and
/// the table is swept.
pub open spec fn collected<K, V>(
    before: Map<K, (V, ReleasedFlag)>,
    after: Map<K, (V, ReleasedFlag)>,
    counter: ReclaimCounter,
    count: usize,
) -> bool {
    if gc_due(count as nat, before.len()) {
        was_reset(counter) && swept(before, after)
    } else {
        after == before
    }
}

/// What the collection check for a counter that read `count` does to the keys
/// of `before` other than `k`: none leaves if no pass is due; if one is, the
/// counter is reset, and each of them stays exactly if the read of its flag
/// gave not released.
pub open spec fn collected_except<K, V>(
    before: Map<K, (V, ReleasedFlag)>,
    after: Map<K, (V, ReleasedFlag)>,
    counter: ReclaimCounter,
    count: usize,
    k: K,
) -> bool {
    if gc_due(count as nat, before.len()) {
        &&& was_reset(counter)
        &&& forall|j: K|
            #![trigger before.contains_key(j)]
            #![trigger after.contains_key(j)]
            j != k && before.contains_key(j) ==> read_gave(before[j].1, !after.contains_key(j))
    } else {
        forall|j: K|
            #![trigger before.contains_key(j)]
            #![trigger after.contains_key(j)]
            j != k && before.contains_key(j) ==> after.contains_key(j)
    }
}

/// The table after the lazy eviction at `k`: the entry is removed if its flag
/// read `released`.
pub open spec fn evict<K, V>(t: Map<K, (V, ReleasedFlag)>, k: K, released: bool) -> Map<
    K,
    (V, ReleasedFlag),
> {
    if released {
        t.remove(k)
    } else {
        t
    }
}

/// The value that is visible at `k` when the flag of the entry there, if there
/// is one, read `released`.
pub open spec fn live_value<K, V>(t: Map<K, (V, ReleasedFlag)>, k: K, released: bool) -> Option<
    V,
> {
    if t.contains_key(k) && !released {
        Some(t[k].0)
    } else {
        None
    }
}

/// A table that has only lost entries is the outcome of a collection pass,
/// namely of the one that found the flag released at each key that left; and
/// every collection pass only removes entries.
pub proof fn lemma_within_is_sweep<K, V>(
    after: Map<K, (V, ReleasedFlag)>,
    before: Map<K, (V, ReleasedFlag)>,
    found: Set<K>,
)
    ensures
        within(after, before) ==> after == sweep(before, before.dom().difference(after.dom())),
        within(sweep(before, found), before),
{
    if within(after, before) {
        assert(after =~= sweep(before, before.dom().difference(after.dom())));
    }
}

/// What a collection pass leaves is the table without the keys that left; the
/// flag of each entry that left was read released, and the flag of each entry
/// that stays was read not released.
pub proof fn lemma_swept_is_sweep<K, V>(
    before: Map<K, (V, ReleasedFlag)>,
    after: Map<K, (V, ReleasedFlag)>,
)
    requires
        swept(before, after),
    ensures
        after == sweep(before, before.dom().difference(after.dom())),
        forall|j: K|
            before.contains_key(j) && !after.contains_key(j) ==> #[trigger] read_gave(
                before[j].1,
                true,
            ),
        forall|j: K| #[trigger] after.contains_key(j) ==> read_gave(after[j].1, false),
{
    lemma_within_is_sweep(after, before, Set::empty());
    assert forall|j: K| #[trigger] after.contains_key(j) implies read_gave(after[j].1, false) by {
        assert(before.contains_key(j));
    }
}

/// A value inserted at `k` is what a lookup at `k` returns while the flag of
/// its lease reads not released, and such a lookup leaves the table as it is.
pub proof fn lemma_inserted_value_is_visible<K, V>(
    t: Map<K, (V, ReleasedFlag)>,
    k: K,
    v: V,
    flag: ReleasedFlag,
)
    ensures
        live_value(t.insert(k, (v, flag)), k, false) == Some(v),
        evict(t.insert(k, (v, flag)), k, false) == t.insert(k, (v, flag)),
{
}

/// The entry at `k` is not touched by what happens at another key, nor by a
/// collection pass that does not find its flag released: it stays, with its
/// value and its flag, and so stays visible.
pub proof fn lemma_entry_persists<K, V>(
    t: Map<K, (V, ReleasedFlag)>,
    k: K,
    other: K,
    slot: (V, ReleasedFlag),
    released: bool,
    found: Set<K>,
)
    requires
        t.contains_key(k),
        other != k,
        !found.contains(k),
    ensures
        t.insert(other, slot).contains_key(k) && t.insert(other, slot)[k] == t[k],
        evict(t, other, released).contains_key(k) && evict(t, other, released)[k] == t[k],
        sweep(t, found).contains_key(k) && sweep(t, found)[k] == t[k],
        live_value(t.insert(other, slot), k, false) == Some(t[k].0),
        live_value(evict(t, other, released), k, false) == Some(t[k].0),
        live_value(sweep(t, found), k, false) == Some(t[k].0),
{
}

/// Of two insertions at `k` the later one decides: the entry carries its value
/// and the flag of its lease, and the flag of the earlier lease is in the table
/// no more.
pub proof fn lemma_latest_insertion_governs<K, V>(
    t: Map<K, (V, ReleasedFlag)>,
    k: K,
    v1: V,
    flag1: ReleasedFlag,
    v2: V,
    flag2: ReleasedFlag,
)
    ensures
        t.insert(k, (v1, flag1)).insert(k, (v2, flag2)) == t.insert(k, (v2, flag2)),
        t.insert(k, (v1, flag1)).insert(k, (v2, flag2))[k] == (v2, flag2),
{
    assert(t.insert(k, (v1, flag1)).insert(k, (v2, flag2)) =~= t.insert(k, (v2, flag2)));
}

/// Once the flag of the entry at `k` reads released, a lookup at `k` returns
/// nothing and removes the entry, with no collection pass needed; and later
/// lookups return nothing either, whatever they read.
pub proof fn lemma_released_value_is_absent<K, V>(
    t: Map<K, (V, ReleasedFlag)>,
    k: K,
    later: bool,
)
    ensures
        live_value(t, k, true) == None::<V>,
        !evict(t, k, true).contains_key(k),
        live_value(evict(t, k, true), k, later) == None::<V>,
{
}

/// Inserting again at `k` after the lease of the entry there was dropped
/// reports no previous value: either the collection pass that precedes the
/// insertion found the flag released and removed the entry, or the insertion
/// itself reads it released.
pub proof fn lemma_reinsert_over_released<K, V>(
    t: Map<K, (V, ReleasedFlag)>,
    k: K,
    v1: V,
    flag: ReleasedFlag,
    found: Set<K>,
    released: bool,
)
    requires
        found.contains(k) || released,
    ensures
        live_value(sweep(t.insert(k, (v1, flag)), found), k, released) == None::<V>,
{
}

/// Inserting again at `k` while the lease of the entry there is held, so that
/// its flag reads not released both to the collection pass that precedes the
/// insertion and to the insertion itself, reports the value inserted before.
pub proof fn lemma_reinsert_over_live<K, V>(
    t: Map<K, (V, ReleasedFlag)>,
    k: K,
    v1: V,
    flag: ReleasedFlag,
    found: Set<K>,
)
    requires
        !found.contains(k),
    ensures
        live_value(sweep(t.insert(k, (v1, flag)), found), k, false) == Some(v1),
{
}

/// The number of entries goes down only by eviction or collection: an
/// insertion never lowers it, a write to an entry that is there keeps it, and
/// so do a lookup that reads no flag released and a pass that finds none.
pub proof fn lemma_len_shrinks_only_by_removal<K, V>(
    t: Map<K, (V, ReleasedFlag)>,
    k: K,
    slot: (V, ReleasedFlag),
)
    requires
        t.dom().finite(),
    ensures
        t.insert(k, slot).len() >= t.len(),
        t.contains_key(k) ==> t.insert(k, slot).len() == t.len(),
        evict(t, k, false).len() == t.len(),
        sweep(t, Set::empty()).len() == t.len(),
{
    assert(sweep(t, Set::empty()) =~= t);
}

/// Eviction and collection never add an entry: what they leave is within what
/// was there, and no larger.
pub proof fn lemma_removal_shrinks<K, V>(
    t: Map<K, (V, ReleasedFlag)>,
    k: K,
    released: bool,
    found: Set<K>,
)
    requires
        t.dom().finite(),
    ensures
        within(evict(t, k, released), t),
        evict(t, k, released).len() <= t.len(),
        within(sweep(t, found), t),
        sweep(t, found).len() <= t.len(),
{
    assert(sweep(t, found).dom().subset_of(t.dom()));
    vstd::set_lib::lemma_len_subset(sweep(t, found).dom(), t.dom());
}

/// While no pass is due, the releases that have been counted are fewer than
/// half of the entries, and so is any garbage among the entries that is no
/// more than what has been counted. Right after a pass, none of the entries
/// whose flag the pass found released is left.
pub proof fn lemma_garbage_is_bounded<K, V>(
    t: Map<K, (V, ReleasedFlag)>,
    found: Set<K>,
    count: nat,
    garbage: nat,
)
    requires
        garbage <= count,
    ensures
        !gc_due(count, t.len()) ==> 2 * garbage < t.len(),
        forall|j: K| #[trigger] sweep(t, found).contains_key(j) ==> !found.contains(j),
{
}

} // verus!
