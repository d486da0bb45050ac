//! Leases and the atomic cells they share with a map.
//!
//! A lease and the map never call each other. They meet in two cells: the
//! released flag of one entry, and the reclaim counter of the map. Both are
//! atomic, so a lease may be dropped at any moment and by any thread while the
//! map is being used, and for the same reason nothing is proved of what a cell
//! holds: reading one gives whatever was there when it was read.

use std::sync::atomic::AtomicBool;
use std::sync::atomic::AtomicUsize;
use std::sync::atomic::Ordering;
use std::sync::Arc;
use vstd::prelude::*;

verus! {

/// The released flag of one entry: shared by the entry and the lease issued for
/// it. It starts out `false` and is set once, when that lease is dropped.
pub type ReleasedFlag = Arc<AtomicBool>;

/// The reclaim counter of one map: shared by the map and every lease it issued,
/// bumped by each lease as it is dropped and reset by each collection pass.
pub type ReclaimCounter = Arc<AtomicUsize>;

/// `seen` is what a read of `flag` gave. This relates one read to its result:
/// reads at other moments may give something else, and nothing follows for
/// what the flag holds.
pub closed spec fn read_gave(flag: ReleasedFlag, seen: bool) -> bool {
    call_ensures(AtomicBool::load, (&*flag, Ordering::SeqCst), seen)
}

/// `count` is what a read of `counter` gave, in the sense of [`read_gave`].
pub closed spec fn count_gave(counter: ReclaimCounter, count: usize) -> bool {
    call_ensures(AtomicUsize::load, (&*counter, Ordering::SeqCst), count)
}

/// `counter` is a cell that was made holding zero.
pub closed spec fn made_at_zero(counter: ReclaimCounter) -> bool {
    call_ensures(AtomicUsize::new, (0usize,), *counter)
}

/// `flag` is a cell that was made not set.
pub closed spec fn made_unset(flag: ReleasedFlag) -> bool {
    call_ensures(AtomicBool::new, (false,), *flag)
}

/// `true` was stored to `flag`: the flag was set.
pub closed spec fn release_stored(flag: ReleasedFlag) -> bool {
    call_ensures(AtomicBool::store, (&*flag, true, Ordering::SeqCst), ())
}

/// One was added to `counter`, and the addition returned `before`.
pub closed spec fn release_counted(counter: ReclaimCounter, before: usize) -> bool {
    call_ensures(AtomicUsize::fetch_add, (&*counter, 1usize, Ordering::SeqCst), before)
}

/// Zero was stored to `counter`: the counter was reset.
pub closed spec fn was_reset(counter: ReclaimCounter) -> bool {
    call_ensures(AtomicUsize::store, (&*counter, 0usize, Ordering::SeqCst), ())
}

/// The lease of one entry. It has no readable state: it is held, or dropped.
/// Dropping it sets the entry's released flag and bumps the map's counter.
pub struct MarkOnDrop {
    marker: ReleasedFlag,
    gc: ReclaimCounter,
}

impl MarkOnDrop {
    /// The flag this lease sets when it is dropped.
    pub closed spec fn flag(&self) -> ReleasedFlag {
        self.marker
    }

    /// The counter this lease bumps when it is dropped.
    pub closed spec fn counter(&self) -> ReclaimCounter {
        self.gc
    }

    /// Issues a lease on a flag of its own that is not set, bound to the
    /// counter `gc`, and returns it with the handle on the flag that goes into
    /// the entry.
    pub(crate) fn issue(gc: &ReclaimCounter) -> (r: (MarkOnDrop, ReleasedFlag))
        ensures
            r.0.counter() == *gc,
            r.0.flag() == r.1,
            made_unset(r.1),
    {
        let marker: ReleasedFlag = Arc::new(AtomicBool::new(false));
        let shared = share(&marker);
        (MarkOnDrop { marker, gc: share(gc) }, shared)
    }
}

impl Drop for MarkOnDrop {
    /// Releases the entry: sets its flag, then adds one to the counter of the
    /// map. The lease keeps its two handles; no table is touched.
    fn drop(&mut self)
        ensures
            final(self).flag() == old(self).flag(),
            final(self).counter() == old(self).counter(),
            release_stored(old(self).flag()),
            exists|before: usize| #[trigger] release_counted(old(self).counter(), before),
        opens_invariants none
        no_unwind
    {
        store_flag(&self.marker, true);
        let before: usize = add_count(&self.gc, 1);
        assert(release_counted(old(self).counter(), before));
    }
}

/// A second handle on the same cell.
pub(crate) fn share<T>(cell: &Arc<T>) -> (r: Arc<T>)
    ensures
        r == *cell,
{
    cell.clone()
}

/// `AtomicBool::store`, sequentially consistent. Trusted: the result is that
/// of the store of `value` to `flag`, and with this ordering the store does not
/// panic, so it returns without unwinding, as a destructor must. Nothing is
/// claimed of the cell's contents.
#[verifier::external_body]
fn store_flag(flag: &AtomicBool, value: bool) -> (r: ())
    ensures
        call_ensures(AtomicBool::store, (flag, value, Ordering::SeqCst), r),
    opens_invariants none
    no_unwind
{
    flag.store(value, Ordering::SeqCst)
}

/// `AtomicUsize::fetch_add`, sequentially consistent. Trusted: the result is
/// what the addition of `by` to `counter` returned; the addition wraps around
/// on overflow and does not panic, so it returns without unwinding, as a
/// destructor must. Nothing is claimed of the cell's contents.
#[verifier::external_body]
fn add_count(counter: &AtomicUsize, by: usize) -> (before: usize)
    ensures
        call_ensures(AtomicUsize::fetch_add, (counter, by, Ordering::SeqCst), before),
    opens_invariants none
    no_unwind
{
    counter.fetch_add(by, Ordering::SeqCst)
}

/// Reads a released flag. A lease may set it at any moment, so the result is
/// whatever the cell held when it was read.
pub(crate) fn is_released(flag: &ReleasedFlag) -> (seen: bool)
    ensures
        read_gave(*flag, seen),
{
    flag.load(Ordering::SeqCst)
}

/// A counter of its own, starting at zero.
pub(crate) fn new_counter() -> (counter: ReclaimCounter)
    ensures
        made_at_zero(counter),
{
    Arc::new(AtomicUsize::new(0))
}

/// Reads a counter: the releases counted since it was last reset, as far as
/// they had arrived when it was read.
pub(crate) fn releases(counter: &ReclaimCounter) -> (count: usize)
    ensures
        count_gave(*counter, count),
{
    counter.load(Ordering::SeqCst)
}

/// Resets a counter to zero.
pub(crate) fn reset(counter: &ReclaimCounter)
    ensures
        was_reset(*counter),
{
    counter.store(0, Ordering::SeqCst)
}

} // verus!
