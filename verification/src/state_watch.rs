//! A change notification that loses no change between a look at the state and the wait
//! for the next change.

use vstd::prelude::*;

verus! {

/// A single-threaded change-notification primitive over shared state.
///
/// A waiter captures the current version while it looks at the state and, when the
/// state is not yet what it needs, waits for the version to advance past the captured
/// one. Each waiter has a number, by which whoever notifies wakes it.
pub struct StateWatch {
    version: u64,
    waiters: Vec<u64>,
}

/// The contents of a [`StateWatch`].
#[verifier::ext_equal]
pub struct WatchView {
    /// How many changes were recorded.
    pub version: u64,
    /// Who waits for the next change, in the order in which they came.
    pub waiters: Seq<u64>,
}

impl View for StateWatch {
    type V = WatchView;

    closed spec fn view(&self) -> WatchView {
        WatchView { version: self.version, waiters: self.waiters@ }
    }
}

/// The watch after one more change.
pub open spec fn notified(watch: WatchView) -> WatchView {
    WatchView { version: (watch.version + 1) as u64, waiters: seq![] }
}

/// The watch after `waiter` polled for a change past `seen`: it joins the waiters
/// where nothing has changed and it does not wait already.
pub open spec fn polled(watch: WatchView, seen: u64, waiter: u64) -> WatchView {
    if watch.version != seen || watch.waiters.contains(waiter) {
        watch
    } else {
        WatchView { version: watch.version, waiters: watch.waiters.push(waiter) }
    }
}

impl StateWatch {
    /// A watch over state that has not changed yet.
    pub fn new() -> (r: Self)
        ensures
            r@ == (WatchView { version: 0, waiters: seq![] }),
    {
        StateWatch { version: 0, waiters: Vec::new() }
    }

    /// The current change version. Capture it while looking at the state, before
    /// deciding to wait.
    pub fn version(&self) -> (r: u64)
        ensures
            r == self@.version,
    {
        self.version
    }

    /// Record a state change; the waiters to wake are handed back.
    pub fn notify(&mut self) -> (woken: Vec<u64>)
        requires
            old(self)@.version < u64::MAX,
        ensures
            final(self)@ == notified(old(self)@),
            woken@ == old(self)@.waiters,
    {
        self.version = self.version + 1;
        let mut woken: Vec<u64> = Vec::new();
        std::mem::swap(&mut woken, &mut self.waiters);
        woken
    }

    /// Resolves once the version has advanced past `seen`.
    pub fn changed(&self, seen: u64) -> (r: Changed)
        ensures
            r.seen == seen,
    {
        Changed { seen }
    }
}

/// The wait for the version to advance past `seen`.
pub struct Changed {
    pub seen: u64,
}

impl Changed {
    /// Whether the version has advanced. If not, `waiter` is woken at the next change.
    pub fn poll(&self, watch: &mut StateWatch, waiter: u64) -> (ready: bool)
        ensures
            ready == (old(watch)@.version != self.seen),
            final(watch)@ == polled(old(watch)@, self.seen, waiter),
    {
        if watch.version != self.seen {
            return true;
        }
        let mut i: usize = 0;
        while i < watch.waiters.len()
            invariant
                i <= watch.waiters@.len(),
                *watch == *old(watch),
                watch.version == self.seen,
                forall|k: int| 0 <= k < i ==> watch.waiters@[k] != waiter,
            decreases watch.waiters@.len() - i,
        {
            if watch.waiters[i] == waiter {
                assert(watch.waiters@.contains(waiter));
                return false;
            }
            i = i + 1;
        }
        watch.waiters.push(waiter);
        false
    }
}

/// A change between the look at the state and the wait is not lost: once a change was
/// recorded, a poll with a version captured before it is ready.
pub proof fn law_no_change_is_lost(watch: WatchView, seen: u64)
    requires
        seen <= watch.version,
        watch.version < u64::MAX,
    ensures
        notified(watch).version != seen,
{
}

/// Whoever polls and is not ready is among those that the next change wakes, and so is
/// everyone who waited before; nobody waits twice.
pub proof fn law_every_waiter_is_woken(watch: WatchView, seen: u64, waiter: u64, other: u64)
    requires
        watch.version == seen,
        watch.waiters.no_duplicates(),
    ensures
        polled(watch, seen, waiter).waiters.contains(waiter),
        watch.waiters.contains(other) ==> polled(watch, seen, waiter).waiters.contains(other),
        polled(watch, seen, waiter).waiters.no_duplicates(),
        notified(polled(watch, seen, waiter)).waiters.len() == 0,
{
    if !watch.waiters.contains(waiter) {
        let after = watch.waiters.push(waiter);
        assert(after[watch.waiters.len() as int] == waiter);
        if watch.waiters.contains(other) {
            let k = watch.waiters.index_of(other);
            assert(after[k] == other);
        }
        assert forall|i: int, j: int|
            0 <= i < after.len() && 0 <= j < after.len() && i != j implies after[i] != after[j] by {
            if i == watch.waiters.len() {
                assert(watch.waiters.contains(after[j]));
            } else if j == watch.waiters.len() {
                assert(watch.waiters.contains(after[i]));
            }
        }
    }
}

/// A change advances the version by one and leaves nobody waiting; a poll never changes
/// the version, and is registered exactly if nothing has changed since.
pub proof fn law_only_changes_advance_the_version(watch: WatchView, seen: u64, waiter: u64)
    requires
        watch.version < u64::MAX,
    ensures
        notified(watch).version == watch.version + 1,
        notified(watch).waiters.len() == 0,
        polled(watch, seen, waiter).version == watch.version,
        watch.version != seen ==> polled(watch, seen, waiter) == watch,
        polled(watch, seen, waiter).waiters.contains(waiter) <==> watch.version == seen
            || watch.waiters.contains(waiter),
        polled(watch, seen, waiter).waiters.len() <= watch.waiters.len() + 1,
{
    if watch.version == seen && !watch.waiters.contains(waiter) {
        let after = watch.waiters.push(waiter);
        assert(after[watch.waiters.len() as int] == waiter);
    }
}

} // verus!
