//! The counter of active worker threads.

use std::sync::atomic::{AtomicUsize, Ordering};
use std::sync::Arc;
use vstd::prelude::*;

verus! {

/// The slots that a sequence of changes to the counter leaves claimed: its sum.
pub open spec fn held(changes: Seq<int>) -> int
    decreases changes.len(),
{
    if changes.len() == 0 {
        0
    } else {
        held(changes.drop_last()) + changes.last()
    }
}

/// The changes that claim `n` slots one after the other.
pub open spec fn claims(n: nat) -> Seq<int> {
    Seq::new(n, |i: int| 1int)
}

/// Appending a sequence of changes adds up.
pub proof fn lemma_held_append(a: Seq<int>, b: Seq<int>)
    ensures
        held(a + b) == held(a) + held(b),
    decreases b.len(),
{
    if b.len() == 0 {
        assert(a + b == a);
    } else {
        assert((a + b).drop_last() == a + b.drop_last());
        lemma_held_append(a, b.drop_last());
    }
}

/// `n` claims leave `n` slots claimed.
pub proof fn lemma_held_claims(n: nat)
    ensures
        held(claims(n)) == n,
    decreases n,
{
    if n > 0 {
        let m: nat = (n - 1) as nat;
        lemma_held_claims(m);
        assert(claims(n).drop_last() == claims(m));
    }
}

/// A handle on the shared counter of active worker threads.
///
/// The counter is shared between threads, so no handle knows its value. What a handle does
/// know is what was done through it: its view is the sequence of changes made to the counter
/// through this handle, oldest first, `1` for a slot claimed and `-1` for one handed back.
pub struct SlotCounter {
    shared: Arc<AtomicUsize>,
    changes: Ghost<Seq<int>>,
}

impl View for SlotCounter {
    type V = Seq<int>;

    closed spec fn view(&self) -> Seq<int> {
        self.changes@
    }
}

impl SlotCounter {
    /// The counter that this is a handle on.
    pub closed spec fn counter(&self) -> Arc<AtomicUsize> {
        self.shared
    }

    /// A handle on `shared`, through which nothing was done yet.
    pub fn new(shared: Arc<AtomicUsize>) -> (slots: SlotCounter)
        ensures
            slots.counter() == shared,
            slots@ == Seq::<int>::empty(),
    {
        SlotCounter { shared, changes: Ghost(Seq::empty()) }
    }

    /// Calls `AtomicUsize::fetch_add` with 1 on the counter. The call raises the counter by
    /// one in a single step, wrapping around at the type's bound, and does not panic; the
    /// handle's view records it. The value before the call is not returned: other threads
    /// decide it.
    #[verifier::external_body]
    pub(crate) fn claim(&mut self)
        ensures
            final(self)@ == old(self)@.push(1),
            final(self).counter() == old(self).counter(),
        opens_invariants none
        no_unwind
    {
        self.shared.fetch_add(1, Ordering::Relaxed);
    }

    /// Calls `AtomicUsize::fetch_sub` with 1 on the counter. The call lowers the counter by
    /// one in a single step, wrapping around at zero, and does not panic; the handle's view
    /// records it. The value before the call is not returned: other threads decide it.
    #[verifier::external_body]
    pub(crate) fn release(&mut self)
        ensures
            final(self)@ == old(self)@.push(-1),
            final(self).counter() == old(self).counter(),
        opens_invariants none
        no_unwind
    {
        self.shared.fetch_sub(1, Ordering::Relaxed);
    }
}

} // verus!
