//! The guard by which a worker hands back its slot when it leaves.

use crate::slots::SlotCounter;
use std::sync::atomic::AtomicUsize;
use std::sync::Arc;
use vstd::prelude::*;

verus! {

/// Hands a worker's slot back when the worker thread leaves, whatever the reason: graceful
/// close, error return or unwinding panic.
///
/// Whoever closes the database waits for the counter to reach zero, so a slot that is never
/// handed back makes closing the database hang forever.
pub struct ActiveThreadGuard(SlotCounter);

impl View for ActiveThreadGuard {
    type V = Seq<int>;

    closed spec fn view(&self) -> Seq<int> {
        self.0@
    }
}

impl ActiveThreadGuard {
    /// The counter in which the guarded slot is claimed.
    pub closed spec fn counter(&self) -> Arc<AtomicUsize> {
        self.0.counter()
    }

    /// A guard of one claimed slot. Making it changes nothing in the counter.
    pub fn new(slots: SlotCounter) -> (guard: ActiveThreadGuard)
        ensures
            guard@ == slots@,
            guard.counter() == slots.counter(),
    {
        ActiveThreadGuard(slots)
    }
}

impl Drop for ActiveThreadGuard {
    fn drop(&mut self)
        ensures
            final(self)@ == old(self)@.push(-1),
            final(self).counter() == old(self).counter(),
        opens_invariants none
        no_unwind
    {
        self.0.release();
    }
}

/// Whether the worker of this guard still runs: the guard has done nothing to the counter.
pub open spec fn running(guard: ActiveThreadGuard) -> bool {
    guard@ == Seq::<int>::empty()
}

/// Whether the worker of this guard has left: the guard has handed back one slot.
pub open spec fn left(guard: ActiveThreadGuard) -> bool {
    guard@ == Seq::<int>::empty().push(-1)
}

/// Whether each of these guards has its worker still running, or left.
pub open spec fn guards_of_workers(guards: Seq<ActiveThreadGuard>) -> bool {
    forall|i: int| 0 <= i < guards.len() ==> running(#[trigger] guards[i]) || left(guards[i])
}

/// What these guards have added to the counter altogether, in whatever order and on whatever
/// threads.
pub open spec fn added_by(guards: Seq<ActiveThreadGuard>) -> int
    decreases guards.len(),
{
    if guards.len() == 0 {
        0
    } else {
        added_by(guards.drop_last()) + crate::slots::held(guards.last()@)
    }
}

/// How many of the workers still run.
pub open spec fn running_count(guards: Seq<ActiveThreadGuard>) -> nat
    decreases guards.len(),
{
    if guards.len() == 0 {
        0
    } else if running(guards.last()) {
        running_count(guards.drop_last()) + 1
    } else {
        running_count(guards.drop_last())
    }
}

/// What guards have added to the counter, by the workers that still run.
pub proof fn lemma_added_by(guards: Seq<ActiveThreadGuard>)
    requires
        guards_of_workers(guards),
    ensures
        added_by(guards) == running_count(guards) - guards.len(),
        running_count(guards) <= guards.len(),
        running_count(guards) == 0 <==> forall|i: int|
            0 <= i < guards.len() ==> left(#[trigger] guards[i]),
        running_count(guards) == guards.len() <==> forall|i: int|
            0 <= i < guards.len() ==> running(#[trigger] guards[i]),
    decreases guards.len(),
{
    if guards.len() > 0 {
        let rest = guards.drop_last();
        assert forall|i: int| 0 <= i < rest.len() implies running(#[trigger] rest[i]) || left(
            rest[i],
        ) by {
            assert(rest[i] == guards[i]);
        }
        lemma_added_by(rest);
        let last = guards[guards.len() - 1];
        if left(last) {
            assert(last@.drop_last() == Seq::<int>::empty());
            assert(crate::slots::held(last@) == -1) by {
                reveal_with_fuel(crate::slots::held, 2);
            }
            assert(last@.len() == 1);
        }
        assert((forall|i: int| 0 <= i < guards.len() ==> left(#[trigger] guards[i])) <==> left(last)
            && forall|i: int| 0 <= i < rest.len() ==> left(#[trigger] rest[i])) by {
            assert(forall|i: int| 0 <= i < rest.len() ==> #[trigger] rest[i] == guards[i]);
            assert(forall|i: int| 0 <= i < rest.len() ==> #[trigger] guards[i] == rest[i]);
        }
        assert((forall|i: int| 0 <= i < guards.len() ==> running(#[trigger] guards[i]))
            <==> running(last) && forall|i: int|
            0 <= i < rest.len() ==> running(#[trigger] rest[i])) by {
            assert(forall|i: int| 0 <= i < rest.len() ==> #[trigger] rest[i] == guards[i]);
            assert(forall|i: int| 0 <= i < rest.len() ==> #[trigger] guards[i] == rest[i]);
        }
    }
}

/// Guards hand back one slot each, when they are dropped and not before: with the counter at
/// `value` when they were made, it stands at `value - j` after `j` of them were dropped, in
/// whatever order. So making guards changes nothing, and dropping all `n` lowers the counter by
/// `n`.
pub proof fn law_guards_hand_back_one_slot_each(value: int, guards: Seq<ActiveThreadGuard>)
    requires
        guards_of_workers(guards),
    ensures
        value + added_by(guards) == value - (guards.len() - running_count(guards)),
        running_count(guards) <= guards.len(),
        (forall|i: int| 0 <= i < guards.len() ==> running(#[trigger] guards[i])) ==> value
            + added_by(guards) == value,
        (forall|i: int| 0 <= i < guards.len() ==> left(#[trigger] guards[i])) ==> value + added_by(
            guards,
        ) == value - guards.len(),
{
    lemma_added_by(guards);
}

} // verus!
