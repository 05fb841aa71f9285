//! What spawns workers, and the record of the workers that it was asked for.

use crate::slots::SlotCounter;
use crate::tick::WorkerState;
use vstd::prelude::*;

verus! {

/// One call of what spawns workers.
pub struct SpawnCall {
    /// The number of the worker that was asked for.
    pub worker: usize,
    /// Whether that worker was started.
    pub started: bool,
}

/// The calls that start the workers `0`, `1`, and so on up to `n - 1`, each of them once.
pub open spec fn first(n: nat) -> Seq<SpawnCall> {
    Seq::new(n, |i: int| SpawnCall { worker: i as usize, started: true })
}

/// How many workers these calls have started.
pub open spec fn started_by(calls: Seq<SpawnCall>) -> nat
    decreases calls.len(),
{
    if calls.len() == 0 {
        0
    } else if calls.last().started {
        started_by(calls.drop_last()) + 1
    } else {
        started_by(calls.drop_last())
    }
}

/// Appending calls adds up.
pub proof fn lemma_started_by_append(a: Seq<SpawnCall>, b: Seq<SpawnCall>)
    ensures
        started_by(a + b) == started_by(a) + started_by(b),
    decreases b.len(),
{
    if b.len() == 0 {
        assert(a + b == a);
    } else {
        assert((a + b).drop_last() == a + b.drop_last());
        lemma_started_by_append(a, b.drop_last());
    }
}

/// The first `n` calls start `n` workers.
pub proof fn lemma_started_by_first(n: nat)
    ensures
        started_by(first(n)) == n,
    decreases n,
{
    if n > 0 {
        let m = (n - 1) as nat;
        lemma_started_by_first(m);
        assert(first(n).drop_last() == first(m));
    }
}

/// Something that spawns workers, with the record of all calls made of it, oldest first. It can
/// be called in no other way than through this type, and no call is left out of the record.
pub struct Spawner<S> {
    f: S,
    calls: Ghost<Seq<SpawnCall>>,
}

impl<S> Spawner<S> {
    /// What is called.
    pub closed spec fn f(&self) -> S {
        self.f
    }

    /// The calls made, oldest first.
    pub closed spec fn calls(&self) -> Seq<SpawnCall> {
        self.calls@
    }

    /// Spawns one worker.
    pub fn call<H, E>(&mut self, worker: usize, slots: &SlotCounter) -> (result: Result<
        H,
        E,
    >) where S: FnMut(usize, &SlotCounter) -> Result<H, E>
        requires
            call_requires(old(self).f(), (worker, slots)),
        ensures
            final(self).f() == old(self).f(),
            final(self).calls() == old(self).calls().push(
                (SpawnCall { worker, started: result is Ok }),
            ),
            call_ensures(old(self).f(), (worker, slots), result),
    {
        let result = (self.f)(worker, slots);
        self.calls = Ghost(self.calls@.push(SpawnCall { worker, started: result is Ok }));
        result
    }

    /// Spawns one worker, which works with `state`.
    pub fn call_with<H, E>(&mut self, worker: usize, slots: &SlotCounter, state: WorkerState) -> (
    result: Result<H, E>) where S: FnMut(usize, &SlotCounter, WorkerState) -> Result<H, E>
        requires
            call_requires(old(self).f(), (worker, slots, state)),
        ensures
            final(self).f() == old(self).f(),
            final(self).calls() == old(self).calls().push(
                (SpawnCall { worker, started: result is Ok }),
            ),
            call_ensures(old(self).f(), (worker, slots, state), result),
    {
        let result = (self.f)(worker, slots, state);
        self.calls = Ghost(self.calls@.push(SpawnCall { worker, started: result is Ok }));
        result
    }

    /// A spawner of workers, given their number and the counter of active threads.
    pub fn new<H, E>(f: S) -> (spawner: Self) where S: FnMut(usize, &SlotCounter) -> Result<H, E>
        ensures
            spawner.f() == f,
            spawner.calls() == Seq::<SpawnCall>::empty(),
    {
        Spawner { f, calls: Ghost(Seq::empty()) }
    }

    /// A spawner of workers, given what they work with as well.
    pub fn with_state<H, E>(f: S) -> (spawner: Self) where
        S: FnMut(usize, &SlotCounter, WorkerState) -> Result<H, E>,

        ensures
            spawner.f() == f,
            spawner.calls() == Seq::<SpawnCall>::empty(),
    {
        Spawner { f, calls: Ghost(Seq::empty()) }
    }
}

} // verus!
