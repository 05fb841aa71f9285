//! The pool of worker threads.

use crate::slots::SlotCounter;
use crate::spawner::{SpawnCall, Spawner};
use crate::tick::WorkerState;
use crate::wake::{Offer, WakeLine, WakeOp};
use vstd::prelude::*;

verus! {

/// A pool of worker threads. `H` is what is kept of a thread that was spawned.
pub struct WorkerPool<H> {
    thread_handles: Vec<H>,
    /// Room for one wake. Extra pokes while a worker is already awake are dropped.
    wake: WakeLine,
}

/// What the workers of a pool get when it is started.
pub struct WorkerSetup {
    /// The line over which they are woken.
    pub line: WakeLine,
    /// The signal that stops them.
    pub stop: lsm_tree::stop_signal::StopSignal,
    /// The disk space that the journals may use, in bytes.
    pub max_journaling_size: u64,
}

/// Whether `spawn` can have been called for worker `i` with this result. It was given the state
/// of a new worker on the pool's line, at a moment when exactly the slots of the workers up to
/// and including `i` had been claimed through a handle that stood at `start`.
pub open spec fn launched<H, E, S: FnMut(usize, &SlotCounter, WorkerState) -> Result<H, E>>(
    spawn: S,
    setup: WorkerSetup,
    start: SlotCounter,
    i: int,
    result: Result<H, E>,
) -> bool {
    exists|slots: SlotCounter, state: WorkerState|
        {
            &&& slots.counter() == start.counter()
            &&& slots@ == start@ + crate::slots::claims((i + 1) as nat)
            &&& state.fresh(setup.line, setup.stop, setup.max_journaling_size)
            &&& #[trigger] call_ensures(spawn, (i as usize, &slots, state), result)
        }
}

/// Whether `handles` can be what `spawn` returned for the workers `0`, `1`, and so on.
pub open spec fn all_launched<H, E, S: FnMut(usize, &SlotCounter, WorkerState) -> Result<H, E>>(
    spawn: S,
    setup: WorkerSetup,
    start: SlotCounter,
    handles: Seq<H>,
) -> bool {
    forall|i: int|
        0 <= i < handles.len() ==> launched(
            spawn,
            setup,
            start,
            i,
            Ok::<H, E>(#[trigger] handles[i]),
        )
}

/// Making `n` other holders of a line.
pub open spec fn shares(n: nat) -> Seq<WakeOp> {
    Seq::new(n, |i: int| WakeOp::Shared)
}

impl<H> WorkerPool<H> {
    /// What is kept of the threads, one for each worker.
    pub closed spec fn handles(&self) -> Seq<H> {
        self.thread_handles@
    }

    /// The line over which the workers are woken.
    pub closed spec fn line(&self) -> WakeLine {
        self.wake
    }

    /// What was done over the line through the pool, oldest first.
    pub open spec fn signals(&self) -> Seq<WakeOp> {
        self.line()@
    }

    /// Whether this is a pool as it is prepared: without workers, with a line for one wake that
    /// has none on it and that nobody else holds.
    pub open spec fn prepared(&self) -> bool {
        &&& self.handles() == Seq::<H>::empty()
        &&& self.line().room() == Some(1nat)
        &&& self.line().sole()
        &&& self.signals() == Seq::<WakeOp>::empty()
    }

    /// Whether one wake was put on the line through the pool, and nothing else was done. As long
    /// as nobody else holds the line, the wake is taken if and only if there is none on it.
    pub open spec fn poked(&self, before: &Self, offer: Offer) -> bool {
        &&& self.handles() == before.handles()
        &&& self.line().did(&before.line(), WakeOp::Offered(offer))
        &&& offer is Taken || offer is Full
        &&& before.line().sole() ==> offer == if crate::wake::pending(before.signals()) == 0 {
            Offer::Taken
        } else {
            Offer::Full
        }
    }

    /// A pool without workers, with a line for one wake. There is no wake on the line, and nobody
    /// else holds it.
    pub fn prepare() -> (pool: Self)
        ensures
            pool.prepared(),
            pool.handles() == Seq::<H>::empty(),
            pool.line().room() == Some(1nat),
            pool.line().sole(),
            pool.signals() == Seq::<WakeOp>::empty(),
            crate::wake::pending(pool.signals()) == 0,
    {
        WorkerPool { thread_handles: Vec::new(), wake: WakeLine::open() }
    }

    /// Wakes a worker. An extra wake is dropped. Once there are other holders of the line, whether
    /// it is an extra one is up to them too.
    pub fn poke(&mut self)
        ensures
            exists|offer: Offer| #[trigger] final(self).poked(old(self), offer),
            final(self).handles() == old(self).handles(),
            final(self).line().sender() == old(self).line().sender(),
            final(self).line().receiver() == old(self).line().receiver(),
            final(self).line().sole() == old(self).line().sole(),
            crate::protocol::one_wake(old(self).signals(), final(self).signals()),
            old(self).line().sole() ==> {
                &&& final(self).signals() == old(self).signals().push(
                    WakeOp::Offered(
                        if crate::wake::pending(old(self).signals()) == 0 {
                            Offer::Taken
                        } else {
                            Offer::Full
                        },
                    ),
                )
                &&& crate::wake::pending(final(self).signals()) == 1
            },
    {
        let offer = self.wake.poke();
        assert(self.poked(old(self), offer));
        proof {
            if old(self).line().sole() {
                let pokes = seq![WakeOp::Offered(offer)];
                assert(self.signals() == old(self).signals() + pokes);
                crate::wake::law_extra_pokes_are_dropped(old(self).signals(), pokes);
            }
        }
    }

    /// The handles of the workers, in the order in which they were started.
    pub fn thread_handles(&self) -> (handles: &Vec<H>)
        ensures
            handles@ == self.handles(),
    {
        &self.thread_handles
    }

    /// A holder of the pool's line, by which others can wake a worker.
    pub fn waker(&mut self) -> (line: WakeLine)
        ensures
            line.same_line(&old(self).line()),
            line.sender() == old(self).line().sender(),
            line.receiver() == old(self).line().receiver(),
            !line.sole(),
            line@ == Seq::<WakeOp>::empty(),
            final(self).handles() == old(self).handles(),
            final(self).line().same_line(&old(self).line()),
            final(self).line().sender() == old(self).line().sender(),
            final(self).line().receiver() == old(self).line().receiver(),
            !final(self).line().sole(),
            final(self).signals() == old(self).signals().push(WakeOp::Shared),
    {
        self.wake.share()
    }

    /// Starts `pool_size` workers and keeps their handles.
    ///
    /// A worker's slot in the counter is claimed right before the worker is spawned. If a spawn
    /// fails, its slot is handed back, no other worker is spawned, and the pool keeps the
    /// handles that it had; the workers spawned before go on and hold their slots.
    ///
    /// The spawn is given the number of the worker, the counter, and what the worker works
    /// with: the thread guards its slot with an `ActiveThreadGuard`, and then lives as
    /// `begin_worker` and `resume_worker` say. It is called once per worker, in their order, and
    /// not again after a failure.
    pub fn start<E, S: FnMut(usize, &SlotCounter, WorkerState) -> Result<H, E>>(
        &mut self,
        pool_size: usize,
        max_journaling_size: u64,
        thread_counter: &mut SlotCounter,
        stop: &lsm_tree::stop_signal::StopSignal,
        spawner: &mut Spawner<S>,
    ) -> (result: Result<(), E>)
        requires
            forall|i: usize, slots: SlotCounter, state: WorkerState|
                {
                    &&& i < pool_size
                    &&& slots.counter() == old(thread_counter).counter()
                    &&& slots@ == old(thread_counter)@ + crate::slots::claims((i + 1) as nat)
                    &&& state.fresh(old(self).line(), *stop, max_journaling_size)
                } ==> #[trigger] call_requires(old(spawner).f(), (i, &slots, state)),
        ensures
            final(self).line().same_line(&old(self).line()),
            final(self).line().sender() == old(self).line().sender(),
            final(self).line().receiver() == old(self).line().receiver(),
            final(self).line().sole() == (old(self).line().sole() && pool_size == 0),
            final(thread_counter).counter() == old(thread_counter).counter(),
            final(spawner).f() == old(spawner).f(),
            crate::claim::one_slot_per_worker(
                old(thread_counter)@,
                old(spawner).calls(),
                final(thread_counter)@,
                final(spawner).calls(),
            ),
            ({
                let setup = WorkerSetup { line: old(self).line(), stop: *stop, max_journaling_size };
                let start = *old(thread_counter);
                let spawn = old(spawner).f();
                match result {
                    Ok(()) => {
                        &&& final(self).handles().len() == pool_size
                        &&& all_launched::<H, E, S>(spawn, setup, start, final(self).handles())
                        &&& final(spawner).calls() == old(spawner).calls() + crate::spawner::first(
                            pool_size as nat,
                        )
                        &&& final(thread_counter)@ == start@ + crate::slots::claims(
                            pool_size as nat,
                        )
                        &&& crate::slots::held(final(thread_counter)@) == crate::slots::held(start@)
                            + pool_size
                        &&& final(self).signals() == old(self).signals() + shares(pool_size as nat)
                    },
                    Err(error) => {
                        &&& final(self).handles() == old(self).handles()
                        &&& exists|live: Seq<H>|
                            {
                                &&& #[trigger] all_launched::<H, E, S>(spawn, setup, start, live)
                                &&& live.len() < pool_size
                                &&& launched(
                                    spawn,
                                    setup,
                                    start,
                                    live.len() as int,
                                    Err::<H, E>(error),
                                )
                                &&& final(spawner).calls() == old(spawner).calls()
                                    + crate::spawner::first(live.len()).push(
                                    (SpawnCall { worker: live.len() as usize, started: false }),
                                )
                                &&& final(thread_counter)@ == start@ + crate::slots::claims(
                                    live.len() + 1,
                                ).push(-1)
                                &&& crate::slots::held(final(thread_counter)@)
                                    == crate::slots::held(start@) + live.len()
                                &&& final(self).signals() == old(self).signals() + shares(
                                    live.len() + 1,
                                )
                            }
                    },
                }
            }),
    {
        let mut handles: Vec<H> = Vec::new();
        let mut i: usize = 0;
        let ghost setup = WorkerSetup { line: self.wake, stop: *stop, max_journaling_size };
        let ghost start = *thread_counter;
        let ghost spawn = spawner.f();
        let ghost calls = spawner.calls();
        assert(start@ + crate::slots::claims(0) == start@);
        assert(calls + crate::spawner::first(0) == calls);
        assert(self.signals() + shares(0) == self.signals());
        while i < pool_size
            invariant
                i <= pool_size,
                self.handles() == old(self).handles(),
                self.line().same_line(&old(self).line()),
                self.line().sole() == (old(self).line().sole() && i == 0),
                self.signals() == old(self).signals() + shares(i as nat),
                start == *old(thread_counter),
                spawn == old(spawner).f(),
                calls == old(spawner).calls(),
                setup == (WorkerSetup {
                    line: old(self).line(),
                    stop: *stop,
                    max_journaling_size,
                }),
                forall|i: usize, slots: SlotCounter, state: WorkerState|
                    {
                        &&& i < pool_size
                        &&& slots.counter() == start.counter()
                        &&& slots@ == start@ + crate::slots::claims((i + 1) as nat)
                        &&& state.fresh(setup.line, *stop, max_journaling_size)
                    } ==> #[trigger] call_requires(spawn, (i, &slots, state)),
                thread_counter.counter() == start.counter(),
                thread_counter@ == start@ + crate::slots::claims(i as nat),
                spawner.f() == spawn,
                spawner.calls() == calls + crate::spawner::first(i as nat),
                handles@.len() == i,
                all_launched::<H, E, S>(spawn, setup, start, handles@),
            decreases pool_size - i,
        {
            thread_counter.claim();
            assert(thread_counter@ == start@ + crate::slots::claims((i + 1) as nat));
            let state = WorkerState::new(&mut self.wake, stop, max_journaling_size);
            assert(self.signals() == old(self).signals() + shares((i + 1) as nat));
            let ghost before = *thread_counter;
            let ghost given = state;
            let outcome = spawner.call_with(i, thread_counter, state);
            assert(launched(spawn, setup, start, i as int, outcome)) by {
                assert(before.counter() == start.counter());
                assert(given.fresh(setup.line, setup.stop, setup.max_journaling_size));
                assert(call_ensures(spawn, ((i as int) as usize, &before, given), outcome));
            }
            match outcome {
                Ok(handle) => {
                    handles.push(handle);
                    assert(spawner.calls() == calls + crate::spawner::first((i + 1) as nat));
                },
                Err(error) => {
                    thread_counter.release();
                    proof {
                        let failed = SpawnCall { worker: i, started: false };
                        let n = handles@.len();
                        assert(thread_counter@ == start@ + crate::slots::claims(n + 1).push(-1));
                        assert(spawner.calls() == calls + crate::spawner::first(n).push(failed));
                        crate::claim::lemma_next_failed(start@, calls, n, failed);
                    }
                    return Err(error);
                },
            }
            i = i + 1;
        }
        proof {
            crate::claim::lemma_all_started(start@, calls, pool_size as nat);
        }
        self.thread_handles = handles;
        Ok(())
    }
}

/// Whether these are the states of a pool, from its preparation on, as long as nobody else holds
/// its line, and the things done over the line between them.
pub open spec fn alone<H>(pools: Seq<WorkerPool<H>>, ops: Seq<WakeOp>) -> bool {
    &&& pools.len() == ops.len() + 1
    &&& pools[0].prepared()
    &&& forall|i: int|
        0 <= i < ops.len() ==> (#[trigger] pools[i + 1]).line().did(&pools[i].line(), ops[i])
}

/// At every moment from its preparation on, the line of a pool that nobody else holds has none or
/// one wake on it, whatever was done over it: a poke is taken if and only if there is none, and
/// waiting is over only if there is one.
pub proof fn law_prepared_pool_has_one_slot<H>(
    pools: Seq<WorkerPool<H>>,
    ops: Seq<WakeOp>,
    n: int,
)
    requires
        alone(pools, ops),
        0 <= n <= ops.len(),
    ensures
        pools[n].line().sole(),
        pools[n].line().same_line(&pools[0].line()),
        pools[n].signals() == ops.take(n),
        crate::wake::legal(1, ops.take(n)),
        0 <= crate::wake::pending(ops.take(n)) <= 1,
        n < ops.len() ==> match ops[n] {
            WakeOp::Offered(offer) => offer == if crate::wake::pending(ops.take(n)) == 0 {
                Offer::Taken
            } else {
                Offer::Full
            },
            WakeOp::Awaited { closed } => !closed && crate::wake::pending(ops.take(n)) == 1,
            WakeOp::Shared => true,
        },
    decreases n,
{
    if n == 0 {
        assert(ops.take(0) == Seq::<WakeOp>::empty());
    } else {
        law_prepared_pool_has_one_slot(pools, ops, n - 1);
        assert(pools[(n - 1) + 1].line().did(&pools[n - 1].line(), ops[n - 1]));
        assert(ops.take(n) == ops.take(n - 1).push(ops[n - 1]));
    }
    crate::wake::law_wakes_fit_the_line(1, ops.take(n), n);
    assert(ops.take(n).take(n) == ops.take(n));
    if n < ops.len() {
        assert(pools[n + 1].line().did(&pools[n].line(), ops[n]));
        assert(ops.take(n).push(ops[n]).drop_last() == ops.take(n));
    }
}

/// Extra pokes of a prepared pool are dropped: one poke or more with no wait between them, from
/// the `a`-th thing done over the line to before the `b`-th, leave exactly one wake on it, as one
/// poke does. The first of them is taken if and only if there was none, and all others find the
/// line full.
pub proof fn law_extra_pokes_of_a_prepared_pool_are_dropped<H>(
    pools: Seq<WorkerPool<H>>,
    ops: Seq<WakeOp>,
    a: int,
    b: int,
)
    requires
        alone(pools, ops),
        0 <= a < b <= ops.len(),
        forall|i: int| a <= i < b ==> #[trigger] ops[i] is Offered,
    ensures
        crate::wake::pending(pools[b].signals()) == 1,
        crate::wake::pending(pools[a + 1].signals()) == 1,
        ops[a] == WakeOp::Offered(
            if crate::wake::pending(pools[a].signals()) == 0 {
                Offer::Taken
            } else {
                Offer::Full
            },
        ),
        forall|i: int| a < i < b ==> #[trigger] ops[i] == WakeOp::Offered(Offer::Full),
{
    law_prepared_pool_has_one_slot(pools, ops, a);
    law_prepared_pool_has_one_slot(pools, ops, a + 1);
    law_prepared_pool_has_one_slot(pools, ops, b);
    let pokes = ops.subrange(a, b);
    assert(ops.take(a) + pokes == ops.take(b));
    assert(ops.take(a) + seq![ops[a]] == ops.take(a + 1));
    assert forall|i: int| 0 <= i < pokes.len() implies #[trigger] pokes[i] is Offered by {
        assert(pokes[i] == ops[a + i]);
    }
    crate::wake::law_extra_pokes_are_dropped(ops.take(a), pokes);
    crate::wake::law_extra_pokes_are_dropped(ops.take(a), seq![ops[a]]);
    assert(pokes[0] == ops[a]);
    assert forall|i: int| a < i < b implies #[trigger] ops[i] == WakeOp::Offered(Offer::Full) by {
        assert(ops[i] == pokes[i - a]);
    }
}

/// A poke of a prepared pool after its wake was taken is kept again: there was none on the line
/// by then, and there is one now.
pub proof fn law_poke_of_a_prepared_pool_after_wait_is_kept<H>(
    pools: Seq<WorkerPool<H>>,
    ops: Seq<WakeOp>,
    a: int,
)
    requires
        alone(pools, ops),
        0 <= a,
        a + 1 < ops.len(),
        ops[a] is Awaited,
        ops[a + 1] is Offered,
    ensures
        crate::wake::pending(pools[a + 1].signals()) == 0,
        ops[a + 1] == WakeOp::Offered(Offer::Taken),
        crate::wake::pending(pools[a + 2].signals()) == 1,
{
    law_prepared_pool_has_one_slot(pools, ops, a + 1);
    law_prepared_pool_has_one_slot(pools, ops, a + 2);
    assert(ops.take(a + 1) == ops.take(a).push(ops[a]));
    assert(ops.take(a + 2) == ops.take(a).push(ops[a]).push(ops[a + 1]));
    crate::wake::law_poke_after_wait_is_kept(
        ops.take(a),
        ops[a]->closed,
        ops[a + 1]->Offered_0,
    );
}

/// A pool and its workers poke the same one slot: where no wake is on the line, and the pool and
/// a worker of it both poke, in either order and with no wait meanwhile, exactly one wake is on
/// the line, and it is the one of whoever poked first. What was done over the line before, by all
/// its holders and in the order in which it took effect, is `history`; that the two pokes fit it
/// is the premise on a line that has more than one holder.
pub proof fn law_pool_and_worker_poke_one_slot<H>(
    pool: WorkerPool<H>,
    pool_poked: WorkerPool<H>,
    worker: WorkerState,
    worker_poked: WorkerState,
    history: Seq<WakeOp>,
    from_pool: Offer,
    from_worker: Offer,
)
    requires
        worker.line().same_line(&pool.line()),
        pool_poked.poked(&pool, from_pool),
        worker_poked.poked(&worker, from_worker),
        crate::wake::pending(history) == 0,
    ensures
        worker_poked.line().same_line(&pool_poked.line()),
        ({
            let one = history.push(WakeOp::Offered(from_pool)).push(WakeOp::Offered(from_worker));
            crate::wake::legal(1, one) ==> {
                &&& crate::wake::pending(one) == 1
                &&& from_pool is Taken
                &&& from_worker is Full
            }
        }),
        ({
            let other = history.push(WakeOp::Offered(from_worker)).push(
                WakeOp::Offered(from_pool),
            );
            crate::wake::legal(1, other) ==> {
                &&& crate::wake::pending(other) == 1
                &&& from_worker is Taken
                &&& from_pool is Full
            }
        }),
{
    let one = seq![WakeOp::Offered(from_pool), WakeOp::Offered(from_worker)];
    let other = seq![WakeOp::Offered(from_worker), WakeOp::Offered(from_pool)];
    assert(history.push(one[0]).push(one[1]) == history + one);
    assert(history.push(other[0]).push(other[1]) == history + other);
    if crate::wake::legal(1, history + one) {
        crate::wake::law_extra_pokes_are_dropped(history, one);
        assert(one[1] == WakeOp::Offered(Offer::Full));
    }
    if crate::wake::legal(1, history + other) {
        crate::wake::law_extra_pokes_are_dropped(history, other);
        assert(other[1] == WakeOp::Offered(Offer::Full));
    }
}

/// What a worker of the pool starts with: where `handles` are what `spawn` returned for the workers
/// of a pool, each of them was spawned with its own number, at a moment when one slot more was
/// claimed than workers had been spawned before it, and with what it needs: the pool's line, the
/// stop signal and the limit, all of them unused.
pub proof fn law_what_a_worker_starts_with<
    H,
    E,
    S: FnMut(usize, &SlotCounter, WorkerState) -> Result<H, E>,
>(spawn: S, setup: WorkerSetup, start: SlotCounter, handles: Seq<H>, i: int)
    requires
        all_launched::<H, E, S>(spawn, setup, start, handles),
        0 <= i < handles.len(),
    ensures
        exists|slots: SlotCounter, state: WorkerState|
            {
                &&& slots.counter() == start.counter()
                &&& crate::slots::held(slots@) == crate::slots::held(start@) + i + 1
                &&& state.line().sender() == setup.line.sender()
                &&& state.line().receiver() == setup.line.receiver()
                &&& state.stop_signal() == setup.stop
                &&& state.max_journaling_size() == setup.max_journaling_size
                &&& state.signals() == Seq::<WakeOp>::empty()
                &&& state.readings() == Seq::<bool>::empty()
                &&& #[trigger] call_ensures(spawn, (i as usize, &slots, state), Ok(handles[i]))
            },
{
    let result = Ok::<H, E>(handles[i]);
    assert(launched(spawn, setup, start, i, result));
    let (slots, state) = choose|slots: SlotCounter, state: WorkerState|
        {
            &&& slots.counter() == start.counter()
            &&& slots@ == start@ + crate::slots::claims((i + 1) as nat)
            &&& state.fresh(setup.line, setup.stop, setup.max_journaling_size)
            &&& #[trigger] call_ensures(spawn, (i as usize, &slots, state), result)
        };
    crate::slots::lemma_held_claims((i + 1) as nat);
    crate::slots::lemma_held_append(start@, crate::slots::claims((i + 1) as nat));
    assert(call_ensures(spawn, (i as usize, &slots, state), result));
}

/// Making other holders of a line puts no wake on it and takes none from it.
pub proof fn law_shares_wake_nobody(history: Seq<WakeOp>, n: nat)
    ensures
        shares(n).len() == n,
        forall|i: int| 0 <= i < n ==> #[trigger] shares(n)[i] == WakeOp::Shared,
        crate::wake::pending(history + shares(n)) == crate::wake::pending(history),
        crate::wake::legal(1, history) ==> crate::wake::legal(1, history + shares(n)),
    decreases n,
{
    if n == 0 {
        assert(history + shares(0) == history);
    } else {
        let m = (n - 1) as nat;
        law_shares_wake_nobody(history, m);
        assert((history + shares(n)).drop_last() == history + shares(m));
    }
}

} // verus!
