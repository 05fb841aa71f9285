//! How workers come to hold a slot in the counter of active threads.

use crate::guard::ActiveThreadGuard;
use crate::slots::SlotCounter;
use crate::spawner::{SpawnCall, Spawner};
use vstd::prelude::*;

verus! {

/// Whether `spawn` can have been called for worker `i` with this result, at a moment when
/// exactly the slots of the workers up to and including `i` had been claimed through a handle
/// that stood at `start`.
pub open spec fn spawned<H, E, S: FnMut(usize, &SlotCounter) -> Result<H, E>>(
    spawn: S,
    start: SlotCounter,
    i: int,
    result: Result<H, E>,
) -> bool {
    exists|slots: SlotCounter|
        {
            &&& slots.counter() == start.counter()
            &&& slots@ == start@ + crate::slots::claims((i + 1) as nat)
            &&& #[trigger] call_ensures(spawn, (i as usize, &slots), result)
        }
}

/// Whether `handles` can be what `spawn` returned for the workers `0`, `1`, and so on, each of
/// them called right after that worker's slot was claimed.
pub open spec fn started<H, E, S: FnMut(usize, &SlotCounter) -> Result<H, E>>(
    spawn: S,
    start: SlotCounter,
    handles: Seq<H>,
) -> bool {
    forall|i: int|
        0 <= i < handles.len() ==> spawned(spawn, start, i, Ok::<H, E>(#[trigger] handles[i]))
}

/// Whether as many slots were claimed, and not handed back, as workers were started.
pub open spec fn one_slot_per_worker(
    slots_before: Seq<int>,
    calls_before: Seq<SpawnCall>,
    slots_after: Seq<int>,
    calls_after: Seq<SpawnCall>,
) -> bool {
    crate::slots::held(slots_after) - crate::slots::held(slots_before) == crate::spawner::started_by(calls_after)
        - crate::spawner::started_by(calls_before)
}

/// All of `n` workers were started.
pub(crate) proof fn lemma_all_started(slots: Seq<int>, calls: Seq<SpawnCall>, n: nat)
    ensures
        crate::slots::held(slots + crate::slots::claims(n)) == crate::slots::held(slots) + n,
        one_slot_per_worker(
            slots,
            calls,
            slots + crate::slots::claims(n),
            calls + crate::spawner::first(n),
        ),
{
    crate::slots::lemma_held_claims(n);
    crate::slots::lemma_held_append(slots, crate::slots::claims(n));
    crate::spawner::lemma_started_by_first(n);
    crate::spawner::lemma_started_by_append(calls, crate::spawner::first(n));
}

/// The first `n` workers were started, and the next was not.
pub(crate) proof fn lemma_next_failed(
    slots: Seq<int>,
    calls: Seq<SpawnCall>,
    n: nat,
    failed: SpawnCall,
)
    requires
        !failed.started,
    ensures
        crate::slots::held(slots + crate::slots::claims(n + 1).push(-1)) == crate::slots::held(slots) + n,
        one_slot_per_worker(
            slots,
            calls,
            slots + crate::slots::claims(n + 1).push(-1),
            calls + crate::spawner::first(n).push(failed),
        ),
{
    let claimed = crate::slots::claims(n + 1);
    assert(claimed.push(-1).drop_last() == claimed);
    crate::slots::lemma_held_claims(n + 1);
    crate::slots::lemma_held_append(slots, claimed.push(-1));
    let made = crate::spawner::first(n);
    assert(made.push(failed).drop_last() == made);
    crate::spawner::lemma_started_by_first(n);
    crate::spawner::lemma_started_by_append(calls, made.push(failed));
}

/// Claims one slot in the active thread counter per worker, immediately before that worker is
/// spawned, and hands the slot straight back if the spawn fails.
///
/// Claiming the whole pool up front would leak the slots of the workers that a failed spawn
/// never reaches: nothing ever hands them back, because those threads do not exist, and
/// whoever closes the database waits for the counter to reach zero.
///
/// The spawn is a parameter: it is given the number of the worker and the counter, in which
/// that worker's slot is already claimed. It is called once per worker, in their order, and not
/// again after a failure.
pub fn claim_and_spawn<H, E, S: FnMut(usize, &SlotCounter) -> Result<H, E>>(
    pool_size: usize,
    thread_counter: &mut SlotCounter,
    spawner: &mut Spawner<S>,
) -> (result: Result<Vec<H>, E>)
    requires
        forall|i: usize, slots: SlotCounter|
            {
                &&& i < pool_size
                &&& slots.counter() == old(thread_counter).counter()
                &&& slots@ == old(thread_counter)@ + crate::slots::claims((i + 1) as nat)
            } ==> #[trigger] call_requires(old(spawner).f(), (i, &slots)),
    ensures
        final(thread_counter).counter() == old(thread_counter).counter(),
        final(spawner).f() == old(spawner).f(),
        one_slot_per_worker(
            old(thread_counter)@,
            old(spawner).calls(),
            final(thread_counter)@,
            final(spawner).calls(),
        ),
        match result {
            Ok(handles) => {
                &&& handles@.len() == pool_size
                &&& started::<H, E, S>(old(spawner).f(), *old(thread_counter), handles@)
                &&& final(spawner).calls() == old(spawner).calls() + crate::spawner::first(
                    pool_size as nat,
                )
                &&& final(thread_counter)@ == old(thread_counter)@ + crate::slots::claims(pool_size as nat)
                &&& crate::slots::held(final(thread_counter)@) == crate::slots::held(old(thread_counter)@) + pool_size
            },
            Err(error) => exists|live: Seq<H>|
                {
                    &&& #[trigger] started::<H, E, S>(
                        old(spawner).f(),
                        *old(thread_counter),
                        live,
                    )
                    &&& live.len() < pool_size
                    &&& spawned(
                        old(spawner).f(),
                        *old(thread_counter),
                        live.len() as int,
                        Err::<H, E>(error),
                    )
                    &&& final(spawner).calls() == old(spawner).calls() + crate::spawner::first(
                        live.len(),
                    ).push((SpawnCall { worker: live.len() as usize, started: false }))
                    &&& final(thread_counter)@ == old(thread_counter)@ + crate::slots::claims(
                        live.len() + 1,
                    ).push(-1)
                    &&& crate::slots::held(final(thread_counter)@) == crate::slots::held(old(thread_counter)@) + live.len()
                },
        },
{
    let mut handles: Vec<H> = Vec::new();
    let mut i: usize = 0;
    let ghost start = *thread_counter;
    let ghost spawn = spawner.f();
    let ghost calls = spawner.calls();
    assert(start@ + crate::slots::claims(0) == start@);
    assert(calls + crate::spawner::first(0) == calls);
    while i < pool_size
        invariant
            i <= pool_size,
            start == *old(thread_counter),
            spawn == old(spawner).f(),
            calls == old(spawner).calls(),
            forall|i: usize, slots: SlotCounter|
                {
                    &&& i < pool_size
                    &&& slots.counter() == start.counter()
                    &&& slots@ == start@ + crate::slots::claims((i + 1) as nat)
                } ==> #[trigger] call_requires(spawn, (i, &slots)),
            thread_counter.counter() == start.counter(),
            thread_counter@ == start@ + crate::slots::claims(i as nat),
            spawner.f() == spawn,
            spawner.calls() == calls + crate::spawner::first(i as nat),
            handles@.len() == i,
            started::<H, E, S>(spawn, start, handles@),
        decreases pool_size - i,
    {
        thread_counter.claim();
        assert(thread_counter@ == start@ + crate::slots::claims((i + 1) as nat));
        let ghost before = *thread_counter;
        let outcome = spawner.call(i, thread_counter);
        assert(spawned(spawn, start, i as int, outcome)) by {
            assert(before.counter() == start.counter());
            assert(call_ensures(spawn, ((i as int) as usize, &before), outcome));
        }
        match outcome {
            Ok(handle) => {
                handles.push(handle);
                assert(spawner.calls() == calls + crate::spawner::first((i + 1) as nat));
            },
            Err(error) => {
                thread_counter.release();
                proof {
                    let failed = SpawnCall { worker: i, started: false };
                    let n = handles@.len();
                    assert(thread_counter@ == start@ + crate::slots::claims(n + 1).push(-1));
                    assert(spawner.calls() == calls + crate::spawner::first(n).push(failed));
                    lemma_next_failed(start@, calls, n, failed);
                }
                return Err(error);
            },
        }
        i = i + 1;
    }
    proof {
        lemma_all_started(start@, calls, pool_size as nat);
    }
    Ok(handles)
}

/// The counter counts the workers that run, whether the pool was started in full or only in
/// part. Between `before` and `after`, workers were spawned as `claim_and_spawn` or
/// `WorkerPool::start` does it, and there is one guard for each call that started a worker. Then
/// the counter stands as many above where it stood as workers still run. So it comes back to
/// where it stood when, and only when, the last of them has left.
pub proof fn law_counter_counts_running_workers(
    slots_before: Seq<int>,
    calls_before: Seq<SpawnCall>,
    slots_after: Seq<int>,
    calls_after: Seq<SpawnCall>,
    guards: Seq<ActiveThreadGuard>,
)
    requires
        one_slot_per_worker(slots_before, calls_before, slots_after, calls_after),
        guards.len() == crate::spawner::started_by(calls_after) - crate::spawner::started_by(
            calls_before,
        ),
        crate::guard::guards_of_workers(guards),
    ensures
        crate::slots::held(slots_after) + crate::guard::added_by(guards) == crate::slots::held(slots_before) + crate::guard::running_count(guards),
        crate::slots::held(slots_after) + crate::guard::added_by(guards) == crate::slots::held(slots_before) <==> forall|i: int|
            0 <= i < guards.len() ==> crate::guard::left(#[trigger] guards[i]),
{
    crate::guard::lemma_added_by(guards);
}

/// A worker's slot is claimed before the worker is spawned: where `handles` are what `spawn`
/// returned for the workers, each of them was spawned with its own number, at a moment when one
/// slot more was claimed than workers had been spawned before it.
pub proof fn law_slot_is_claimed_before_the_spawn<
    H,
    E,
    S: FnMut(usize, &SlotCounter) -> Result<H, E>,
>(spawn: S, start: SlotCounter, handles: Seq<H>, i: int)
    requires
        started::<H, E, S>(spawn, start, handles),
        0 <= i < handles.len(),
    ensures
        exists|slots: SlotCounter|
            {
                &&& slots.counter() == start.counter()
                &&& crate::slots::held(slots@) == crate::slots::held(start@) + i + 1
                &&& #[trigger] call_ensures(spawn, (i as usize, &slots), Ok(handles[i]))
            },
{
    let result = Ok::<H, E>(handles[i]);
    assert(spawned(spawn, start, i, result));
    let slots = choose|slots: SlotCounter|
        {
            &&& slots.counter() == start.counter()
            &&& slots@ == start@ + crate::slots::claims((i + 1) as nat)
            &&& #[trigger] call_ensures(spawn, (i as usize, &slots), result)
        };
    crate::slots::lemma_held_claims((i + 1) as nat);
    crate::slots::lemma_held_append(start@, crate::slots::claims((i + 1) as nat));
    assert(call_ensures(spawn, (i as usize, &slots), result));
}

/// A spawn that fails is told of a claimed slot too: the one that is then handed back.
pub proof fn law_failed_spawn_had_a_slot<H, E, S: FnMut(usize, &SlotCounter) -> Result<H, E>>(
    spawn: S,
    start: SlotCounter,
    i: int,
    error: E,
)
    requires
        0 <= i,
        spawned(spawn, start, i, Err::<H, E>(error)),
    ensures
        exists|slots: SlotCounter|
            {
                &&& slots.counter() == start.counter()
                &&& crate::slots::held(slots@) == crate::slots::held(start@) + i + 1
                &&& #[trigger] call_ensures(spawn, (i as usize, &slots), Err(error))
            },
{
    let result = Err::<H, E>(error);
    let slots = choose|slots: SlotCounter|
        {
            &&& slots.counter() == start.counter()
            &&& slots@ == start@ + crate::slots::claims((i + 1) as nat)
            &&& #[trigger] call_ensures(spawn, (i as usize, &slots), result)
        };
    crate::slots::lemma_held_claims((i + 1) as nat);
    crate::slots::lemma_held_append(start@, crate::slots::claims((i + 1) as nat));
    assert(call_ensures(spawn, (i as usize, &slots), result));
}

/// Workers are spawned one after the other, each of them once: the calls that start `n` of them
/// are `n`, and the `i`-th is for the worker number `i`.
pub proof fn law_workers_are_spawned_in_turn(n: nat, i: int)
    requires
        0 <= i < n <= usize::MAX,
    ensures
        crate::spawner::first(n).len() == n,
        crate::spawner::first(n)[i].worker == i,
        crate::spawner::first(n)[i].started,
        crate::spawner::started_by(crate::spawner::first(n)) == n,
{
    crate::spawner::lemma_started_by_first(n);
}

} // verus!
