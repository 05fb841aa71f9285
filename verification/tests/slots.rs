use std::sync::atomic::{AtomicUsize, Ordering::Relaxed};
use std::sync::Arc;
use worker_pool::claim::claim_and_spawn;
use worker_pool::guard::ActiveThreadGuard;
use worker_pool::slots::SlotCounter;
use worker_pool::spawner::Spawner;

/// Every worker that is actually spawned holds exactly one slot.
#[test]
fn claim_and_spawn_claims_one_slot_per_worker() {
    let counter = Arc::new(AtomicUsize::new(0));
    let mut slots = SlotCounter::new(counter.clone());

    let mut spawner = Spawner::new(|i, _| Ok::<_, std::io::Error>(i));
    let handles = claim_and_spawn(3, &mut slots, &mut spawner).expect("all spawns succeed");

    assert_eq!(handles, vec![0, 1, 2]);
    assert_eq!(counter.load(Relaxed), 3);
}

/// A failed spawn releases its own slot and never claims one for the workers it did not get to.
#[test]
fn claim_and_spawn_counts_live_workers_only() {
    let counter = Arc::new(AtomicUsize::new(0));
    let mut slots = SlotCounter::new(counter.clone());

    let mut spawner = Spawner::new(|i, _| {
        if i == 2 {
            Err(std::io::Error::other("cannot spawn thread"))
        } else {
            Ok(i)
        }
    });
    let result = claim_and_spawn(4, &mut slots, &mut spawner);

    assert!(result.is_err());
    assert_eq!(
        counter.load(Relaxed),
        2,
        "only the two workers that started should hold a slot",
    );
}

/// A worker leaving normally releases its slot in the counter.
#[test]
fn active_thread_guard_decrements_on_scope_exit() {
    let counter = Arc::new(AtomicUsize::new(1));
    {
        let _guard = ActiveThreadGuard::new(SlotCounter::new(counter.clone()));
        assert_eq!(counter.load(Relaxed), 1);
    }
    assert_eq!(counter.load(Relaxed), 0);
}

fn failing_worker(counter: Arc<AtomicUsize>) -> Result<(), ()> {
    let _guard = ActiveThreadGuard::new(SlotCounter::new(counter));
    Err(())
}

/// A worker that returns an error releases its slot too.
#[test]
fn active_thread_guard_decrements_on_early_return() {
    let counter = Arc::new(AtomicUsize::new(1));

    assert!(failing_worker(counter.clone()).is_err());
    assert_eq!(counter.load(Relaxed), 0);
}

#[test]
fn a_slot_is_claimed_right_before_its_worker_is_spawned() {
    let counter = Arc::new(AtomicUsize::new(10));
    let mut slots = SlotCounter::new(counter.clone());
    let mut seen = Vec::new();

    let mut spawner = Spawner::new(|i, _| {
        seen.push((i, counter.load(Relaxed)));
        if i == 2 {
            Err("no thread")
        } else {
            Ok(())
        }
    });
    let result = claim_and_spawn(4, &mut slots, &mut spawner);

    assert_eq!(result, Err("no thread"));
    assert_eq!(seen, vec![(0, 11), (1, 12), (2, 13)]);
    assert_eq!(counter.load(Relaxed), 12);
}

#[test]
fn an_empty_pool_claims_nothing() {
    let counter = Arc::new(AtomicUsize::new(0));
    let mut slots = SlotCounter::new(counter.clone());

    let mut spawner = Spawner::new(|i, _| Ok::<usize, ()>(i));
    let handles = claim_and_spawn(0, &mut slots, &mut spawner);

    assert_eq!(handles, Ok(vec![]));
    assert_eq!(counter.load(Relaxed), 0);
}

#[test]
fn the_counter_reaches_zero_when_the_last_worker_leaves() {
    let counter = Arc::new(AtomicUsize::new(0));
    let mut slots = SlotCounter::new(counter.clone());

    let mut spawner = Spawner::new(|_, _| {
        let slots = SlotCounter::new(counter.clone());
        Ok::<_, ()>(ActiveThreadGuard::new(slots))
    });
    let mut guards = claim_and_spawn(3, &mut slots, &mut spawner).unwrap();

    assert_eq!(counter.load(Relaxed), 3);
    guards.pop();
    assert_eq!(counter.load(Relaxed), 2);
    guards.clear();
    assert_eq!(counter.load(Relaxed), 0);
}

#[test]
fn a_first_spawn_that_fails_is_the_only_one() {
    let counter = Arc::new(AtomicUsize::new(5));
    let mut slots = SlotCounter::new(counter.clone());
    let mut calls = 0;

    let mut spawner = Spawner::new(|_, _| {
        calls += 1;
        Err::<usize, _>(std::io::Error::other("x"))
    });
    let result = claim_and_spawn(3, &mut slots, &mut spawner);

    assert!(result.is_err());
    assert_eq!(calls, 1);
    assert_eq!(counter.load(Relaxed), 5);
}

#[test]
fn the_counter_comes_back_after_a_start_in_part() {
    let counter = Arc::new(AtomicUsize::new(0));
    let mut slots = SlotCounter::new(counter.clone());
    let mut guards = Vec::new();

    let mut spawner = Spawner::new(|i, _| {
        if i == 3 {
            return Err(());
        }
        guards.push(ActiveThreadGuard::new(SlotCounter::new(counter.clone())));
        Ok(i)
    });
    assert_eq!(claim_and_spawn(9, &mut slots, &mut spawner), Err(()));

    assert_eq!(guards.len(), 3);
    assert_eq!(counter.load(Relaxed), 3);
    guards.swap_remove(0);
    assert_eq!(counter.load(Relaxed), 2);
    guards.clear();
    assert_eq!(counter.load(Relaxed), 0);
}
