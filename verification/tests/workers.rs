use lsm_tree::stop_signal::StopSignal;
use std::collections::VecDeque;
use std::sync::atomic::{AtomicUsize, Ordering::Relaxed};
use std::sync::Arc;
use worker_pool::engine::{FlushTask, Reply, Request};
use worker_pool::pool::WorkerPool;
use worker_pool::guard::ActiveThreadGuard;
use worker_pool::slots::SlotCounter;
use worker_pool::spawner::Spawner;
use worker_pool::tick::{
    decide_tick, end_idle_tick, resume_tick, start_tick, worker_tick, TickMove, TickStage, WorkerState,
};
use worker_pool::wake::{Offer, WakeLine};
use worker_pool::worker::{begin_worker, resume_worker, WorkerStage};

/// An engine with a flush queue and marked keyspaces. It sends the stop signal once all is
/// done, so that nobody has to wait.
struct Engine {
    queue: VecDeque<FlushTask>,
    rotate: Vec<u64>,
    compact: Vec<u64>,
    failing: Option<Request>,
    position: u64,
    stop: StopSignal,
    requests: Vec<Request>,
}

impl Engine {
    fn new(queue: &[u64], rotate: &[u64], compact: &[u64]) -> Engine {
        Engine {
            queue: queue.iter().map(|&keyspace| FlushTask { keyspace }).collect(),
            rotate: rotate.to_vec(),
            compact: compact.to_vec(),
            failing: None,
            position: 1,
            stop: StopSignal::default(),
            requests: Vec::new(),
        }
    }

    fn take(marks: &mut Vec<u64>, keyspace: u64) -> bool {
        let count = marks.len();
        marks.retain(|&k| k != keyspace);
        marks.len() < count
    }

    fn answer(&mut self, request: Request) -> Reply<&'static str> {
        self.requests.push(request);
        if self.failing == Some(request) {
            return Reply::Failed("failure");
        }
        match request {
            Request::DequeueFlush => Reply::Dequeued(self.queue.pop_front()),
            Request::JournalPosition => Reply::Position(self.position),
            Request::JournalDiskSpace => Reply::DiskSpace(1_000),
            Request::ListStragglers => Reply::Keyspaces(vec![3]),
            Request::ListKeyspaces => {
                if self.rotate.is_empty() && self.compact.is_empty() {
                    self.stop.send();
                }
                Reply::Keyspaces(vec![1, 2, 3])
            }
            Request::TakeRotationMark(k) => Reply::Pending(Engine::take(&mut self.rotate, k)),
            Request::TakeCompactionMark(k) => Reply::Pending(Engine::take(&mut self.compact, k)),
            Request::ActiveMemtable(_) => Reply::Memtable(0),
            Request::RotateMemtable { keyspace, .. } => {
                self.queue.push_back(FlushTask { keyspace });
                Reply::Done
            }
            Request::RequestCompaction(k) => {
                self.compact.push(k);
                Reply::Done
            }
            _ => Reply::Done,
        }
    }
}

fn live(engine: &mut Engine) -> Result<(), &'static str> {
    let mut state = WorkerState::new(&mut WakeLine::open(), &engine.stop, 1_000);
    let mut stage = begin_worker(&mut state);
    while let Some(request) = stage.request() {
        let reply = engine.answer(request);
        stage = resume_worker(&mut state, stage, reply);
    }
    match stage {
        WorkerStage::Ended(outcome) => outcome,
        _ => panic!("no request, but not ended"),
    }
}

fn count(engine: &Engine, request: Request) -> usize {
    engine.requests.iter().filter(|&&r| r == request).count()
}

#[test]
fn one_worker_does_all_work_before_it_closes() {
    let mut engine = Engine::new(&[1, 2], &[3], &[]);
    assert_eq!(live(&mut engine), Ok(()));

    for keyspace in 1..4 {
        assert_eq!(count(&engine, Request::RunFlush(FlushTask { keyspace })), 1);
        assert_eq!(count(&engine, Request::RunCompaction(keyspace)), 1);
    }
    assert!(engine.queue.is_empty());
    assert_eq!(count(&engine, Request::Poison), 0);
}

/// Follows the locks through the requests of a worker. `failing` is the one that failed.
fn check_locks(requests: &[Request], failing: Option<Request>) {
    let mut journal = false;
    let mut manager = false;
    for &request in requests {
        match request {
            Request::LockJournal => {
                assert!(!journal && !manager);
                journal = failing != Some(request);
            }
            Request::LockJournalManager => {
                assert!(journal && !manager);
                manager = true;
            }
            Request::UnlockJournalManager => {
                assert!(journal && manager);
                manager = false;
            }
            Request::UnlockJournal | Request::RotateMemtable { .. } => {
                assert!(journal && !manager);
                journal = false;
            }
            Request::RunFlush(_)
            | Request::RunCompaction(_)
            | Request::MaintainJournals
            | Request::DequeueFlush
            | Request::ListKeyspaces
            | Request::Poison => assert!(!journal && !manager),
            _ => {}
        }
    }
    assert!(!journal && !manager);
}

#[test]
fn a_worker_holds_locks_only_as_long_as_it_needs_them() {
    for failing in [
        None,
        Some(Request::LockJournal),
        Some(Request::JournalPosition),
        Some(Request::RotateJournal),
        Some(Request::RunFlush(FlushTask { keyspace: 1 })),
        Some(Request::MaintainJournals),
        Some(Request::RotateMemtable {
            keyspace: 3,
            memtable: 0,
        }),
    ] {
        let mut engine = Engine::new(&[1], &[3], &[]);
        engine.position = 64_000_001;
        engine.failing = failing;
        let outcome = live(&mut engine);
        assert_eq!(outcome.is_ok(), failing.is_none());
        check_locks(&engine.requests, failing);
    }
}

#[test]
fn a_queue_is_worked_off_in_its_order() {
    let mut engine = Engine::new(&[3, 1, 3, 2], &[], &[]);
    assert_eq!(live(&mut engine), Ok(()));
    let flushed: Vec<u64> = engine
        .requests
        .iter()
        .filter_map(|request| match request {
            Request::RunFlush(task) => Some(task.keyspace),
            _ => None,
        })
        .collect();
    assert_eq!(flushed, vec![3, 1, 3, 2]);
}

#[test]
fn a_worker_that_is_told_to_stop_ends_with_its_round() {
    let stop = StopSignal::default();
    let mut state = WorkerState::new(&mut WakeLine::open(), &stop, 0);
    let task = FlushTask { keyspace: 1 };
    let mut stage = begin_worker::<()>(&mut state);
    stage = resume_worker(&mut state, stage, Reply::Dequeued(Some(task)));
    stop.send();
    let mut requests = Vec::new();
    while let Some(request) = stage.request() {
        requests.push(request);
        let reply = match request {
            Request::JournalPosition => Reply::Position(0),
            _ => Reply::Done,
        };
        stage = resume_worker(&mut state, stage, reply);
    }
    assert_eq!(requests.last(), Some(&Request::MaintainJournals));
    assert_eq!(requests.len(), 6);
    assert!(matches!(stage, WorkerStage::Ended(Ok(()))));
    for _ in 0..3 {
        assert!(matches!(
            worker_tick::<()>(&mut state),
            TickStage::Finished(Ok(true))
        ));
    }
}

#[test]
fn a_stopped_worker_asks_for_nothing() {
    let mut engine = Engine::new(&[1], &[], &[]);
    engine.stop.send();
    assert_eq!(live(&mut engine), Ok(()));
    assert!(engine.requests.is_empty());
}

#[test]
fn a_crash_poisons_the_database() {
    let mut engine = Engine::new(&[1, 2], &[], &[]);
    engine.failing = Some(Request::RunFlush(FlushTask { keyspace: 1 }));
    assert_eq!(live(&mut engine), Err("failure"));
    assert_eq!(engine.requests.last(), Some(&Request::Poison));
    assert_eq!(engine.queue.len(), 1);

    let mut engine = Engine::new(&[], &[], &[2]);
    engine.failing = Some(Request::RunCompaction(2));
    assert_eq!(live(&mut engine), Err("failure"));
    assert_eq!(engine.requests.last(), Some(&Request::Poison));

    let mut engine = Engine::new(&[1], &[], &[]);
    engine.failing = Some(Request::JournalPosition);
    assert_eq!(live(&mut engine), Err("failure"));
    let end = engine.requests.len();
    assert_eq!(
        engine.requests[end - 2..],
        [Request::UnlockJournal, Request::Poison]
    );
}

#[test]
fn a_poisoning_worker_waits_until_it_is_done() {
    let mut state = WorkerState::new(&mut WakeLine::open(), &StopSignal::default(), 0);
    let stage = resume_worker(&mut state, WorkerStage::Poisoning("failure"), Reply::Position(0));
    assert!(matches!(stage, WorkerStage::Poisoning("failure")));
}

#[test]
fn a_round_starts_with_the_stop_signal() {
    assert!(matches!(start_tick::<()>(true), TickStage::Finished(Ok(true))));
    assert!(matches!(start_tick::<()>(false), TickStage::DequeueFlush));

    let stop = StopSignal::default();
    let mut state = WorkerState::new(&mut WakeLine::open(), &stop, 0);
    assert!(matches!(worker_tick::<()>(&mut state), TickStage::DequeueFlush));
    stop.send();
    assert!(state.is_stopped());
    assert!(matches!(
        worker_tick::<()>(&mut state),
        TickStage::Finished(Ok(true))
    ));
}

#[test]
fn an_idle_round_ends_with_whether_to_close() {
    assert!(matches!(end_idle_tick::<()>(None), TickStage::Finished(Ok(true))));
    assert!(matches!(
        end_idle_tick::<()>(Some(true)),
        TickStage::Finished(Ok(true))
    ));
    assert!(matches!(
        end_idle_tick::<()>(Some(false)),
        TickStage::Finished(Ok(false))
    ));
}

#[test]
fn taking_a_task_wakes_another_worker() {
    let task = FlushTask { keyspace: 1 };
    assert!(matches!(
        decide_tick::<()>(TickStage::DequeueFlush, Reply::Dequeued(Some(task)), 9),
        TickMove::Poke(TickStage::Flushing(job))
            if job.task == task && job.max_journaling_size == 9
    ));

    let mut line = WakeLine::open();
    let mut state = WorkerState::new(&mut line, &StopSignal::default(), 0);
    let stage = resume_tick::<()>(
        &mut state,
        TickStage::DequeueFlush,
        Reply::Dequeued(Some(task)),
    );
    assert_eq!(stage.request(), Some(Request::LockJournal));
    assert_eq!(line.poke(), Offer::Full);
}

#[test]
fn an_idle_worker_takes_the_wake_and_goes_on() {
    let mut line = WakeLine::open();
    let mut state = WorkerState::new(&mut line, &StopSignal::default(), 0);
    assert_eq!(line.poke(), Offer::Taken);

    let stage = resume_tick::<()>(&mut state, TickStage::DequeueFlush, Reply::Dequeued(None));
    assert_eq!(stage.request(), Some(Request::ListKeyspaces));
    assert_eq!(line.poke(), Offer::Full);

    let stage = resume_tick(&mut state, stage, Reply::Keyspaces(vec![]));
    assert!(matches!(stage, TickStage::Finished(Ok(false))));
    assert_eq!(line.poke(), Offer::Taken);
}

#[test]
fn an_idle_worker_that_has_to_stop_leaves_the_wake() {
    let mut line = WakeLine::open();
    let stop = StopSignal::default();
    let mut state = WorkerState::new(&mut line, &stop, 0);
    assert_eq!(line.poke(), Offer::Taken);

    let stage = resume_tick::<()>(&mut state, TickStage::DequeueFlush, Reply::Dequeued(None));
    stop.send();
    let stage = resume_tick(&mut state, stage, Reply::Keyspaces(vec![]));
    assert!(matches!(stage, TickStage::Finished(Ok(true))));
    assert_eq!(line.poke(), Offer::Full);
}

#[test]
fn a_worker_pokes_after_compaction_and_not_after_a_failure() {
    let mut line = WakeLine::open();
    let mut state = WorkerState::new(&mut line, &StopSignal::default(), 0);

    for (reply, offer) in [(Reply::Failed("failure"), Offer::Taken), (Reply::Done, Offer::Full)] {
        let mut stage = worker_tick(&mut state);
        stage = resume_tick(&mut state, stage, Reply::Dequeued(None));
        stage = resume_tick(&mut state, stage, Reply::Keyspaces(vec![8]));
        stage = resume_tick(&mut state, stage, Reply::Pending(false));
        stage = resume_tick(&mut state, stage, Reply::Pending(true));
        assert_eq!(stage.request(), Some(Request::RunCompaction(8)));
        resume_tick(&mut state, stage, reply);
        assert_eq!(line.poke(), offer);
        assert!(!line.wait());
    }
}

#[test]
fn a_prepared_pool_has_no_workers_and_room_for_one_wake() {
    let mut pool = WorkerPool::<usize>::prepare();
    assert!(pool.thread_handles().is_empty());
    let mut waker = pool.waker();
    pool.poke();
    pool.poke();
    assert_eq!(waker.poke(), Offer::Full);
    assert!(!waker.wait());
    assert_eq!(waker.poke(), Offer::Taken);
}

#[test]
fn three_pokes_of_a_prepared_pool_leave_one_wake() {
    let mut pool = WorkerPool::<usize>::prepare();
    pool.poke();
    pool.poke();
    pool.poke();

    let mut waker = pool.waker();
    assert_eq!(waker.poke(), Offer::Full);
    assert!(!waker.wait());
    assert_eq!(waker.poke(), Offer::Taken);
    assert!(!waker.wait());
    pool.poke();
    assert_eq!(waker.poke(), Offer::Full);
}

#[test]
fn a_prepared_pool_has_no_wake_pending() {
    let mut pool = WorkerPool::<usize>::prepare();
    assert_eq!(pool.waker().poke(), Offer::Taken);
}

#[test]
fn a_pool_and_its_worker_poke_one_slot() {
    for pool_first in [true, false] {
        let mut slots = SlotCounter::new(Arc::new(AtomicUsize::new(0)));
        let stop = StopSignal::default();
        let mut pool = WorkerPool::prepare();
        let mut workers = Vec::new();
        let mut spawner = Spawner::with_state(|i, _, state| {
            workers.push(state);
            Ok::<usize, ()>(i)
        });
        assert_eq!(pool.start(1, 0, &mut slots, &stop, &mut spawner), Ok(()));

        let mut worker = workers.pop().unwrap();
        if pool_first {
            pool.poke();
            worker.poke();
        } else {
            worker.poke();
            pool.poke();
        }
        let mut waker = pool.waker();
        assert!(!waker.wait());
        assert_eq!(waker.poke(), Offer::Taken);
    }
}

#[test]
fn closing_brings_the_counter_back() {
    let counter = Arc::new(AtomicUsize::new(0));
    let mut slots = SlotCounter::new(counter.clone());
    let stop = StopSignal::default();
    let mut pool = WorkerPool::prepare();
    let mut workers = Vec::new();
    let mut spawner = Spawner::with_state(|i, _, state: WorkerState| {
        workers.push((ActiveThreadGuard::new(SlotCounter::new(counter.clone())), state));
        Ok::<usize, ()>(i)
    });
    assert_eq!(pool.start(3, 0, &mut slots, &stop, &mut spawner), Ok(()));
    assert_eq!(counter.load(Relaxed), 3);

    let (guard, _) = workers.pop().unwrap();
    drop(guard);
    assert_eq!(counter.load(Relaxed), 2);

    let mut lives = Vec::new();
    for (number, (guard, mut state)) in workers.into_iter().enumerate() {
        let mut stage = begin_worker::<&str>(&mut state);
        let task = FlushTask { keyspace: number as u64 };
        stage = resume_worker(&mut state, stage, Reply::Dequeued(Some(task)));
        lives.push((guard, state, stage));
    }
    stop.send();
    for (number, (guard, mut state, mut stage)) in lives.into_iter().enumerate() {
        while let Some(request) = stage.request() {
            let reply = match request {
                Request::JournalPosition => Reply::Position(0),
                Request::RunFlush(_) if number == 1 => Reply::Failed("failure"),
                _ => Reply::Done,
            };
            stage = resume_worker(&mut state, stage, reply);
        }
        assert!(match stage {
            WorkerStage::Ended(outcome) => outcome.is_ok() == (number == 0),
            _ => false,
        });
        drop(guard);
        assert_eq!(counter.load(Relaxed), 1 - number);
    }
    assert_eq!(counter.load(Relaxed), 0);
}

#[test]
fn started_workers_hear_the_pool_and_hold_slots() {
    let counter = Arc::new(AtomicUsize::new(0));
    let mut slots = SlotCounter::new(counter.clone());
    let stop = StopSignal::default();
    let mut pool = WorkerPool::prepare();

    let mut spawner = Spawner::with_state(|i, _, state| {
        Ok::<_, ()>(std::cell::RefCell::new(Some((
            i,
            ActiveThreadGuard::new(SlotCounter::new(counter.clone())),
            state,
        ))))
    });
    let result = pool.start(2, 1_000, &mut slots, &stop, &mut spawner);
    assert_eq!(result, Ok(()));
    assert_eq!(counter.load(Relaxed), 2);
    assert_eq!(pool.thread_handles().len(), 2);

    pool.poke();
    assert_eq!(pool.waker().poke(), Offer::Full);
    let (first, guard, mut state) = pool.thread_handles()[0].borrow_mut().take().unwrap();
    assert_eq!(first, 0);
    let stage = resume_tick::<()>(&mut state, TickStage::DequeueFlush, Reply::Dequeued(None));
    let stage = resume_tick(&mut state, stage, Reply::Keyspaces(vec![]));
    assert!(matches!(stage, TickStage::Finished(Ok(false))));

    stop.send();
    assert!(state.is_stopped());
    drop(guard);
    assert_eq!(counter.load(Relaxed), 1);
}

#[test]
fn a_failed_start_keeps_the_handles() {
    let counter = Arc::new(AtomicUsize::new(0));
    let mut slots = SlotCounter::new(counter.clone());
    let stop = StopSignal::default();
    let mut pool = WorkerPool::prepare();

    let mut spawner = Spawner::with_state(|i, _, _| Ok::<_, &str>(10 + i));
    assert_eq!(pool.start(2, 0, &mut slots, &stop, &mut spawner), Ok(()));
    assert_eq!(pool.thread_handles(), &vec![10, 11]);

    let mut calls = Vec::new();
    let mut spawner = Spawner::with_state(|i, _, _| {
        calls.push(i);
        if i == 1 {
            Err("no thread")
        } else {
            Ok(20 + i)
        }
    });
    let result = pool.start(3, 0, &mut slots, &stop, &mut spawner);
    assert_eq!(result, Err("no thread"));
    assert_eq!(calls, vec![0, 1]);
    assert_eq!(pool.thread_handles(), &vec![10, 11]);
    assert_eq!(counter.load(Relaxed), 3);
}
