//! What becomes of workers that are told to stop, and of their slots.

use crate::engine::Reply;
use crate::guard::ActiveThreadGuard;
use crate::spawner::SpawnCall;
use crate::tick::{TickStage, WorkerState};
use crate::worker::WorkerStage;
use vstd::prelude::*;

verus! {

/// The life of a worker whose every request gets a reply, for as long as it makes any, and which
/// is woken whenever it waits.
pub struct Life<E> {
    /// The state of the worker after so many replies.
    pub states: spec_fn(nat) -> WorkerState,
    /// How far it has come by then.
    pub stages: spec_fn(nat) -> WorkerStage<E>,
    /// The reply that it then gets.
    pub replies: spec_fn(nat) -> Reply<E>,
}

impl<E> Life<E> {
    /// The states up to and including the one after `k` replies.
    pub open spec fn first_states(self, k: nat) -> Seq<WorkerState> {
        Seq::new(k + 1, |i: int| (self.states)(i as nat))
    }

    /// The stages up to and including the one after `k` replies.
    pub open spec fn first_stages(self, k: nat) -> Seq<WorkerStage<E>> {
        Seq::new(k + 1, |i: int| (self.stages)(i as nat))
    }

    /// The first `k` replies.
    pub open spec fn first_replies(self, k: nat) -> Seq<Reply<E>> {
        Seq::new(k, |i: int| (self.replies)(i as nat))
    }

    /// Whether a worker can have lived like this, with every request answered: up to every
    /// moment, its stages are those of a life, and every reply is one to the request made.
    pub open spec fn lived(self) -> bool {
        &&& forall|k: nat|
            #[trigger] crate::worker::life(
                self.first_states(k),
                self.first_stages(k),
                self.first_replies(k),
            )
        &&& forall|k: nat|
            {
                &&& (#[trigger] (self.stages)(k)).wf()
                &&& (self.stages)(k).asks() matches Some(request) ==> request.answered_by(
                    (self.replies)(k),
                )
            }
    }

    /// Whether all that the worker reads from the stop signal after `n` replies is that the signal
    /// has been sent.
    pub open spec fn told_to_stop(self, n: nat) -> bool {
        forall|k: nat, j: int|
            n <= k && (self.states)(n).readings().len() <= j < (self.states)(k).readings().len()
                ==> #[trigger] (self.states)(k).readings()[j]
    }
}

/// How far a stage is from the end of the worker, first of all.
spec fn rank<E>(stage: WorkerStage<E>) -> nat {
    match stage {
        WorkerStage::Ticking(tick) => tick.phase() + 1,
        WorkerStage::Poisoning(_) => 1,
        WorkerStage::Ended(_) => 0,
    }
}

spec fn inner_rank<E>(stage: WorkerStage<E>) -> nat {
    match stage {
        WorkerStage::Ticking(tick) => tick.inner_phase(),
        _ => 0,
    }
}

spec fn items<E>(stage: WorkerStage<E>) -> int {
    match stage {
        WorkerStage::Ticking(tick) => tick.items_left(),
        _ => 0,
    }
}

/// A reply brings a worker that is told to stop nearer to its end.
proof fn lemma_nearer<E>(
    stage: WorkerStage<E>,
    before: WorkerState,
    reply: Reply<E>,
    next: WorkerStage<E>,
    after: WorkerState,
)
    requires
        stage.wf(),
        !(stage is Ended),
        stage.resumes(before, reply, next, after),
        stage.asks() matches Some(request) ==> request.answered_by(reply),
        forall|j: int|
            before.readings().len() <= j < after.readings().len() ==> #[trigger]
                after.readings()[j],
    ensures
        items(next) >= 0,
        rank(next) < rank(stage) || {
            &&& rank(next) == rank(stage)
            &&& inner_rank(next) < inner_rank(stage) || {
                &&& inner_rank(next) == inner_rank(stage)
                &&& items(next) < items(stage)
            }
        },
{
    if let WorkerStage::Ticking(tick) = stage {
        let (middle, state) = choose|middle: TickStage<E>, state: WorkerState|
            {
                &&& #[trigger] tick.resumes(before, reply, middle, state)
                &&& next.follows(middle, state, after)
            };
        if middle == TickStage::<E>::Finished(Ok(false)) {
            assert(state.readings().len() >= before.readings().len());
            assert(after.readings()[after.readings().len() - 1]);
        } else if !(tick.decides(reply, before.max_journaling_size()) is Idle) {
            crate::tick_run::law_every_reply_brings_the_round_on(
                tick,
                reply,
                middle,
                before.max_journaling_size(),
            );
        }
    }
}

proof fn lemma_step<E>(life: Life<E>, k: nat)
    requires
        life.lived(),
    ensures
        (life.stages)(k).resumes(
            (life.states)(k),
            (life.replies)(k),
            (life.stages)(k + 1),
            (life.states)(k + 1),
        ),
{
    let states = life.first_states(k + 1);
    let stages = life.first_stages(k + 1);
    let replies = life.first_replies(k + 1);
    assert(crate::worker::life(states, stages, replies));
    let i = k as int;
    assert(stages[i].resumes(states[i], replies[i], stages[i + 1], states[i + 1]));
}

/// A worker that has ended stays so.
proof fn lemma_stays_ended<E>(life: Life<E>, n: nat, k: nat)
    requires
        life.lived(),
        (life.stages)(n) is Ended,
        n <= k,
    ensures
        (life.stages)(k) is Ended,
    decreases k - n,
{
    if n < k {
        let m = (k - 1) as nat;
        lemma_stays_ended(life, n, m);
        lemma_step(life, m);
    }
}

proof fn lemma_comes_to_its_end<E>(life: Life<E>, n: nat, k: nat) -> (m: nat)
    requires
        life.lived(),
        life.told_to_stop(n),
        n <= k,
    ensures
        k <= m,
        (life.stages)(m) is Ended,
    decreases rank((life.stages)(k)), inner_rank((life.stages)(k)), items((life.stages)(k)),
{
    if (life.stages)(k) is Ended {
        k
    } else {
        let states = life.first_states(k);
        crate::worker::lemma_life_readings(
            states,
            life.first_stages(k),
            life.first_replies(k),
            n as int,
            k as int,
        );
        assert(states[n as int] == (life.states)(n) && states[k as int] == (life.states)(k));
        lemma_step(life, k);
        assert((life.stages)(k).wf());
        lemma_nearer(
            (life.stages)(k),
            (life.states)(k),
            (life.replies)(k),
            (life.stages)(k + 1),
            (life.states)(k + 1),
        );
        lemma_comes_to_its_end(life, n, k + 1)
    }
}

/// A worker that is told to stop ends: if every request of its gets a reply, and all that it reads
/// from the stop signal after `n` replies is that the signal has been sent, then after finitely
/// many replies it has ended, well or with an error, and it stays so.
pub proof fn law_stopped_worker_ends<E>(life: Life<E>, n: nat) -> (m: nat)
    requires
        life.lived(),
        life.told_to_stop(n),
    ensures
        n <= m,
        forall|k: nat| m <= k ==> (#[trigger] (life.stages)(k)) is Ended,
{
    let m = lemma_comes_to_its_end(life, n, n);
    assert forall|k: nat| m <= k implies (#[trigger] (life.stages)(k)) is Ended by {
        lemma_stays_ended(life, m, k);
    }
    m
}

/// Whether a worker's thread is gone after so many replies: its worker has ended by then. `None`
/// stands for a worker that left before, by a panic.
pub open spec fn gone<E>(life: Option<Life<E>>, k: nat) -> bool {
    match life {
        Some(life) => (life.stages)(k) is Ended,
        None => true,
    }
}

/// Whether these are the guards of these workers after so many replies each: one guard for each
/// worker, which has handed its slot back if the worker's thread is gone, and not before.
pub open spec fn guarded<E>(
    guards: Seq<ActiveThreadGuard>,
    lives: Seq<Option<Life<E>>>,
    k: nat,
) -> bool {
    &&& guards.len() == lives.len()
    &&& forall|w: int|
        0 <= w < guards.len() ==> if gone(lives[w], k) {
            crate::guard::left(#[trigger] guards[w])
        } else {
            crate::guard::running(guards[w])
        }
}

proof fn lemma_all_gone<E>(lives: Seq<Option<Life<E>>>, n: nat) -> (m: nat)
    requires
        forall|w: int|
            0 <= w < lives.len() ==> (#[trigger] lives[w] matches Some(life) ==> life.lived()
                && life.told_to_stop(n)),
    ensures
        n <= m,
        forall|w: int, k: nat| 0 <= w < lives.len() && m <= k ==> #[trigger] gone(lives[w], k),
    decreases lives.len(),
{
    if lives.len() == 0 {
        n
    } else {
        let rest = lives.drop_last();
        assert(forall|w: int| 0 <= w < rest.len() ==> #[trigger] rest[w] == lives[w]);
        let a = lemma_all_gone(rest, n);
        let b = match lives[lives.len() - 1] {
            Some(life) => law_stopped_worker_ends(life, n),
            None => n,
        };
        let m = if a < b {
            b
        } else {
            a
        };
        assert forall|w: int, k: nat| 0 <= w < lives.len() && m <= k implies #[trigger] gone(
            lives[w],
            k,
        ) by {
            if w < rest.len() {
                assert(gone(rest[w], k));
            }
        }
        m
    }
}

/// Closing does not hang. Between `before` and `after`, workers were spawned as
/// `WorkerPool::start` or `claim_and_spawn` does it, in full or only in part, and `lives` are
/// those of the workers that were started. If every request of theirs gets a reply, the pool is
/// poked so that none of them waits forever, and all that they read from the stop signal after `n`
/// replies is that it has been sent, then after finitely many replies all of them are gone, also
/// those that ended before, with an error or by a panic. Then, and from then on, the counter
/// stands where it stood before the workers were spawned.
pub proof fn law_closing_does_not_hang<E>(
    slots_before: Seq<int>,
    calls_before: Seq<SpawnCall>,
    slots_after: Seq<int>,
    calls_after: Seq<SpawnCall>,
    lives: Seq<Option<Life<E>>>,
    n: nat,
) -> (m: nat)
    requires
        crate::claim::one_slot_per_worker(slots_before, calls_before, slots_after, calls_after),
        lives.len() == crate::spawner::started_by(calls_after) - crate::spawner::started_by(
            calls_before,
        ),
        forall|w: int|
            0 <= w < lives.len() ==> (#[trigger] lives[w] matches Some(life) ==> life.lived()
                && life.told_to_stop(n)),
    ensures
        forall|w: int, k: nat| 0 <= w < lives.len() && m <= k ==> #[trigger] gone(lives[w], k),
        forall|guards: Seq<ActiveThreadGuard>, k: nat|
            m <= k && #[trigger] guarded(guards, lives, k) ==> crate::slots::held(slots_after)
                + crate::guard::added_by(guards) == crate::slots::held(slots_before),
{
    let m = lemma_all_gone(lives, n);
    assert forall|guards: Seq<ActiveThreadGuard>, k: nat|
        m <= k && #[trigger] guarded(guards, lives, k) implies crate::slots::held(slots_after)
        + crate::guard::added_by(guards) == crate::slots::held(slots_before) by {
        assert forall|w: int| 0 <= w < guards.len() implies crate::guard::left(
            #[trigger] guards[w],
        ) by {
            assert(gone(lives[w], k));
        }
        crate::claim::law_counter_counts_running_workers(
            slots_before,
            calls_before,
            slots_after,
            calls_after,
            guards,
        );
    }
    m
}

} // verus!
