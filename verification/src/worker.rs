//! The life of a worker thread: one round after the other, until it has to close.

use crate::engine::{Locks, Reply, Request};
use crate::tick::{resume_tick, worker_tick, TickMove, TickStage, WorkerState};
use crate::wake::{Offer, WakeOp};
use vstd::prelude::*;

verus! {

/// How far a worker has come.
pub enum WorkerStage<E> {
    /// It is in the middle of a round.
    Ticking(TickStage<E>),
    /// It crashed with this error; the database is being poisoned.
    Poisoning(E),
    /// It has ended.
    Ended(Result<(), E>),
}

impl<E> WorkerStage<E> {
    /// The round under way is well-formed and not over.
    pub open spec fn wf(&self) -> bool {
        self matches WorkerStage::Ticking(tick) ==> tick.wf() && !(tick is Finished)
    }

    /// The request that is outstanding, or `None` when the worker has ended.
    pub open spec fn asks(&self) -> Option<Request> {
        match self {
            WorkerStage::Ticking(tick) => tick.asks(),
            WorkerStage::Poisoning(_) => Some(Request::Poison),
            WorkerStage::Ended(_) => None,
        }
    }

    /// How a worker begins a round, given whether the stop signal has been sent.
    pub open spec fn between_rounds(stopped: bool) -> WorkerStage<E> {
        if stopped {
            WorkerStage::Ended(Ok(()))
        } else {
            WorkerStage::Ticking(TickStage::DequeueFlush)
        }
    }

    /// How a worker can have begun.
    pub open spec fn begins(self, before: WorkerState, after: WorkerState) -> bool {
        exists|stopped: bool|
            {
                &&& #[trigger] after.read_stop(&before, stopped)
                &&& self == WorkerStage::<E>::between_rounds(stopped)
            }
    }

    /// How a worker can have gone on from a stage of its round. A round that is over is
    /// followed by the next, unless the worker has to close or the round failed.
    pub open spec fn follows(
        self,
        tick: TickStage<E>,
        before: WorkerState,
        after: WorkerState,
    ) -> bool {
        match tick {
            TickStage::Finished(Ok(false)) => self.begins(before, after),
            TickStage::Finished(Ok(true)) => after == before && self == WorkerStage::<E>::Ended(
                Ok(()),
            ),
            TickStage::Finished(Err(e)) => after == before && self == WorkerStage::Poisoning(e),
            _ => after == before && self == WorkerStage::Ticking(tick),
        }
    }

    /// How a worker can have gone from one stage and state to the next on a reply.
    pub open spec fn resumes(
        self,
        before: WorkerState,
        reply: Reply<E>,
        next: WorkerStage<E>,
        after: WorkerState,
    ) -> bool {
        match self {
            WorkerStage::Ticking(tick) => exists|middle: TickStage<E>, state: WorkerState|
                {
                    &&& #[trigger] tick.resumes(before, reply, middle, state)
                    &&& next.follows(middle, state, after)
                },
            WorkerStage::Poisoning(e) => {
                &&& after == before
                &&& next == if reply is Done {
                    WorkerStage::Ended(Err(e))
                } else {
                    self
                }
            },
            WorkerStage::Ended(_) => after == before && next == self,
        }
    }

    /// The locks held while the outstanding request is open.
    pub open spec fn locks(&self) -> Locks {
        match self {
            WorkerStage::Ticking(TickStage::Flushing(job)) => job.locks(),
            WorkerStage::Ticking(TickStage::Searching(search)) => search.locks(),
            _ => Locks::none(),
        }
    }

    /// The request that is outstanding, or `None` when the worker has ended.
    pub fn request(&self) -> (request: Option<Request>)
        requires
            self.wf(),
        ensures
            request == self.asks(),
    {
        match self {
            WorkerStage::Ticking(tick) => tick.request(),
            WorkerStage::Poisoning(_) => Some(Request::Poison),
            WorkerStage::Ended(_) => None,
        }
    }
}

/// Begins the life of a worker.
pub fn begin_worker<E>(ctx: &mut WorkerState) -> (stage: WorkerStage<E>)
    ensures
        stage.wf(),
        stage.begins(*old(ctx), *final(ctx)),
        final(ctx).signals() == old(ctx).signals(),
        crate::protocol::next_round(old(ctx).readings(), stage, *final(ctx)),
{
    match worker_tick::<E>(ctx) {
        TickStage::Finished(_) => WorkerStage::Ended(Ok(())),
        tick => WorkerStage::Ticking(tick),
    }
}

/// Goes on with the life of a worker, now that the outstanding request got its reply.
///
/// A worker that has to close just ends. One that crashed poisons the database first and ends
/// with the error.
pub fn resume_worker<E>(ctx: &mut WorkerState, stage: WorkerStage<E>, reply: Reply<E>) -> (next:
    WorkerStage<E>)
    requires
        stage.wf(),
    ensures
        next.wf(),
        stage.resumes(*old(ctx), reply, next, *final(ctx)),
{
    match stage {
        WorkerStage::Ticking(tick) => {
            let middle = resume_tick(ctx, tick, reply);
            let ghost state = *ctx;
            assert(tick.resumes(*old(ctx), reply, middle, state));
            match middle {
                TickStage::Finished(Ok(false)) => begin_worker(ctx),
                TickStage::Finished(Ok(true)) => WorkerStage::Ended(Ok(())),
                TickStage::Finished(Err(e)) => WorkerStage::Poisoning(e),
                tick => WorkerStage::Ticking(tick),
            }
        },
        WorkerStage::Poisoning(e) => match reply {
            Reply::Done => WorkerStage::Ended(Err(e)),
            _ => WorkerStage::Poisoning(e),
        },
        WorkerStage::Ended(outcome) => WorkerStage::Ended(outcome),
    }
}

/// A worker ends with an error only after it has poisoned the database: the request that was
/// answered last is the one to poison it, and the error is the one that made it do so.
pub proof fn law_crash_poisons_first<E>(
    stage: WorkerStage<E>,
    before: WorkerState,
    reply: Reply<E>,
    after: WorkerState,
    error: E,
)
    requires
        !(stage is Ended),
        stage.resumes(before, reply, WorkerStage::Ended(Err(error)), after),
    ensures
        stage == WorkerStage::Poisoning(error),
        stage.asks() == Some(Request::Poison),
        reply is Done,
{
}

/// A worker poisons the database only if its round failed: a reply that makes it do so is a
/// failure, and the error is the one that the engine gave or that the round kept while it was
/// unlocking.
pub proof fn law_poisons_only_after_failure<E>(
    stage: WorkerStage<E>,
    before: WorkerState,
    reply: Reply<E>,
    after: WorkerState,
    error: E,
)
    requires
        stage.wf(),
        !(stage is Poisoning),
        stage.resumes(before, reply, WorkerStage::Poisoning(error), after),
    ensures
        reply == Reply::Failed(error) || {
            &&& stage matches WorkerStage::Ticking(TickStage::Flushing(job))
            &&& job.stage == crate::flush::FlushStage::UnlockJournal(Some(error))
        },
{
}

/// A worker ends well only because it was told to stop: the last thing it read from the stop
/// signal is that the signal has been sent.
pub proof fn law_ends_well_only_when_stopped<E>(
    stage: WorkerStage<E>,
    before: WorkerState,
    reply: Reply<E>,
    after: WorkerState,
)
    requires
        stage.wf(),
        !(stage is Ended),
        stage.resumes(before, reply, WorkerStage::Ended(Ok(())), after),
    ensures
        after.readings().len() > before.readings().len(),
        after.readings().last(),
{
}

/// Whether these can be the stages of a worker from its beginning on, with the states between
/// them and the replies that it got.
pub open spec fn life<E>(
    states: Seq<WorkerState>,
    stages: Seq<WorkerStage<E>>,
    replies: Seq<Reply<E>>,
) -> bool {
    &&& stages.len() == replies.len() + 1
    &&& states.len() == replies.len() + 1
    &&& exists|before: WorkerState| #[trigger] stages[0].begins(before, states[0])
    &&& forall|i: int|
        0 <= i < replies.len() ==> (#[trigger] stages[i]).resumes(
            states[i],
            #[trigger] replies[i],
            stages[i + 1],
            states[i + 1],
        )
}

/// A worker keeps its line, its stop signal and its limits for all its life.
pub proof fn law_same_worker<E>(
    states: Seq<WorkerState>,
    stages: Seq<WorkerStage<E>>,
    replies: Seq<Reply<E>>,
    n: nat,
)
    requires
        life(states, stages, replies),
        n < states.len(),
    ensures
        states[n as int].same_worker(&states[0]),
    decreases n,
{
    if n > 0 {
        let m = (n - 1) as nat;
        law_same_worker(states, stages, replies, m);
        let i = m as int;
        assert(stages[i].resumes(states[i], replies[i], stages[i + 1], states[i + 1]));
    }
}

/// The locks held after `n` requests got their replies.
pub open spec fn locks_after<E>(
    stages: Seq<WorkerStage<E>>,
    replies: Seq<Reply<E>>,
    n: nat,
) -> Locks
    decreases n,
{
    if n == 0 {
        Locks::none()
    } else {
        let m = (n - 1) as nat;
        match stages[m as int].asks() {
            Some(request) => locks_after(stages, replies, m).after(request, replies[m as int]),
            None => locks_after(stages, replies, m),
        }
    }
}

/// One reply changes the locks as the stages say.
proof fn lemma_locks_step<E>(
    stage: WorkerStage<E>,
    before: WorkerState,
    reply: Reply<E>,
    next: WorkerStage<E>,
    after: WorkerState,
)
    requires
        stage.resumes(before, reply, next, after),
    ensures
        match stage.asks() {
            Some(request) => next.locks() == stage.locks().after(request, reply),
            None => next.locks() == stage.locks(),
        },
{
}

/// Whatever the engine answers, a worker holds the locks that its stage says, and so: it never
/// locks what it holds already; it locks the journal manager only under the journal's lock; it
/// holds no lock while it flushes, compacts or maintains the journals, none while it looks for
/// work, none while it poisons the database, and none when it has ended, also after a failure.
pub proof fn law_locks<E>(
    states: Seq<WorkerState>,
    stages: Seq<WorkerStage<E>>,
    replies: Seq<Reply<E>>,
    n: nat,
)
    requires
        life(states, stages, replies),
        n < stages.len(),
    ensures
        ({
            let locks = locks_after(stages, replies, n);
            &&& locks == stages[n as int].locks()
            &&& locks.manager ==> locks.journal
            &&& match stages[n as int].asks() {
                Some(Request::JournalPosition) => locks.journal && !locks.manager,
                Some(Request::LockJournalManager) => locks.journal && !locks.manager,
                Some(Request::BuildSeqnoMap) => locks.journal && locks.manager,
                Some(Request::RotateJournal) => locks.journal && locks.manager,
                Some(Request::JournalDiskSpace) => locks.journal && locks.manager,
                Some(Request::ListStragglers) => locks.journal && locks.manager,
                Some(Request::RequestRotation(_)) => locks.journal && locks.manager,
                Some(Request::UnlockJournalManager) => locks.journal && locks.manager,
                Some(Request::UnlockJournal) => locks.journal && !locks.manager,
                Some(Request::ActiveMemtable(_)) => locks.journal && !locks.manager,
                Some(Request::RotateMemtable { .. }) => locks.journal && !locks.manager,
                _ => locks == Locks::none(),
            }
        }),
    decreases n,
{
    if n > 0 {
        let m = (n - 1) as nat;
        let i = m as int;
        law_locks(states, stages, replies, m);
        lemma_locks_step(stages[i], states[i], replies[i], stages[i + 1], states[i + 1]);
    }
}

/// A worker never waits to be woken while it holds a lock.
pub proof fn law_waits_without_locks<E>(
    stage: WorkerStage<E>,
    before: WorkerState,
    reply: Reply<E>,
    next: WorkerStage<E>,
    after: WorkerState,
    closed: bool,
)
    requires
        stage.resumes(before, reply, next, after),
        after.signals() == before.signals().push(WakeOp::Awaited { closed }),
    ensures
        stage.locks() == Locks::none(),
{
    assert(after.signals().last() == WakeOp::Awaited { closed });
    assert(after.signals().len() == before.signals().len() + 1);
    if let WorkerStage::Ticking(tick) = stage {
        let (middle, state) = choose|middle: TickStage<E>, state: WorkerState|
            {
                &&& #[trigger] tick.resumes(before, reply, middle, state)
                &&& next.follows(middle, state, after)
            };
        assert(state.signals() == after.signals());
        if let TickMove::Poke(_) = tick.decides(reply, before.max_journaling_size()) {
            let offer = choose|offer: Offer| #[trigger] state.poked(&before, offer);
            assert(state.signals().last() == WakeOp::Offered(offer));
        }
    }
}

/// Whether these are rounds begun one after the other, with the states between them.
pub open spec fn rounds_begun<E>(states: Seq<WorkerState>, stages: Seq<TickStage<E>>) -> bool {
    &&& states.len() == stages.len() + 1
    &&& forall|i: int|
        0 <= i < stages.len() ==> exists|stopped: bool|
            {
                &&& #[trigger] states[i + 1].read_stop(&states[i], stopped)
                &&& #[trigger] stages[i] == TickStage::<E>::started(stopped)
            }
}

/// A worker that was told to stop stays stopped: once it has read the stop signal as sent,
/// every round that it begins is over at once and says that it has to close, and it does nothing
/// over its line.
pub proof fn law_stopped_worker_stays_stopped<E>(
    states: Seq<WorkerState>,
    stages: Seq<TickStage<E>>,
    n: int,
)
    requires
        rounds_begun(states, stages),
        states[0].readings().contains(true),
        0 <= n <= stages.len(),
    ensures
        forall|i: int|
            0 <= i < n ==> #[trigger] stages[i] == TickStage::<E>::Finished(Ok(true)),
        states[n].readings().contains(true),
        states[n].signals() == states[0].signals(),
    decreases n,
{
    if n > 0 {
        law_stopped_worker_stays_stopped(states, stages, n - 1);
        let i = n - 1;
        assert(stages[i] == stages[i]);
        let stopped = choose|stopped: bool|
            {
                &&& #[trigger] states[i + 1].read_stop(&states[i], stopped)
                &&& stages[i] == TickStage::<E>::started(stopped)
            };
        let readings = states[i].readings();
        let j = choose|j: int| 0 <= j < readings.len() && readings[j];
        assert(states[n].readings()[j]);
    }
}

/// What a worker has read from the stop signal is only ever added to.
proof fn lemma_readings_grow<E>(
    stage: WorkerStage<E>,
    before: WorkerState,
    reply: Reply<E>,
    next: WorkerStage<E>,
    after: WorkerState,
)
    requires
        stage.resumes(before, reply, next, after),
    ensures
        before.readings().is_prefix_of(after.readings()),
        next == WorkerStage::<E>::Ticking(TickStage::DequeueFlush) && stage
            != WorkerStage::<E>::Ticking(TickStage::DequeueFlush) ==> {
            &&& after.readings().len() > before.readings().len()
            &&& !after.readings().last()
        },
{
    if let WorkerStage::Ticking(tick) = stage {
        let (middle, state) = choose|middle: TickStage<E>, state: WorkerState|
            {
                &&& #[trigger] tick.resumes(before, reply, middle, state)
                &&& next.follows(middle, state, after)
            };
        assert(before.readings().is_prefix_of(state.readings()));
        assert(state.readings().is_prefix_of(after.readings()));
    }
}

/// What a worker has read by one moment of its life, it has read by every later one.
pub(crate) proof fn lemma_life_readings<E>(
    states: Seq<WorkerState>,
    stages: Seq<WorkerStage<E>>,
    replies: Seq<Reply<E>>,
    n: int,
    m: int,
)
    requires
        life(states, stages, replies),
        0 <= n <= m < states.len(),
    ensures
        states[n].readings().is_prefix_of(states[m].readings()),
    decreases m - n,
{
    if n < m {
        lemma_life_readings(states, stages, replies, n, m - 1);
        assert(stages[m - 1] == stages[m - 1]);
        lemma_readings_grow(
            stages[m - 1],
            states[m - 1],
            replies[m - 1],
            stages[m],
            states[m],
        );
    }
}

/// A worker that is told to stop ends with its current round. If all that it reads from the stop
/// signal after its `n`-th stage is that the signal has been sent, it begins no other round
/// after that: past the start of a round, it does not come to the start of one again.
pub proof fn law_stop_ends_the_worker_with_its_round<E>(
    states: Seq<WorkerState>,
    stages: Seq<WorkerStage<E>>,
    replies: Seq<Reply<E>>,
    n: int,
    m: int,
)
    requires
        life(states, stages, replies),
        0 <= n <= m < replies.len(),
        forall|j: int|
            states[n].readings().len() <= j < states.last().readings().len() ==> #[trigger]
                states.last().readings()[j],
        stages[m] != WorkerStage::<E>::Ticking(TickStage::DequeueFlush),
    ensures
        stages[m + 1] != WorkerStage::<E>::Ticking(TickStage::DequeueFlush),
{
    assert(stages[m] == stages[m]);
    lemma_readings_grow(stages[m], states[m], replies[m], stages[m + 1], states[m + 1]);
    if stages[m + 1] == WorkerStage::<E>::Ticking(TickStage::DequeueFlush) {
        lemma_life_readings(states, stages, replies, n, m);
        lemma_life_readings(states, stages, replies, m + 1, states.len() - 1);
        let j = states[m + 1].readings().len() - 1;
        assert(states.last().readings()[j] == states[m + 1].readings()[j]);
    }
}

/// How a worker ends that is told to stop: when its round is over and all that it reads from the
/// stop signal from then on is that the signal has been sent, it has ended, or it crashed with
/// the round and poisons the database.
pub proof fn law_stopped_worker_ends_after_its_round<E>(
    tick: TickStage<E>,
    before: WorkerState,
    next: WorkerStage<E>,
    after: WorkerState,
)
    requires
        tick is Finished,
        next.follows(tick, before, after),
        forall|j: int|
            before.readings().len() <= j < after.readings().len() ==> #[trigger]
                after.readings()[j],
    ensures
        match tick {
            TickStage::Finished(Err(e)) => next == WorkerStage::Poisoning(e),
            _ => next == WorkerStage::<E>::Ended(Ok(())),
        },
{
    if tick == TickStage::<E>::Finished(Ok(false)) {
        let j = after.readings().len() - 1;
        assert(after.readings().last() == after.readings()[j]);
    }
}

} // verus!
