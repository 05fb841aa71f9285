//! One round of a worker: look for work, do it, or wait to be woken.

use crate::engine::{Reply, Request};
use crate::flush::{process_one_flush, FlushJob, FlushStage};
use crate::pending::{run_pending_keyspace_work, PendingStage};
use crate::stop::StopFlag;
use crate::wake::{Offer, WakeLine, WakeOp};
use vstd::prelude::*;

verus! {

/// What a worker thread works with.
pub struct WorkerState {
    wake: WakeLine,
    stop: StopFlag,
    max_journaling_size: u64,
}

impl WorkerState {
    /// A worker is never the only holder of its line.
    #[verifier::type_invariant]
    spec fn valid(self) -> bool {
        !self.wake.sole()
    }

    /// What the worker has done over the line, oldest first.
    pub open spec fn signals(&self) -> Seq<WakeOp> {
        self.line()@
    }

    /// What the worker has read from the stop signal, oldest first.
    pub closed spec fn readings(&self) -> Seq<bool> {
        self.stop@
    }

    /// The line over which the worker is woken.
    pub closed spec fn line(&self) -> WakeLine {
        self.wake
    }

    /// The signal that stops the worker.
    pub closed spec fn stop_signal(&self) -> lsm_tree::stop_signal::StopSignal {
        self.stop.signal()
    }

    /// The disk space that the journals may use, in bytes.
    pub closed spec fn max_journaling_size(&self) -> u64 {
        self.max_journaling_size
    }

    /// Whether this is the same worker, at another time.
    pub open spec fn same_worker(&self, other: &WorkerState) -> bool {
        &&& self.line().same_line(&other.line())
        &&& self.line().sole() == other.line().sole()
        &&& self.stop_signal() == other.stop_signal()
        &&& self.max_journaling_size() == other.max_journaling_size()
    }

    /// Whether this is the state of a new worker on this line, that obeys this signal.
    pub open spec fn fresh(
        &self,
        line: WakeLine,
        stop: lsm_tree::stop_signal::StopSignal,
        max_journaling_size: u64,
    ) -> bool {
        &&& self.line().same_line(&line)
        &&& !self.line().sole()
        &&& self.stop_signal() == stop
        &&& self.max_journaling_size() == max_journaling_size
        &&& self.signals() == Seq::<WakeOp>::empty()
        &&& self.readings() == Seq::<bool>::empty()
    }

    /// Whether the worker read the stop signal, with this result, and did nothing else.
    pub open spec fn read_stop(&self, before: &WorkerState, stopped: bool) -> bool {
        &&& self.same_worker(before)
        &&& self.readings() == before.readings().push(stopped)
        &&& self.signals() == before.signals()
        &&& before.readings().contains(true) ==> stopped
    }

    /// Whether the worker put one wake on the line and did nothing else.
    pub open spec fn poked(&self, before: &WorkerState, offer: Offer) -> bool {
        &&& self.same_worker(before)
        &&& self.readings() == before.readings()
        &&& self.line().did(&before.line(), WakeOp::Offered(offer))
        &&& offer is Taken || offer is Full
    }

    /// Whether the worker, with nothing to do, read the stop signal and, unless that was sent,
    /// waited for a wake.
    pub open spec fn idled(&self, before: &WorkerState, stopped: bool, closed: bool) -> bool {
        &&& self.same_worker(before)
        &&& self.readings() == before.readings().push(stopped)
        &&& self.signals() == if stopped {
            before.signals()
        } else {
            before.signals().push(WakeOp::Awaited { closed })
        }
        &&& !closed
        &&& before.readings().contains(true) ==> stopped
    }

    /// The state of a new worker on this line, that obeys this signal. The worker is another
    /// holder of the line.
    pub fn new(
        line: &mut WakeLine,
        stop: &lsm_tree::stop_signal::StopSignal,
        max_journaling_size: u64,
    ) -> (state: WorkerState)
        ensures
            state.fresh(*old(line), *stop, max_journaling_size),
            state.line().sender() == old(line).sender(),
            state.line().receiver() == old(line).receiver(),
            state.stop_signal() == *stop,
            state.max_journaling_size() == max_journaling_size,
            state.signals() == Seq::<WakeOp>::empty(),
            state.readings() == Seq::<bool>::empty(),
            final(line).same_line(old(line)),
            final(line).sender() == old(line).sender(),
            final(line).receiver() == old(line).receiver(),
            !final(line).sole(),
            final(line)@ == old(line)@.push(WakeOp::Shared),
    {
        WorkerState { wake: line.share(), stop: StopFlag::new(stop), max_journaling_size }
    }

    /// Wakes a worker, this one or another. An extra wake is dropped; whether it is one is up to
    /// the other holders of the line too.
    pub fn poke(&mut self)
        ensures
            exists|offer: Offer| #[trigger] final(self).poked(old(self), offer),
            crate::protocol::woke_one(*old(self), *final(self)),
            final(self).line().sender() == old(self).line().sender(),
            final(self).line().receiver() == old(self).line().receiver(),
            final(self).stop_signal() == old(self).stop_signal(),
            final(self).max_journaling_size() == old(self).max_journaling_size(),
    {
        proof {
            use_type_invariant(&*self);
        }
        let offer = self.wake.poke();
        assert(self.poked(old(self), offer));
    }

    /// Whether the stop signal has been sent by now.
    pub fn is_stopped(&mut self) -> (stopped: bool)
        ensures
            final(self).read_stop(old(self), stopped),
            final(self).readings() == old(self).readings().push(stopped),
            final(self).signals() == old(self).signals(),
            final(self).line().sender() == old(self).line().sender(),
            final(self).line().receiver() == old(self).line().receiver(),
            final(self).stop_signal() == old(self).stop_signal(),
            final(self).max_journaling_size() == old(self).max_journaling_size(),
    {
        proof {
            use_type_invariant(&*self);
        }
        self.stop.is_stopped()
    }

    /// Waits to be woken. Returns whether the line is closed.
    fn wait(&mut self) -> (closed: bool)
        ensures
            final(self).same_worker(old(self)),
            final(self).readings() == old(self).readings(),
            final(self).line().did(&old(self).line(), WakeOp::Awaited { closed }),
            !closed,
    {
        proof {
            use_type_invariant(&*self);
        }
        self.wake.wait()
    }

    /// The disk space that the journals may use, in bytes.
    fn journaling_limit(&self) -> (limit: u64)
        ensures
            limit == self.max_journaling_size(),
    {
        self.max_journaling_size
    }
}

/// How far a round has come. Ends with whether the worker has to close.
pub enum TickStage<E> {
    /// A task is being taken from the flush queue.
    DequeueFlush,
    /// A task is being worked off.
    Flushing(FlushJob<E>),
    /// The keyspaces are being looked through for work.
    Searching(PendingStage<E>),
    /// The round is over.
    Finished(Result<bool, E>),
}

/// What a reply makes a worker do.
pub enum TickMove<E> {
    /// Go on.
    Go(TickStage<E>),
    /// Wake a worker, then go on.
    Poke(TickStage<E>),
    /// There is nothing to do.
    Idle,
}

impl<E> TickStage<E> {
    /// The work under way is well-formed and not over.
    pub open spec fn wf(&self) -> bool {
        match self {
            TickStage::Flushing(job) => job.wf() && !(job.stage is Finished),
            TickStage::Searching(stage) => stage.wf() && !(stage is Finished),
            _ => true,
        }
    }

    /// The request that is outstanding, or `None` when the round is over.
    pub open spec fn asks(&self) -> Option<Request> {
        match self {
            TickStage::DequeueFlush => Some(Request::DequeueFlush),
            TickStage::Flushing(job) => job.asks(),
            TickStage::Searching(stage) => stage.asks(),
            TickStage::Finished(_) => None,
        }
    }

    /// How a round starts, given whether the stop signal has been sent.
    pub open spec fn started(stopped: bool) -> TickStage<E> {
        if stopped {
            TickStage::Finished(Ok(true))
        } else {
            TickStage::DequeueFlush
        }
    }

    /// What the reply to the outstanding request makes the worker do.
    pub open spec fn decides(self, reply: Reply<E>, max_journaling_size: u64) -> TickMove<E> {
        match self {
            TickStage::DequeueFlush => match reply {
                Reply::Dequeued(Some(task)) => TickMove::Poke(
                    TickStage::Flushing(FlushJob::begun(task, max_journaling_size)),
                ),
                Reply::Dequeued(None) => TickMove::Go(
                    TickStage::Searching(PendingStage::ListKeyspaces),
                ),
                _ => TickMove::Go(self),
            },
            TickStage::Flushing(job) => {
                let next = job.after(reply);
                match next.stage {
                    FlushStage::Finished(Ok(())) => TickMove::Go(TickStage::Finished(Ok(false))),
                    FlushStage::Finished(Err(e)) => TickMove::Go(TickStage::Finished(Err(e))),
                    _ => TickMove::Go(TickStage::Flushing(next)),
                }
            },
            TickStage::Searching(stage) => {
                let next = stage.after(reply);
                match next {
                    PendingStage::Finished(Ok(true)) => TickMove::Poke(
                        TickStage::Finished(Ok(false)),
                    ),
                    PendingStage::Finished(Ok(false)) => TickMove::Idle,
                    PendingStage::Finished(Err(e)) => TickMove::Go(TickStage::Finished(Err(e))),
                    _ => TickMove::Go(TickStage::Searching(next)),
                }
            },
            TickStage::Finished(_) => TickMove::Go(self),
        }
    }

    /// How a worker can have gone from one stage and state to the next on a reply.
    pub open spec fn resumes(
        self,
        before: WorkerState,
        reply: Reply<E>,
        next: TickStage<E>,
        after: WorkerState,
    ) -> bool {
        match self.decides(reply, before.max_journaling_size()) {
            TickMove::Go(stage) => next == stage && after == before,
            TickMove::Poke(stage) => {
                &&& next == stage
                &&& exists|offer: Offer| #[trigger] after.poked(&before, offer)
            },
            TickMove::Idle => exists|stopped: bool, closed: bool|
                {
                    &&& #[trigger] after.idled(&before, stopped, closed)
                    &&& next == TickStage::<E>::Finished(Ok(stopped || closed))
                },
        }
    }

    /// The request that is outstanding, or `None` when the round is over.
    pub fn request(&self) -> (request: Option<Request>)
        requires
            self.wf(),
        ensures
            request == self.asks(),
    {
        match self {
            TickStage::DequeueFlush => Some(Request::DequeueFlush),
            TickStage::Flushing(job) => job.request(),
            TickStage::Searching(stage) => stage.request(),
            TickStage::Finished(_) => None,
        }
    }
}

/// How a round starts, given whether the stop signal has been sent.
pub fn start_tick<E>(stopped: bool) -> (stage: TickStage<E>)
    ensures
        stage == TickStage::<E>::started(stopped),
        stage == if stopped {
            TickStage::<E>::Finished(Ok(true))
        } else {
            TickStage::<E>::DequeueFlush
        },
        stage.wf(),
{
    if stopped {
        TickStage::Finished(Ok(true))
    } else {
        TickStage::DequeueFlush
    }
}

/// How a round ends in which nothing was found to do. `waited` is `None` if the worker did not
/// wait to be woken, because it has to stop, or else whether the line turned out to be closed.
pub fn end_idle_tick<E>(waited: Option<bool>) -> (stage: TickStage<E>)
    ensures
        stage == match waited {
            None => TickStage::<E>::Finished(Ok(true)),
            Some(closed) => TickStage::<E>::Finished(Ok(closed)),
        },
{
    match waited {
        None => TickStage::Finished(Ok(true)),
        Some(closed) => TickStage::Finished(Ok(closed)),
    }
}

/// What the reply to the outstanding request makes a worker do.
pub fn decide_tick<E>(stage: TickStage<E>, reply: Reply<E>, max_journaling_size: u64) -> (tick_move:
    TickMove<E>)
    requires
        stage.wf(),
    ensures
        tick_move == stage.decides(reply, max_journaling_size),
        tick_move matches TickMove::Go(next) ==> next.wf(),
        tick_move matches TickMove::Poke(next) ==> next.wf(),
{
    match stage {
        TickStage::DequeueFlush => match reply {
            Reply::Dequeued(Some(task)) => TickMove::Poke(
                TickStage::Flushing(FlushJob::begin(task, max_journaling_size)),
            ),
            Reply::Dequeued(None) => TickMove::Go(
                TickStage::Searching(PendingStage::ListKeyspaces),
            ),
            _ => TickMove::Go(TickStage::DequeueFlush),
        },
        TickStage::Flushing(job) => {
            let FlushJob { task, max_journaling_size, stage } = process_one_flush(job, reply);
            match stage {
                FlushStage::Finished(Ok(())) => TickMove::Go(TickStage::Finished(Ok(false))),
                FlushStage::Finished(Err(e)) => TickMove::Go(TickStage::Finished(Err(e))),
                stage => TickMove::Go(
                    TickStage::Flushing(FlushJob { task, max_journaling_size, stage }),
                ),
            }
        },
        TickStage::Searching(search) => match run_pending_keyspace_work(search, reply) {
            PendingStage::Finished(Ok(true)) => TickMove::Poke(TickStage::Finished(Ok(false))),
            PendingStage::Finished(Ok(false)) => TickMove::Idle,
            PendingStage::Finished(Err(e)) => TickMove::Go(TickStage::Finished(Err(e))),
            next => TickMove::Go(TickStage::Searching(next)),
        },
        TickStage::Finished(outcome) => TickMove::Go(TickStage::Finished(outcome)),
    }
}

/// Starts a round: unless the worker has to stop, the flush queue comes first.
pub fn worker_tick<E>(ctx: &mut WorkerState) -> (stage: TickStage<E>)
    ensures
        stage.wf(),
        exists|stopped: bool|
            {
                &&& #[trigger] final(ctx).read_stop(old(ctx), stopped)
                &&& stage == TickStage::<E>::started(stopped)
            },
        final(ctx).signals() == old(ctx).signals(),
        final(ctx).readings().len() == old(ctx).readings().len() + 1,
        final(ctx).readings().drop_last() == old(ctx).readings(),
        stage == if final(ctx).readings().last() {
            TickStage::<E>::Finished(Ok(true))
        } else {
            TickStage::<E>::DequeueFlush
        },
{
    let stopped = ctx.is_stopped();
    start_tick(stopped)
}

/// Goes on with a round, now that the outstanding request got its reply.
///
/// A task from the flush queue is worked off, after another worker was woken to look for more.
/// If there is none, a marked keyspace is worked on, and a worker is woken after that. If
/// there is none either, the worker waits to be woken, unless it has to stop.
pub fn resume_tick<E>(ctx: &mut WorkerState, stage: TickStage<E>, reply: Reply<E>) -> (next:
    TickStage<E>)
    requires
        stage.wf(),
    ensures
        next.wf(),
        stage.resumes(*old(ctx), reply, next, *final(ctx)),
{
    match decide_tick(stage, reply, ctx.journaling_limit()) {
        TickMove::Go(next) => next,
        TickMove::Poke(next) => {
            ctx.poke();
            next
        },
        TickMove::Idle => {
            let stopped = ctx.is_stopped();
            if stopped {
                assert(ctx.idled(old(ctx), true, false));
                end_idle_tick(None)
            } else {
                let closed = ctx.wait();
                assert(ctx.idled(old(ctx), false, closed));
                end_idle_tick(Some(closed))
            }
        },
    }
}

} // verus!
