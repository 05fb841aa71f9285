//! What a whole round of a worker comes to.

use crate::engine::{FlushTask, Reply, Request};
use crate::flush::{FlushAnswers, FlushJob};
use crate::pending::{PendingAnswers, PendingStage};
use crate::tick::{TickMove, TickStage, WorkerState};
use crate::wake::WakeOp;
use vstd::prelude::*;

verus! {

/// Something that a worker does in a round.
pub enum TickEvent {
    /// It reads the stop signal.
    ReadStop,
    /// It wakes a worker.
    Poke,
    /// It waits to be woken.
    Wait,
    /// It asks something of the engine.
    Ask(Request),
}

/// What a worker meets with in one round.
pub struct TickAnswers<E> {
    /// Whether the stop signal has been sent when the round starts.
    pub stopped: bool,
    /// The task that is taken from the flush queue.
    pub dequeued: Option<FlushTask>,
    /// What the engine answers during the flush.
    pub flush: FlushAnswers<E>,
    /// What the engine answers during the search for marked keyspaces.
    pub pending: PendingAnswers<E>,
    /// Whether the stop signal has been sent when nothing was found to do.
    pub stopped_again: bool,
    /// Whether the line turns out to be closed.
    pub closed: bool,
}

/// These requests, as events.
pub open spec fn asked(requests: Seq<Request>) -> Seq<TickEvent> {
    requests.map_values(|request: Request| TickEvent::Ask(request))
}

impl<E> TickAnswers<E> {
    /// The reply to the outstanding request.
    pub open spec fn reply(self, stage: TickStage<E>) -> Reply<E> {
        match stage {
            TickStage::DequeueFlush => Reply::Dequeued(self.dequeued),
            TickStage::Flushing(job) => self.flush.reply(job),
            TickStage::Searching(search) => self.pending.reply(search),
            TickStage::Finished(_) => Reply::Done,
        }
    }

    /// All that happens from this stage to the end of the round, and how it ends.
    pub open spec fn run(self, stage: TickStage<E>, max_journaling_size: u64) -> (
        Seq<TickEvent>,
        Result<bool, E>,
    )
        decreases stage.phase(), stage.inner_phase(), stage.items_left(),
    {
        match stage {
            TickStage::Finished(outcome) => (Seq::empty(), outcome),
            _ => {
                let ask = seq![TickEvent::Ask(stage.asks()->0)];
                match stage.decides(self.reply(stage), max_journaling_size) {
                    TickMove::Go(next) => {
                        let (events, outcome) = self.run(next, max_journaling_size);
                        (ask + events, outcome)
                    },
                    TickMove::Poke(next) => {
                        let (events, outcome) = self.run(next, max_journaling_size);
                        (ask + seq![TickEvent::Poke] + events, outcome)
                    },
                    TickMove::Idle => (ask + self.idle_events(), self.idle_outcome()),
                }
            },
        }
    }

    /// All that happens in the round, and how it ends.
    pub open spec fn round(self, max_journaling_size: u64) -> (Seq<TickEvent>, Result<bool, E>) {
        let (events, outcome) = self.run(TickStage::started(self.stopped), max_journaling_size);
        (seq![TickEvent::ReadStop] + events, outcome)
    }

    /// What happens when nothing was found to do.
    pub open spec fn idle_events(self) -> Seq<TickEvent> {
        if self.stopped_again {
            seq![TickEvent::ReadStop]
        } else {
            seq![TickEvent::ReadStop, TickEvent::Wait]
        }
    }

    /// How the round ends when nothing was found to do.
    pub open spec fn idle_outcome(self) -> Result<bool, E> {
        Ok(self.stopped_again || self.closed)
    }

    /// What happens once the search for marked keyspaces is over.
    pub open spec fn search_end(self, found: Result<bool, E>) -> (
        Seq<TickEvent>,
        Result<bool, E>,
    ) {
        match found {
            Ok(true) => (seq![TickEvent::Poke], Ok(false)),
            Ok(false) => (self.idle_events(), self.idle_outcome()),
            Err(e) => (seq![], Err(e)),
        }
    }

    /// Whether the flush queue is empty and no keyspace is marked for anything.
    pub open spec fn nothing_to_do(self) -> bool {
        &&& self.dequeued is None
        &&& forall|i: int|
            0 <= i < self.pending.keyspaces.len() ==> !#[trigger] self.pending.marked(i)
    }

    /// All that happens in the round, where `k` is the first marked keyspace.
    pub open spec fn events(self, k: int, max_journaling_size: u64) -> Seq<TickEvent> {
        seq![TickEvent::ReadStop] + if self.stopped {
            seq![]
        } else {
            seq![TickEvent::Ask(Request::DequeueFlush)] + match self.dequeued {
                Some(task) => seq![TickEvent::Poke] + asked(
                    self.flush.requests(task, max_journaling_size),
                ),
                None => asked(
                    seq![Request::ListKeyspaces] + self.pending.vain_requests(0, k)
                        + self.pending.work_requests(k),
                ) + self.search_end(self.pending.outcome(k)).0,
            }
        }
    }

    /// How the round ends, where `k` is the first marked keyspace.
    pub open spec fn outcome(self, k: int) -> Result<bool, E> {
        if self.stopped {
            Ok(true)
        } else {
            match self.dequeued {
                Some(_) => match self.flush.outcome() {
                    Ok(()) => Ok(false),
                    Err(e) => Err(e),
                },
                None => self.search_end(self.pending.outcome(k)).1,
            }
        }
    }
}

impl<E> TickStage<E> {
    /// How many phases of the round are still to come.
    pub open spec fn phase(&self) -> nat {
        match self {
            TickStage::DequeueFlush => 2,
            TickStage::Flushing(_) => 1,
            TickStage::Searching(_) => 1,
            TickStage::Finished(_) => 0,
        }
    }

    /// How many phases of the work under way are still to come.
    pub open spec fn inner_phase(&self) -> nat {
        match self {
            TickStage::Flushing(job) => job.phase(),
            TickStage::Searching(search) => search.phase(),
            _ => 0,
        }
    }

    /// How many items of the list under way are still to come.
    pub open spec fn items_left(&self) -> int {
        match self {
            TickStage::Flushing(job) => job.stragglers_left() as int,
            TickStage::Searching(search) => search.marks_left(),
            _ => 0,
        }
    }
}

proof fn lemma_asked_first(request: Request, rest: Seq<Request>)
    ensures
        asked(seq![request] + rest) == seq![TickEvent::Ask(request)] + asked(rest),
{
    assert(asked(seq![request] + rest) =~= seq![TickEvent::Ask(request)] + asked(rest));
}

/// A round does what the flush does.
proof fn lemma_flush_in_round<E>(answers: TickAnswers<E>, job: FlushJob<E>, max: u64)
    requires
        !(job.stage is Finished),
    ensures
        answers.run(TickStage::Flushing(job), max) == (
            asked(answers.flush.run(job).0),
            match answers.flush.run(job).1 {
                Ok(()) => Ok(false),
                Err(e) => Err(e),
            },
        ),
    decreases job.phase(), job.stragglers_left(),
{
    let stage = TickStage::Flushing(job);
    let next = job.after(answers.flush.reply(job));
    let request = job.asks()->0;
    lemma_asked_first(request, answers.flush.run(next).0);
    assert(answers.flush.run(job).0 == seq![request] + answers.flush.run(next).0);
    if next.stage is Finished {
        assert(asked(Seq::<Request>::empty()) =~= Seq::<TickEvent>::empty());
        reveal_with_fuel(TickAnswers::run, 2);
    } else {
        lemma_flush_in_round(answers, next, max);
    }
}

/// A round does what the search does, and then what its result asks for.
proof fn lemma_search_in_round<E>(answers: TickAnswers<E>, search: PendingStage<E>, max: u64)
    requires
        !(search is Finished),
    ensures
        ({
            let (requests, found) = answers.pending.run(search);
            answers.run(TickStage::Searching(search), max) == (
                asked(requests) + answers.search_end(found).0,
                answers.search_end(found).1,
            )
        }),
    decreases search.phase(), search.marks_left(),
{
    let stage = TickStage::Searching(search);
    let next = search.after(answers.pending.reply(search));
    let request = search.asks()->0;
    let (rest, found) = answers.pending.run(next);
    lemma_asked_first(request, rest);
    assert(answers.pending.run(search).0 == seq![request] + rest);
    if next is Finished {
        assert(asked(Seq::<Request>::empty()) =~= Seq::<TickEvent>::empty());
        reveal_with_fuel(TickAnswers::run, 2);
        assert(answers.run(stage, max).0 =~= asked(seq![request] + rest) + answers.search_end(
            found,
        ).0);
    } else {
        lemma_search_in_round(answers, next, max);
        assert(answers.run(stage, max).0 =~= asked(seq![request] + rest) + answers.search_end(
            found,
        ).0);
    }
}

/// What a round does, from beginning to end, whatever it meets with: all that happens, in its
/// order, and how it ends.
pub proof fn law_round<E>(answers: TickAnswers<E>, k: int, max_journaling_size: u64)
    requires
        answers.pending.first_marked(k),
    ensures
        answers.round(max_journaling_size) == (
            answers.events(k, max_journaling_size),
            answers.outcome(k),
        ),
{
    let max = max_journaling_size;
    if !answers.stopped {
        let start = TickStage::<E>::DequeueFlush;
        match answers.dequeued {
            Some(task) => {
                let job = FlushJob::begun(task, max);
                lemma_flush_in_round(answers, job, max);
                crate::flush::law_flush_run(answers.flush, task, max);
                assert(answers.run(start, max).0 =~= seq![TickEvent::Ask(Request::DequeueFlush)]
                    + (seq![TickEvent::Poke] + asked(answers.flush.requests(task, max))));
            },
            None => {
                lemma_search_in_round(answers, PendingStage::ListKeyspaces, max);
                crate::pending::law_pending_run(answers.pending, k);
            },
        }
    }
}

proof fn lemma_asked_is_ask(requests: Seq<Request>)
    ensures
        !asked(requests).contains(TickEvent::Wait),
        !asked(requests).contains(TickEvent::Poke),
{
}

/// A worker waits only when there is nothing to do: in a round it waits if and only if the
/// flush queue was empty, no keyspace was marked for anything, and it was not told to stop,
/// neither before nor after looking.
pub proof fn law_waits_only_when_idle<E>(answers: TickAnswers<E>, max_journaling_size: u64)
    ensures
        answers.round(max_journaling_size).0.contains(TickEvent::Wait) <==> {
            &&& !answers.stopped
            &&& answers.nothing_to_do()
            &&& !answers.stopped_again
        },
{
    broadcast use vstd::seq_lib::group_seq_properties;

    let k = crate::pending::lemma_first_marked_exists(answers.pending);
    let max = max_journaling_size;
    law_round(answers, k, max);
    if !answers.stopped {
        match answers.dequeued {
            Some(task) => {
                lemma_asked_is_ask(answers.flush.requests(task, max));
            },
            None => {
                lemma_asked_is_ask(
                    seq![Request::ListKeyspaces] + answers.pending.vain_requests(0, k)
                        + answers.pending.work_requests(k),
                );
                if !answers.stopped_again {
                    assert(answers.idle_events()[1] is Wait);
                }
            },
        }
    }
}

/// A worker that finds something to do wakes another, or itself, to look for more: in a round
/// it pokes if and only if it took a task from the flush queue, or worked on a marked keyspace
/// without a failure.
pub proof fn law_pokes_when_busy<E>(answers: TickAnswers<E>, k: int, max_journaling_size: u64)
    requires
        answers.pending.first_marked(k),
    ensures
        answers.round(max_journaling_size).0.contains(TickEvent::Poke) <==> {
            &&& !answers.stopped
            &&& answers.dequeued is Some || answers.pending.outcome(k) == Ok::<bool, E>(true)
        },
{
    broadcast use vstd::seq_lib::group_seq_properties;

    let max = max_journaling_size;
    law_round(answers, k, max);
    if !answers.stopped {
        match answers.dequeued {
            Some(task) => {
                lemma_asked_is_ask(answers.flush.requests(task, max));
                assert(seq![TickEvent::Poke][0] is Poke);
            },
            None => {
                lemma_asked_is_ask(
                    seq![Request::ListKeyspaces] + answers.pending.vain_requests(0, k)
                        + answers.pending.work_requests(k),
                );
                assert(seq![TickEvent::Poke][0] is Poke);
            },
        }
    }
}

/// A worker is told to close if and only if it was told to stop, or found nothing to do and was
/// then told to stop or found the line closed. Work that was found is always done first.
pub proof fn law_closes_only_when_stopped<E>(answers: TickAnswers<E>, max_journaling_size: u64)
    ensures
        answers.round(max_journaling_size).1 == Ok::<bool, E>(true) <==> {
            ||| answers.stopped
            ||| answers.nothing_to_do() && (answers.stopped_again || answers.closed)
        },
{
    let k = crate::pending::lemma_first_marked_exists(answers.pending);
    law_round(answers, k, max_journaling_size);
}

/// What a worker does over its line, as events tell it: `true` for waiting, `false` for waking.
pub open spec fn signalled(events: Seq<TickEvent>) -> Seq<bool>
    decreases events.len(),
{
    if events.len() == 0 {
        Seq::empty()
    } else {
        let before = signalled(events.drop_last());
        match events.last() {
            TickEvent::Poke => before.push(false),
            TickEvent::Wait => before.push(true),
            _ => before,
        }
    }
}

/// How often a worker reads the stop signal, as events tell it.
pub open spec fn stop_reads(events: Seq<TickEvent>) -> nat
    decreases events.len(),
{
    if events.len() == 0 {
        0
    } else if events.last() is ReadStop {
        stop_reads(events.drop_last()) + 1
    } else {
        stop_reads(events.drop_last())
    }
}

/// What a worker asks of the engine, as events tell it.
pub open spec fn requests_in(events: Seq<TickEvent>) -> Seq<Request>
    decreases events.len(),
{
    if events.len() == 0 {
        Seq::empty()
    } else {
        let before = requests_in(events.drop_last());
        match events.last() {
            TickEvent::Ask(request) => before.push(request),
            _ => before,
        }
    }
}

/// What a worker asks of the engine in these stages, all but the last of which ask something.
pub open spec fn requests_of<E>(stages: Seq<TickStage<E>>) -> Seq<Request> {
    stages.drop_last().map_values(|stage: TickStage<E>| stage.asks()->0)
}

/// Which of the things done over a line are waits.
pub open spec fn waits(ops: Seq<WakeOp>) -> Seq<bool> {
    ops.map_values(|op: WakeOp| op is Awaited)
}

/// Whether a worker did, between two of its states, what these events tell.
pub open spec fn did(before: WorkerState, after: WorkerState, events: Seq<TickEvent>) -> bool {
    &&& after.same_worker(&before)
    &&& waits(after.signals()) == waits(before.signals()) + signalled(events)
    &&& after.readings().len() == before.readings().len() + stop_reads(events)
}

proof fn lemma_events_append(a: Seq<TickEvent>, b: Seq<TickEvent>)
    ensures
        signalled(a + b) == signalled(a) + signalled(b),
        stop_reads(a + b) == stop_reads(a) + stop_reads(b),
        requests_in(a + b) == requests_in(a) + requests_in(b),
    decreases b.len(),
{
    if b.len() == 0 {
        assert(a + b == a);
    } else {
        assert((a + b).drop_last() == a + b.drop_last());
        lemma_events_append(a, b.drop_last());
        assert(signalled(a + b) =~= signalled(a) + signalled(b));
        assert(requests_in(a + b) =~= requests_in(a) + requests_in(b));
    }
}

proof fn lemma_did_append(
    before: WorkerState,
    middle: WorkerState,
    after: WorkerState,
    a: Seq<TickEvent>,
    b: Seq<TickEvent>,
)
    requires
        did(before, middle, a),
        did(middle, after, b),
    ensures
        did(before, after, a + b),
{
    lemma_events_append(a, b);
    assert(waits(before.signals()) + signalled(a) + signalled(b) =~= waits(before.signals()) + (
    signalled(a) + signalled(b)));
}

/// Whether these can be the stages of a round of a worker that meets with `answers`, from some
/// stage on to its end, with the states between them. The line is open.
pub open spec fn rest_of_round<E>(
    answers: TickAnswers<E>,
    stages: Seq<TickStage<E>>,
    states: Seq<WorkerState>,
) -> bool {
    &&& stages.len() > 0
    &&& states.len() == stages.len()
    &&& stages.last() is Finished
    &&& forall|i: int|
        0 <= i < stages.len() - 1 ==> {
            let stage = #[trigger] stages[i];
            &&& !(stage is Finished)
            &&& stage.resumes(states[i], answers.reply(stage), stages[i + 1], states[i + 1])
            &&& stage.decides(answers.reply(stage), states[i].max_journaling_size()) is Idle ==> {
                &&& states[i + 1].readings().last() == answers.stopped_again
                &&& !answers.closed
            }
        }
}

proof fn lemma_waits_push(ops: Seq<WakeOp>, op: WakeOp)
    ensures
        waits(ops.push(op)) == waits(ops) + seq![op is Awaited],
{
    assert(waits(ops.push(op)) =~= waits(ops) + seq![op is Awaited]);
}

/// One step of a round.
proof fn lemma_step_does<E>(
    answers: TickAnswers<E>,
    stage: TickStage<E>,
    before: WorkerState,
    next: TickStage<E>,
    after: WorkerState,
)
    requires
        !(stage is Finished),
        stage.resumes(before, answers.reply(stage), next, after),
        stage.decides(answers.reply(stage), before.max_journaling_size()) is Idle ==> {
            &&& after.readings().last() == answers.stopped_again
            &&& !answers.closed
        },
    ensures
        ({
            let max = before.max_journaling_size();
            let ask = seq![TickEvent::Ask(stage.asks()->0)];
            let events = match stage.decides(answers.reply(stage), max) {
                TickMove::Go(_) => ask,
                TickMove::Poke(_) => ask + seq![TickEvent::Poke],
                TickMove::Idle => ask + answers.idle_events(),
            };
            &&& did(before, after, events)
            &&& requests_in(events) == seq![stage.asks()->0]
            &&& answers.run(stage, max) == (
                events + answers.run(next, max).0,
                answers.run(next, max).1,
            )
        }),
{
    let max = before.max_journaling_size();
    let ask = seq![TickEvent::Ask(stage.asks()->0)];
    reveal_with_fuel(signalled, 4);
    reveal_with_fuel(stop_reads, 4);
    reveal_with_fuel(requests_in, 4);
    assert(ask.drop_last() == Seq::<TickEvent>::empty());
    match stage.decides(answers.reply(stage), max) {
        TickMove::Go(_) => {
            assert(did(before, after, ask));
        },
        TickMove::Poke(_) => {
            let events = ask + seq![TickEvent::Poke];
            assert(events.drop_last() == ask);
            let offer = choose|offer: crate::wake::Offer| #[trigger] after.poked(&before, offer);
            lemma_waits_push(before.signals(), WakeOp::Offered(offer));
            assert(signalled(events) == seq![false]);
        },
        TickMove::Idle => {
            let (stopped, closed) = choose|stopped: bool, closed: bool|
                {
                    &&& #[trigger] after.idled(&before, stopped, closed)
                    &&& next == TickStage::<E>::Finished(Ok(stopped || closed))
                };
            assert(stopped == answers.stopped_again && closed == answers.closed);
            let read = ask + seq![TickEvent::ReadStop];
            assert(read.drop_last() == ask);
            if answers.stopped_again {
                assert(ask + answers.idle_events() == read);
            } else {
                let events = ask + answers.idle_events();
                assert(events.drop_last() == read);
                lemma_waits_push(before.signals(), WakeOp::Awaited { closed: answers.closed });
                assert(signalled(events) == seq![true]);
            }
            let end = ask + answers.idle_events();
            assert(end + Seq::<TickEvent>::empty() == end);
        },
    }
}

proof fn lemma_rest_does<E>(
    answers: TickAnswers<E>,
    stages: Seq<TickStage<E>>,
    states: Seq<WorkerState>,
)
    requires
        rest_of_round(answers, stages, states),
    ensures
        ({
            let (events, outcome) = answers.run(stages[0], states[0].max_journaling_size());
            &&& did(states[0], states.last(), events)
            &&& requests_in(events) == requests_of(stages)
            &&& stages.last() == TickStage::Finished(outcome)
        }),
    decreases stages.len(),
{
    let max = states[0].max_journaling_size();
    if stages.len() == 1 {
        assert(waits(states[0].signals()) + Seq::<bool>::empty() =~= waits(states[0].signals()));
        assert(requests_of(stages) =~= Seq::<Request>::empty());
    } else {
        let rest = stages.drop_first();
        let rest_states = states.drop_first();
        assert forall|i: int| 0 <= i < rest.len() - 1 implies {
            let stage = #[trigger] rest[i];
            &&& !(stage is Finished)
            &&& stage.resumes(
                rest_states[i],
                answers.reply(stage),
                rest[i + 1],
                rest_states[i + 1],
            )
            &&& stage.decides(answers.reply(stage), rest_states[i].max_journaling_size()) is Idle
                ==> {
                &&& rest_states[i + 1].readings().last() == answers.stopped_again
                &&& !answers.closed
            }
        } by {
            assert(rest[i] == stages[i + 1]);
        }
        assert(stages[0] == stages[0]);
        lemma_step_does(answers, stages[0], states[0], stages[1], states[1]);
        lemma_rest_does(answers, rest, rest_states);
        let ask = seq![TickEvent::Ask(stages[0].asks()->0)];
        let first = match stages[0].decides(answers.reply(stages[0]), max) {
            TickMove::Go(_) => ask,
            TickMove::Poke(_) => ask + seq![TickEvent::Poke],
            TickMove::Idle => ask + answers.idle_events(),
        };
        lemma_did_append(
            states[0],
            states[1],
            states.last(),
            first,
            answers.run(stages[1], max).0,
        );
        lemma_events_append(first, answers.run(stages[1], max).0);
        assert(requests_of(stages) =~= seq![stages[0].asks()->0] + requests_of(rest));
    }
}

/// A worker does what `round` says: one that begins a round and goes through it, stage by stage,
/// ends it as said there, having made the same requests, in the same order, having woken a
/// worker and waited to be woken as said there, in the same order, and having read the stop
/// signal as often.
pub proof fn law_worker_does_the_round<E>(
    answers: TickAnswers<E>,
    before: WorkerState,
    stages: Seq<TickStage<E>>,
    states: Seq<WorkerState>,
)
    requires
        rest_of_round(answers, stages, states),
        states[0].read_stop(&before, answers.stopped),
        stages[0] == TickStage::<E>::started(answers.stopped),
    ensures
        ({
            let (events, outcome) = answers.round(before.max_journaling_size());
            &&& did(before, states.last(), events)
            &&& requests_in(events) == requests_of(stages)
            &&& stages.last() == TickStage::Finished(outcome)
        }),
{
    let max = before.max_journaling_size();
    let read = seq![TickEvent::ReadStop];
    lemma_rest_does(answers, stages, states);
    assert(did(before, states[0], read)) by {
        reveal_with_fuel(signalled, 2);
        reveal_with_fuel(stop_reads, 2);
        assert(read.drop_last() == Seq::<TickEvent>::empty());
        assert(waits(before.signals()) + Seq::<bool>::empty() =~= waits(before.signals()));
    }
    lemma_did_append(before, states[0], states.last(), read, answers.run(stages[0], max).0);
    lemma_events_append(read, answers.run(stages[0], max).0);
    assert(requests_in(read) == Seq::<Request>::empty()) by {
        reveal_with_fuel(requests_in, 2);
        assert(read.drop_last() == Seq::<TickEvent>::empty());
    }
    assert(Seq::<Request>::empty() + requests_of(stages) =~= requests_of(stages));
}

/// The tasks that a worker flushes, as events tell it.
pub open spec fn flushed(events: Seq<TickEvent>) -> Seq<FlushTask>
    decreases events.len(),
{
    if events.len() == 0 {
        Seq::empty()
    } else {
        let before = flushed(events.drop_last());
        match events.last() {
            TickEvent::Ask(Request::RunFlush(task)) => before.push(task),
            _ => before,
        }
    }
}

/// The tasks that a worker flushes in rounds that follow each other.
pub open spec fn flushed_in_rounds<E>(
    rounds: Seq<TickAnswers<E>>,
    max_journaling_size: u64,
) -> Seq<FlushTask>
    decreases rounds.len(),
{
    if rounds.len() == 0 {
        Seq::empty()
    } else {
        flushed_in_rounds(rounds.drop_last(), max_journaling_size) + flushed(
            rounds.last().round(max_journaling_size).0,
        )
    }
}

proof fn lemma_flushed_append(a: Seq<TickEvent>, b: Seq<TickEvent>)
    ensures
        flushed(a + b) == flushed(a) + flushed(b),
    decreases b.len(),
{
    if b.len() == 0 {
        assert(a + b == a);
        assert(flushed(a) + flushed(b) =~= flushed(a));
    } else {
        assert((a + b).drop_last() == a + b.drop_last());
        lemma_flushed_append(a, b.drop_last());
        assert(flushed(a + b) =~= flushed(a) + flushed(b));
    }
}

proof fn lemma_no_flush(requests: Seq<Request>)
    requires
        forall|i: int| 0 <= i < requests.len() ==> !(#[trigger] requests[i] is RunFlush),
    ensures
        flushed(asked(requests)) == Seq::<FlushTask>::empty(),
    decreases requests.len(),
{
    if requests.len() > 0 {
        let rest = requests.drop_last();
        assert(forall|i: int| 0 <= i < rest.len() ==> #[trigger] rest[i] == requests[i]);
        assert(!(requests[requests.len() - 1] is RunFlush));
        assert(asked(requests).drop_last() =~= asked(rest));
        lemma_no_flush(rest);
    }
}

/// A flush without failure flushes its task, once.
proof fn lemma_flush_flushes<E>(answers: FlushAnswers<E>, task: FlushTask, max: u64)
    requires
        answers.outcome() is Ok,
    ensures
        flushed(asked(answers.requests(task, max))) == seq![task],
{
    let before = seq![Request::LockJournal] + answers.journal_requests(max) + seq![
        Request::UnlockJournal,
    ];
    let flush = seq![Request::RunFlush(task)];
    let after = seq![Request::RequestCompaction(task.keyspace), Request::MaintainJournals];
    assert(answers.requests(task, max) =~= before + flush + after);
    assert(asked(before + flush + after) =~= asked(before) + asked(flush) + asked(after));
    lemma_flushed_append(asked(before) + asked(flush), asked(after));
    lemma_flushed_append(asked(before), asked(flush));
    lemma_no_flush(before);
    lemma_no_flush(after);
    assert(flushed(asked(flush)) =~= seq![task]) by {
        reveal_with_fuel(flushed, 2);
        assert(asked(flush).drop_last() =~= Seq::<TickEvent>::empty());
    }
    assert(flushed(asked(before + flush + after)) =~= seq![task]);
}

/// The queue is worked off without a pause: a worker that finds `tasks` in the flush queue, one
/// after the other, is not told to stop, and meets with no failure, does so many rounds without
/// waiting, whether or not anybody pokes it. None of them makes it close, and together they
/// flush each task once, in the order of the queue.
pub proof fn law_queue_is_worked_off<E>(
    tasks: Seq<FlushTask>,
    rounds: Seq<TickAnswers<E>>,
    max_journaling_size: u64,
)
    requires
        rounds.len() == tasks.len(),
        forall|i: int|
            0 <= i < rounds.len() ==> {
                &&& !(#[trigger] rounds[i]).stopped
                &&& rounds[i].dequeued == Some(tasks[i])
                &&& rounds[i].flush.outcome() is Ok
            },
    ensures
        forall|i: int|
            0 <= i < rounds.len() ==> {
                let (events, outcome) = (#[trigger] rounds[i]).round(max_journaling_size);
                &&& outcome == Ok::<bool, E>(false)
                &&& !events.contains(TickEvent::Wait)
            },
        flushed_in_rounds(rounds, max_journaling_size) == tasks,
    decreases rounds.len(),
{
    if rounds.len() > 0 {
        let max = max_journaling_size;
        let rest = rounds.drop_last();
        let last = rounds[rounds.len() - 1];
        let task = tasks[tasks.len() - 1];
        assert(forall|i: int| 0 <= i < rest.len() ==> #[trigger] rest[i] == rounds[i]);
        law_queue_is_worked_off(tasks.drop_last(), rest, max);
        let k = crate::pending::lemma_first_marked_exists(last.pending);
        law_round(last, k, max);
        law_waits_only_when_idle(last, max);
        lemma_flush_flushes(last.flush, task, max);
        let read = seq![TickEvent::ReadStop];
        let dequeue = seq![TickEvent::Ask(Request::DequeueFlush)];
        let poke = seq![TickEvent::Poke];
        let flush = asked(last.flush.requests(task, max));
        let start = read + dequeue + poke;
        assert(last.events(k, max) =~= start + flush);
        lemma_flushed_append(start, flush);
        assert(flushed(start) == Seq::<FlushTask>::empty()) by {
            reveal_with_fuel(flushed, 4);
            assert(start.drop_last() =~= read + dequeue);
            assert((read + dequeue).drop_last() =~= read);
            assert(read.drop_last() =~= Seq::<TickEvent>::empty());
        }
        assert(flushed_in_rounds(rounds, max) =~= tasks);
        assert forall|i: int| 0 <= i < rounds.len() implies {
            let (events, outcome) = (#[trigger] rounds[i]).round(max);
            &&& outcome == Ok::<bool, E>(false)
            &&& !events.contains(TickEvent::Wait)
        } by {
            if i < rest.len() {
                assert(rest[i] == rounds[i]);
            }
        }
    }
}

/// Every round ends: each reply that answers its request brings it on. A stage is followed by one
/// with fewer phases to come, or with as many but fewer of the work under way, or with as many of
/// both but fewer items of the list under way.
pub proof fn law_every_reply_brings_the_round_on<E>(
    stage: TickStage<E>,
    reply: Reply<E>,
    next: TickStage<E>,
    max_journaling_size: u64,
)
    requires
        stage.wf(),
        stage.asks() matches Some(request) && request.answered_by(reply),
        ({
            let step = stage.decides(reply, max_journaling_size);
            step == TickMove::Go(next) || step == TickMove::Poke(next)
        }),
    ensures
        next.items_left() >= 0,
        next.phase() < stage.phase() || {
            &&& next.phase() == stage.phase()
            &&& next.inner_phase() < stage.inner_phase() || {
                &&& next.inner_phase() == stage.inner_phase()
                &&& next.items_left() < stage.items_left()
            }
        },
{
}

} // verus!
