//! What the rounds in the life of a worker come to.

use crate::engine::{FlushTask, Reply, Request};
use crate::flush::{FlushJob, FlushStage};
use crate::pending::PendingStage;
use crate::tick::{TickStage, WorkerState};
use crate::tick_run::TickAnswers;
use crate::worker::WorkerStage;
use vstd::prelude::*;

verus! {

/// Whether every reply is one to the request that was open.
pub open spec fn all_answered<E>(stages: Seq<WorkerStage<E>>, replies: Seq<Reply<E>>) -> bool {
    forall|i: int|
        0 <= i < replies.len() ==> ((#[trigger] stages[i]).asks() matches Some(request)
            ==> request.answered_by(replies[i]))
}

/// Where one reply brings a worker, as far as its stages go.
spec fn moved<E>(stage: WorkerStage<E>, reply: Reply<E>, next: WorkerStage<E>, max: u64) -> bool {
    match stage {
        WorkerStage::Ticking(TickStage::DequeueFlush) => match reply {
            Reply::Dequeued(Some(task)) => next == WorkerStage::Ticking(
                TickStage::Flushing(FlushJob::<E>::begun(task, max)),
            ),
            Reply::Dequeued(None) => next == WorkerStage::Ticking(
                TickStage::<E>::Searching(PendingStage::ListKeyspaces),
            ),
            _ => next == stage,
        },
        WorkerStage::Ticking(TickStage::Flushing(job)) => match job.after(reply).stage {
            FlushStage::Finished(Ok(())) => over(next),
            FlushStage::Finished(Err(e)) => next == WorkerStage::Poisoning(e),
            _ => next == WorkerStage::Ticking(TickStage::Flushing(job.after(reply))),
        },
        WorkerStage::Ticking(TickStage::Searching(search)) => match search.after(reply) {
            PendingStage::Finished(Ok(_)) => over(next),
            PendingStage::Finished(Err(e)) => next == WorkerStage::Poisoning(e),
            _ => next == WorkerStage::Ticking(TickStage::Searching(search.after(reply))),
        },
        WorkerStage::Ticking(TickStage::Finished(_)) => false,
        WorkerStage::Poisoning(e) => next == stage || next == WorkerStage::<E>::Ended(Err(e)),
        WorkerStage::Ended(_) => next == stage,
    }
}

/// Whether a round is over: another has begun, or the worker has ended well.
spec fn over<E>(stage: WorkerStage<E>) -> bool {
    ||| stage == WorkerStage::<E>::Ticking(TickStage::DequeueFlush)
    ||| stage == WorkerStage::<E>::Ended(Ok(()))
}

proof fn lemma_moved<E>(
    stage: WorkerStage<E>,
    before: WorkerState,
    reply: Reply<E>,
    next: WorkerStage<E>,
    after: WorkerState,
)
    requires
        stage.wf(),
        stage.resumes(before, reply, next, after),
    ensures
        next.wf(),
        moved(stage, reply, next, before.max_journaling_size()),
{
    if let WorkerStage::Ticking(tick) = stage {
        let (middle, state) = choose|middle: TickStage<E>, state: WorkerState|
            {
                &&& #[trigger] tick.resumes(before, reply, middle, state)
                &&& next.follows(middle, state, after)
            };
        assert(next.follows(middle, state, after));
    }
}

spec fn moved_at<E>(
    stages: Seq<WorkerStage<E>>,
    replies: Seq<Reply<E>>,
    max: u64,
    i: int,
) -> bool {
    &&& stages[i].wf()
    &&& moved(stages[i], replies[i], stages[i + 1], max)
}

/// Whether these can be the stages of a life, with these replies.
spec fn moves<E>(stages: Seq<WorkerStage<E>>, replies: Seq<Reply<E>>, max: u64) -> bool {
    &&& stages.len() == replies.len() + 1
    &&& forall|i: int| 0 <= i < replies.len() ==> #[trigger] moved_at(stages, replies, max, i)
}

proof fn lemma_moves<E>(
    states: Seq<WorkerState>,
    stages: Seq<WorkerStage<E>>,
    replies: Seq<Reply<E>>,
)
    requires
        crate::worker::life(states, stages, replies),
    ensures
        moves(stages, replies, states[0].max_journaling_size()),
{
    let max = states[0].max_journaling_size();
    assert forall|i: int| 0 <= i < replies.len() implies #[trigger] moved_at(
        stages,
        replies,
        max,
        i,
    ) by {
        lemma_life_wf(states, stages, replies, i);
        crate::worker::law_same_worker(states, stages, replies, i as nat);
        lemma_life_step(states, stages, replies, i);
        lemma_moved(stages[i], states[i], replies[i], stages[i + 1], states[i + 1]);
    }
}

/// One step of a life.
proof fn lemma_life_step<E>(
    states: Seq<WorkerState>,
    stages: Seq<WorkerStage<E>>,
    replies: Seq<Reply<E>>,
    i: int,
)
    requires
        crate::worker::life(states, stages, replies),
        0 <= i < replies.len(),
    ensures
        stages[i].resumes(states[i], replies[i], stages[i + 1], states[i + 1]),
{
    assert(stages[i] == stages[i] && replies[i] == replies[i]);
}

/// The stages of a life are well-formed.
proof fn lemma_life_wf<E>(
    states: Seq<WorkerState>,
    stages: Seq<WorkerStage<E>>,
    replies: Seq<Reply<E>>,
    i: int,
)
    requires
        crate::worker::life(states, stages, replies),
        0 <= i < stages.len(),
    ensures
        stages[i].wf(),
    decreases i,
{
    if i > 0 {
        lemma_life_wf(states, stages, replies, i - 1);
        lemma_life_step(states, stages, replies, i - 1);
        lemma_moved(stages[i - 1], states[i - 1], replies[i - 1], stages[i], states[i]);
    }
}

/// Every straggler is marked, once and in the order of the list: after the list of stragglers came
/// and `j` requests more were done, the worker asks to mark the straggler number `j`, and when all
/// are marked, to unlock the journal manager.
pub proof fn law_every_straggler_is_marked<E>(
    states: Seq<WorkerState>,
    stages: Seq<WorkerStage<E>>,
    replies: Seq<Reply<E>>,
    i: int,
    stragglers: Vec<u64>,
    j: int,
)
    requires
        crate::worker::life(states, stages, replies),
        0 <= i,
        0 <= j <= stragglers@.len(),
        i + j < replies.len(),
        stages[i].asks() == Some(Request::ListStragglers),
        replies[i] == Reply::<E>::Keyspaces(stragglers),
        forall|m: int| i < m <= i + j ==> #[trigger] replies[m] is Done,
    ensures
        stages[i + 1 + j].asks() == Some(
            if j < stragglers@.len() {
                Request::RequestRotation(stragglers@[j])
            } else {
                Request::UnlockJournalManager
            },
        ),
{
    let max = states[0].max_journaling_size();
    lemma_moves(states, stages, replies);
    lemma_stragglers(stages, replies, max, i, stragglers, j);
}

proof fn lemma_stragglers<E>(
    stages: Seq<WorkerStage<E>>,
    replies: Seq<Reply<E>>,
    max: u64,
    i: int,
    stragglers: Vec<u64>,
    j: int,
)
    requires
        moves(stages, replies, max),
        0 <= i,
        0 <= j <= stragglers@.len(),
        i + j < replies.len(),
        stages[i].asks() == Some(Request::ListStragglers),
        replies[i] == Reply::<E>::Keyspaces(stragglers),
        forall|m: int| i < m <= i + j ==> #[trigger] replies[m] is Done,
    ensures
        ({
            &&& stages[i + 1 + j] matches WorkerStage::Ticking(TickStage::Flushing(job))
            &&& if j < stragglers@.len() {
                &&& job.stage matches FlushStage::MarkStraggler { stragglers: list, index }
                &&& list == stragglers
                &&& index == j
            } else {
                job.stage is UnlockManager
            }
        }),
    decreases j,
{
    if j == 0 {
        assert(moved_at(stages, replies, max, i));
    } else {
        lemma_stragglers(stages, replies, max, i, stragglers, j - 1);
        assert(moved_at(stages, replies, max, i + j));
        assert(replies[i + j] is Done);
    }
}

/// The keyspaces are looked at in their order, for the rotation mark before the compaction mark,
/// for as long as no mark was found: after the list of keyspaces came and `2 * j` marks were not
/// there, the worker asks for the rotation mark of the keyspace number `j`, and if that is not
/// there, for its compaction mark. When no keyspace has any mark, it has nothing to do.
pub proof fn law_keyspaces_are_looked_at_in_turn<E>(
    states: Seq<WorkerState>,
    stages: Seq<WorkerStage<E>>,
    replies: Seq<Reply<E>>,
    i: int,
    keyspaces: Vec<u64>,
    j: int,
)
    requires
        crate::worker::life(states, stages, replies),
        0 <= i,
        0 <= j < keyspaces@.len(),
        i + 2 * j + 2 < replies.len(),
        stages[i].asks() == Some(Request::ListKeyspaces),
        replies[i] == Reply::<E>::Keyspaces(keyspaces),
        forall|m: int| i < m < i + 1 + 2 * j ==> #[trigger] replies[m] == Reply::<E>::Pending(false),
    ensures
        ({
            let at = i + 1 + 2 * j;
            &&& stages[at].asks() == Some(Request::TakeRotationMark(keyspaces@[j]))
            &&& replies[at] == Reply::<E>::Pending(true) ==> {
                &&& stages[at + 1].asks() == Some(Request::LockJournal)
                &&& replies[at + 1] is Done ==> stages[at + 2].asks() == Some(
                    Request::ActiveMemtable(keyspaces@[j]),
                )
            }
            &&& replies[at] == Reply::<E>::Pending(false) ==> {
                &&& stages[at + 1].asks() == Some(Request::TakeCompactionMark(keyspaces@[j]))
                &&& replies[at + 1] == Reply::<E>::Pending(true) ==> stages[at + 2].asks() == Some(
                    Request::RunCompaction(keyspaces@[j]),
                )
                &&& replies[at + 1] == Reply::<E>::Pending(false) ==> if j + 1 < keyspaces@.len() {
                    stages[at + 2].asks() == Some(Request::TakeRotationMark(keyspaces@[j + 1]))
                } else {
                    crate::protocol::idle_round(states[at + 1], stages[at + 2], states[at + 2])
                }
            }
        }),
{
    let at = i + 1 + 2 * j;
    let max = states[0].max_journaling_size();
    lemma_moves(states, stages, replies);
    lemma_search_at(stages, replies, max, i, keyspaces, j);
    assert(moved_at(stages, replies, max, at));
    assert(moved_at(stages, replies, max, at + 1));
    if replies[at] == Reply::<E>::Pending(false) && replies[at + 1] == Reply::<E>::Pending(false)
        && j + 1 == keyspaces@.len() {
        lemma_life_step(states, stages, replies, at + 1);
        crate::protocol::law_what_follows(
            stages[at + 1],
            states[at + 1],
            Request::TakeCompactionMark(keyspaces@[j]),
            replies[at + 1],
            stages[at + 2],
            states[at + 2],
        );
    }
}

proof fn lemma_search_at<E>(
    stages: Seq<WorkerStage<E>>,
    replies: Seq<Reply<E>>,
    max: u64,
    i: int,
    keyspaces: Vec<u64>,
    j: int,
)
    requires
        moves(stages, replies, max),
        0 <= i,
        0 <= j < keyspaces@.len(),
        i + 2 * j < replies.len(),
        stages[i].asks() == Some(Request::ListKeyspaces),
        replies[i] == Reply::<E>::Keyspaces(keyspaces),
        forall|m: int| i < m < i + 1 + 2 * j ==> #[trigger] replies[m] == Reply::<E>::Pending(false),
    ensures
        ({
            &&& stages[i + 1 + 2 * j] matches WorkerStage::Ticking(
                TickStage::Searching(PendingStage::TakeRotationMark { keyspaces: list, index }),
            )
            &&& list == keyspaces
            &&& index == j
        }),
    decreases j,
{
    if j == 0 {
        assert(moved_at(stages, replies, max, i));
    } else {
        lemma_search_at(stages, replies, max, i, keyspaces, j - 1);
        let at = i + 1 + 2 * (j - 1);
        assert(moved_at(stages, replies, max, at));
        assert(moved_at(stages, replies, max, at + 1));
        assert(replies[at] == Reply::<E>::Pending(false));
        assert(replies[at + 1] == Reply::<E>::Pending(false));
    }
}

/// A memtable is rotated for the keyspace whose rotation mark was taken, under the journal's lock,
/// and it is the memtable that is active by then.
pub proof fn law_marked_memtable_is_rotated<E>(
    states: Seq<WorkerState>,
    stages: Seq<WorkerStage<E>>,
    replies: Seq<Reply<E>>,
    i: int,
    keyspace: u64,
    memtable: u64,
)
    requires
        crate::worker::life(states, stages, replies),
        0 <= i,
        i + 2 < replies.len(),
        stages[i].asks() == Some(Request::TakeRotationMark(keyspace)),
        replies[i] == Reply::<E>::Pending(true),
        replies[i + 1] is Done,
        replies[i + 2] == Reply::<E>::Memtable(memtable),
    ensures
        stages[i + 1].asks() == Some(Request::LockJournal),
        stages[i + 2].asks() == Some(Request::ActiveMemtable(keyspace)),
        stages[i + 3].asks() == Some(Request::RotateMemtable { keyspace, memtable }),
{
    let max = states[0].max_journaling_size();
    lemma_moves(states, stages, replies);
    assert(moved_at(stages, replies, max, i));
    assert(moved_at(stages, replies, max, i + 1));
    assert(moved_at(stages, replies, max, i + 2));
}

/// Whether one of these replies is this failure.
pub open spec fn failed_between<E>(replies: Seq<Reply<E>>, a: int, b: int, error: E) -> bool {
    exists|m: int| a < m < b && #[trigger] replies[m] == Reply::Failed(error)
}

proof fn lemma_failed_earlier<E>(replies: Seq<Reply<E>>, a: int, b: int, c: int)
    requires
        b <= c,
    ensures
        forall|e: E| #[trigger]
            failed_between(replies, a, b, e) ==> failed_between(replies, a, c, e),
{
    assert forall|e: E| #[trigger] failed_between(replies, a, b, e) implies failed_between(
        replies,
        a,
        c,
        e,
    ) by {
        let m = choose|m: int| a < m < b && #[trigger] replies[m] == Reply::Failed(e);
        assert(replies[m] == Reply::Failed(e));
    }
}

/// Whether none of these replies is a failure.
pub open spec fn none_failed<E>(replies: Seq<Reply<E>>, a: int, b: int) -> bool {
    forall|m: int| a < m < b ==> !(#[trigger] replies[m] is Failed)
}

/// Whether the stages after `a`, up to and including `b`, belong to the same round.
pub open spec fn same_round<E>(stages: Seq<WorkerStage<E>>, a: int, b: int) -> bool {
    forall|m: int| a < m <= b ==> (#[trigger] stages[m]).asks() != Some(Request::DequeueFlush)
}

/// Where a worker is in a round that takes a task.
proof fn lemma_flush_round<E>(
    stages: Seq<WorkerStage<E>>,
    replies: Seq<Reply<E>>,
    max: u64,
    a: int,
    task: FlushTask,
    b: int,
)
    requires
        moves(stages, replies, max),
        all_answered(stages, replies),
        0 <= a < b < stages.len(),
        stages[a].asks() == Some(Request::DequeueFlush),
        replies[a] == Reply::<E>::Dequeued(Some(task)),
        same_round(stages, a, b),
    ensures
        match stages[b] {
            WorkerStage::Ticking(TickStage::Flushing(job)) => {
                &&& job.task == task
                &&& job.max_journaling_size == max
                &&& match job.stage {
                    FlushStage::UnlockManager(Some(e)) => failed_between(replies, a, b, e),
                    FlushStage::UnlockJournal(Some(e)) => failed_between(replies, a, b, e),
                    _ => none_failed(replies, a, b),
                }
            },
            WorkerStage::Ticking(_) => false,
            WorkerStage::Poisoning(e) => failed_between(replies, a, b, e),
            WorkerStage::Ended(Err(e)) => failed_between(replies, a, b, e),
            WorkerStage::Ended(Ok(())) => true,
        },
    decreases b,
{
    assert(moved_at(stages, replies, max, b - 1));
    assert(stages[b - 1] == stages[b - 1]);
    assert(stages[b].asks() != Some(Request::DequeueFlush));
    if b > a + 1 {
        assert(same_round(stages, a, b - 1));
        lemma_flush_round(stages, replies, max, a, task, b - 1);
        lemma_failed_earlier(replies, a, b - 1, b);
        if let Reply::Failed(e) = replies[b - 1] {
            assert(failed_between(replies, a, b, e));
        }
    }
}

/// What is flushed is the task that was taken, and what is compacted later is its keyspace. In the
/// round in which the worker took `task`, it asks for no other flush, and for no other keyspace to
/// be compacted; it asks for the stragglers if and only if the journals then use as much disk
/// space as they may; when the journal is unlocked again, it flushes if and only if nothing failed,
/// and else it poisons the database with the failure.
pub proof fn law_flush_is_of_the_task_taken<E>(
    states: Seq<WorkerState>,
    stages: Seq<WorkerStage<E>>,
    replies: Seq<Reply<E>>,
    a: int,
    task: FlushTask,
    b: int,
)
    requires
        crate::worker::life(states, stages, replies),
        all_answered(stages, replies),
        0 <= a < b < replies.len(),
        stages[a].asks() == Some(Request::DequeueFlush),
        replies[a] == Reply::<E>::Dequeued(Some(task)),
        same_round(stages, a, b),
    ensures
        match stages[b].asks() {
            Some(Request::LockJournal) => replies[b] is Done ==> stages[b + 1].asks() == Some(
                Request::JournalPosition,
            ),
            Some(Request::RunFlush(flushed)) => flushed == task && none_failed(replies, a, b),
            Some(Request::RequestCompaction(keyspace)) => keyspace == task.keyspace,
            Some(Request::JournalDiskSpace) => replies[b] matches Reply::DiskSpace(used)
                && stages[b + 1].asks() == Some(
                if used >= states[0].max_journaling_size() {
                    Request::ListStragglers
                } else {
                    Request::UnlockJournalManager
                },
            ),
            Some(Request::UnlockJournal) => if none_failed(replies, a, b) {
                stages[b + 1].asks() == Some(Request::RunFlush(task))
            } else {
                &&& stages[b + 1] matches WorkerStage::Poisoning(error)
                &&& failed_between(replies, a, b, error)
            },
            Some(Request::ListKeyspaces) => false,
            Some(Request::TakeRotationMark(_)) => false,
            Some(Request::TakeCompactionMark(_)) => false,
            Some(Request::ActiveMemtable(_)) => false,
            Some(Request::RotateMemtable { .. }) => false,
            Some(Request::RunCompaction(_)) => false,
            _ => true,
        },
{
    let max = states[0].max_journaling_size();
    lemma_moves(states, stages, replies);
    lemma_flush_round(stages, replies, max, a, task, b);
    assert(moved_at(stages, replies, max, b));
    assert(stages[b] == stages[b]);
    if let Some(Request::UnlockJournal) = stages[b].asks() {
        if let WorkerStage::Ticking(TickStage::Flushing(job)) = stages[b] {
            if let FlushStage::UnlockJournal(Some(e)) = job.stage {
                let m = choose|m: int| a < m < b && #[trigger] replies[m] == Reply::Failed(e);
                assert(replies[m] is Failed);
            }
        }
    }
}

/// A worker ends with an error only if the engine gave it that error, and it ends well only if the
/// last thing it read from the stop signal is that the signal has been sent.
pub proof fn law_how_a_worker_ends<E>(
    states: Seq<WorkerState>,
    stages: Seq<WorkerStage<E>>,
    replies: Seq<Reply<E>>,
    n: int,
)
    requires
        crate::worker::life(states, stages, replies),
        0 <= n < stages.len(),
    ensures
        match stages[n] {
            WorkerStage::Ended(Ok(())) => states[n].readings().len() > 0
                && states[n].readings().last(),
            WorkerStage::Ended(Err(error)) => failed_between(replies, -1, n, error),
            WorkerStage::Poisoning(error) => failed_between(replies, -1, n, error),
            WorkerStage::Ticking(_) => true,
        },
{
    lemma_how_a_worker_ends(states, stages, replies, n);
}

proof fn lemma_how_a_worker_ends<E>(
    states: Seq<WorkerState>,
    stages: Seq<WorkerStage<E>>,
    replies: Seq<Reply<E>>,
    n: int,
)
    requires
        crate::worker::life(states, stages, replies),
        0 <= n < stages.len(),
    ensures
        match stages[n] {
            WorkerStage::Ended(Ok(())) => states[n].readings().len() > 0
                && states[n].readings().last(),
            WorkerStage::Ended(Err(error)) => failed_between(replies, -1, n, error),
            WorkerStage::Poisoning(error) => failed_between(replies, -1, n, error),
            WorkerStage::Ticking(TickStage::Flushing(job)) => match job.stage {
                FlushStage::UnlockManager(Some(e)) => failed_between(replies, -1, n, e),
                FlushStage::UnlockJournal(Some(e)) => failed_between(replies, -1, n, e),
                _ => true,
            },
            _ => true,
        },
    decreases n,
{
    if n > 0 {
        lemma_how_a_worker_ends(states, stages, replies, n - 1);
        lemma_life_wf(states, stages, replies, n - 1);
        lemma_life_step(states, stages, replies, n - 1);
        lemma_failed_earlier(replies, -1, n - 1, n);
        if let Reply::Failed(e) = replies[n - 1] {
            assert(failed_between(replies, -1, n, e));
        }
    }
}

impl<E> TickAnswers<E> {
    /// What the engine answers to a request that is the `i`-th of the round, counted from zero.
    pub open spec fn answer(self, request: Request, i: int) -> Reply<E> {
        match request {
            Request::DequeueFlush => Reply::Dequeued(self.dequeued),
            Request::LockJournal => Reply::done_or_failed(
                if self.dequeued is Some {
                    self.flush.journal
                } else {
                    self.pending.journal
                },
            ),
            Request::JournalPosition => match self.flush.position {
                Ok(position) => Reply::Position(position),
                Err(e) => Reply::Failed(e),
            },
            Request::RotateJournal => Reply::done_or_failed(self.flush.rotation),
            Request::JournalDiskSpace => Reply::DiskSpace(self.flush.disk_space),
            Request::ListStragglers => Reply::Keyspaces(self.flush.stragglers),
            Request::RunFlush(_) => Reply::done_or_failed(self.flush.flush),
            Request::MaintainJournals => Reply::done_or_failed(self.flush.maintenance),
            Request::ListKeyspaces => Reply::Keyspaces(self.pending.keyspaces),
            Request::TakeRotationMark(_) => Reply::Pending(
                self.pending.rotation_marks[(i - 2) / 2],
            ),
            Request::TakeCompactionMark(_) => Reply::Pending(
                self.pending.compaction_marks[(i - 2) / 2],
            ),
            Request::ActiveMemtable(_) => Reply::Memtable(self.pending.memtable),
            Request::RotateMemtable { .. } => Reply::done_or_failed(self.pending.rotation),
            Request::RunCompaction(_) => Reply::done_or_failed(self.pending.compaction),
            _ => Reply::Done,
        }
    }

    /// The requests of a round, in their order, where `k` is the first marked keyspace.
    pub open spec fn round_requests(self, k: int, max_journaling_size: u64) -> Seq<Request> {
        seq![Request::DequeueFlush] + match self.dequeued {
            Some(task) => self.flush.requests(task, max_journaling_size),
            None => seq![Request::ListKeyspaces] + self.pending.vain_requests(0, k)
                + self.pending.work_requests(k),
        }
    }

    /// How a worker goes on when its round is over, where `k` is the first marked keyspace.
    pub open spec fn round_ends(
        self,
        k: int,
        before: WorkerState,
        next: WorkerStage<E>,
        after: WorkerState,
    ) -> bool {
        match (self.dequeued, self.flush.outcome(), self.pending.outcome(k)) {
            (Some(_), Ok(()), _) => {
                &&& after.signals() == before.signals()
                &&& crate::protocol::next_round(before.readings(), next, after)
            },
            (Some(_), Err(e), _) => {
                &&& crate::protocol::quiet(before, after)
                &&& next == WorkerStage::Poisoning(e)
            },
            (None, _, Ok(true)) => {
                &&& crate::protocol::one_wake(before.signals(), after.signals())
                &&& crate::protocol::next_round(before.readings(), next, after)
            },
            (None, _, Ok(false)) => crate::protocol::idle_round(before, next, after),
            (None, _, Err(e)) => {
                &&& crate::protocol::quiet(before, after)
                &&& next == WorkerStage::Poisoning(e)
            },
        }
    }
}

/// Whether the replies from `a` on are what the engine answers to the first `n` requests of the
/// round that begins there.
pub open spec fn answered_as<E>(
    answers: TickAnswers<E>,
    stages: Seq<WorkerStage<E>>,
    replies: Seq<Reply<E>>,
    a: int,
    n: int,
) -> bool {
    forall|m: int|
        a <= m < a + n ==> ((#[trigger] stages[m]).asks() matches Some(request) ==> replies[m]
            == answers.answer(request, m - a))
}

/// Where a worker is in the flush of its round, by the requests that are still to come.
proof fn lemma_flush_of_a_life<E>(
    answers: TickAnswers<E>,
    stages: Seq<WorkerStage<E>>,
    replies: Seq<Reply<E>>,
    max: u64,
    a: int,
    task: FlushTask,
    n: int,
)
    requires
        moves(stages, replies, max),
        0 <= a,
        stages[a] == WorkerStage::<E>::Ticking(TickStage::DequeueFlush),
        answers.dequeued == Some(task),
        1 <= n <= answers.flush.requests(task, max).len(),
        a + n < stages.len(),
        answered_as(answers, stages, replies, a, n),
    ensures
        ({
            &&& stages[a + n] matches WorkerStage::Ticking(TickStage::Flushing(job))
            &&& !(job.stage is Finished)
            &&& answers.flush.run(job) == (
                answers.flush.requests(task, max).skip(n - 1),
                answers.flush.outcome(),
            )
        }),
    decreases n,
{
    let all = answers.flush.requests(task, max);
    assert(moved_at(stages, replies, max, a + n - 1));
    assert(stages[a + n - 1] == stages[a + n - 1]);
    if n == 1 {
        crate::flush::law_flush_run(answers.flush, task, max);
        assert(all.skip(0) == all);
        assert(replies[a] == Reply::<E>::Dequeued(Some(task)));
    } else {
        lemma_flush_of_a_life(answers, stages, replies, max, a, task, n - 1);
        let job = stages[a + n - 1]->Ticking_0->Flushing_0;
        let next = job.after(answers.flush.reply(job));
        assert(replies[a + n - 1] == answers.flush.reply(job));
        assert(answers.flush.run(job).0 == seq![job.asks()->0] + answers.flush.run(next).0);
        assert(all.skip(n - 2).skip(1) == all.skip(n - 1));
        assert(answers.flush.run(next).0 == answers.flush.run(job).0.skip(1));
        assert(answers.flush.run(next).0.len() > 0);
    }
}

/// Where a worker is in the search of its round, by the requests that are still to come.
proof fn lemma_search_of_a_life<E>(
    answers: TickAnswers<E>,
    stages: Seq<WorkerStage<E>>,
    replies: Seq<Reply<E>>,
    max: u64,
    a: int,
    k: int,
    n: int,
)
    requires
        moves(stages, replies, max),
        0 <= a,
        stages[a] == WorkerStage::<E>::Ticking(TickStage::DequeueFlush),
        answers.dequeued is None,
        answers.pending.first_marked(k),
        1 <= n < answers.round_requests(k, max).len(),
        a + n < stages.len(),
        answered_as(answers, stages, replies, a, n),
    ensures
        ({
            &&& stages[a + n] matches WorkerStage::Ticking(TickStage::Searching(search))
            &&& !(search is Finished)
            &&& search is ListKeyspaces ==> n == 1
            &&& search matches PendingStage::TakeRotationMark { keyspaces, index } ==> n == 2 + 2
                * index
            &&& search matches PendingStage::TakeCompactionMark { keyspaces, index } ==> n == 3 + 2
                * index
            &&& answers.pending.run(search) == (
                answers.round_requests(k, max).skip(n),
                answers.pending.outcome(k),
            )
        }),
    decreases n,
{
    let all = answers.round_requests(k, max);
    assert(moved_at(stages, replies, max, a + n - 1));
    assert(stages[a + n - 1] == stages[a + n - 1]);
    if n == 1 {
        crate::pending::law_pending_run(answers.pending, k);
        assert(all.skip(1) == seq![Request::ListKeyspaces] + answers.pending.vain_requests(0, k)
            + answers.pending.work_requests(k));
        assert(replies[a] == Reply::<E>::Dequeued(None));
    } else {
        lemma_search_of_a_life(answers, stages, replies, max, a, k, n - 1);
        let search = stages[a + n - 1]->Ticking_0->Searching_0;
        let next = search.after(answers.pending.reply(search));
        assert(replies[a + n - 1] == answers.pending.reply(search));
        assert(answers.pending.run(search).0 == seq![search.asks()->0]
            + answers.pending.run(next).0);
        assert(all.skip(n - 1).skip(1) == all.skip(n));
        assert(answers.pending.run(next).0 == answers.pending.run(search).0.skip(1));
        assert(answers.pending.run(next).0.len() > 0);
    }
}

/// What a worker does in a round of its life, from the look at the flush queue on, whatever the
/// engine answers: its requests are exactly those of `round_requests`, in their order. After `n`
/// of them got their replies, the worker makes the next; after all of them, the round is over, and
/// the worker goes on as `round_ends` has it.
pub proof fn law_round_of_a_life<E>(
    answers: TickAnswers<E>,
    states: Seq<WorkerState>,
    stages: Seq<WorkerStage<E>>,
    replies: Seq<Reply<E>>,
    a: int,
    k: int,
    n: int,
)
    requires
        crate::worker::life(states, stages, replies),
        0 <= a,
        stages[a].asks() == Some(Request::DequeueFlush),
        answers.pending.first_marked(k),
        0 <= n <= answers.round_requests(k, states[0].max_journaling_size()).len(),
        a + n <= replies.len(),
        answered_as(answers, stages, replies, a, n),
    ensures
        ({
            let requests = answers.round_requests(k, states[0].max_journaling_size());
            if n < requests.len() {
                stages[a + n].asks() == Some(requests[n])
            } else {
                answers.round_ends(k, states[a + n - 1], stages[a + n], states[a + n])
            }
        }),
{
    let max = states[0].max_journaling_size();
    let requests = answers.round_requests(k, max);
    lemma_moves(states, stages, replies);
    lemma_life_wf(states, stages, replies, a);
    assert(stages[a] == WorkerStage::<E>::Ticking(TickStage::DequeueFlush));
    if 0 < n < requests.len() {
        lemma_mid_round(answers, stages, replies, max, a, k, n);
    } else if n == requests.len() {
        let last = a + n - 1;
        assert(answered_as(answers, stages, replies, a, n - 1));
        lemma_mid_round(answers, stages, replies, max, a, k, n - 1);
        assert(stages[last] == stages[last]);
        lemma_life_step(states, stages, replies, last);
        lemma_life_wf(states, stages, replies, last);
        lemma_end_of_round(
            answers,
            k,
            n - 1,
            requests,
            stages[last],
            states[last],
            replies[last],
            stages[a + n],
            states[a + n],
        );
    }
}

/// The work under way in a round, by the requests that are still to come.
spec fn under_way<E>(
    answers: TickAnswers<E>,
    k: int,
    n: int,
    requests: Seq<Request>,
    stage: WorkerStage<E>,
) -> bool {
    &&& stage.asks() == Some(requests[n])
    &&& match stage {
        WorkerStage::Ticking(TickStage::Flushing(job)) => {
            &&& answers.dequeued is Some
            &&& !(job.stage is Finished)
            &&& answers.flush.run(job) == (requests.skip(n), answers.flush.outcome())
        },
        WorkerStage::Ticking(TickStage::Searching(search)) => {
            &&& answers.dequeued is None
            &&& !(search is Finished)
            &&& search is ListKeyspaces ==> n == 1
            &&& search matches PendingStage::TakeRotationMark { keyspaces, index } ==> n == 2 + 2
                * index
            &&& search matches PendingStage::TakeCompactionMark { keyspaces, index } ==> n == 3 + 2
                * index
            &&& answers.pending.run(search) == (requests.skip(n), answers.pending.outcome(k))
        },
        _ => false,
    }
}

proof fn lemma_mid_round<E>(
    answers: TickAnswers<E>,
    stages: Seq<WorkerStage<E>>,
    replies: Seq<Reply<E>>,
    max: u64,
    a: int,
    k: int,
    n: int,
)
    requires
        moves(stages, replies, max),
        0 <= a,
        stages[a] == WorkerStage::<E>::Ticking(TickStage::DequeueFlush),
        answers.pending.first_marked(k),
        1 <= n < answers.round_requests(k, max).len(),
        a + n < stages.len(),
        answered_as(answers, stages, replies, a, n),
    ensures
        under_way(answers, k, n, answers.round_requests(k, max), stages[a + n]),
{
    let requests = answers.round_requests(k, max);
    match answers.dequeued {
        Some(task) => {
            lemma_flush_of_a_life(answers, stages, replies, max, a, task, n);
            assert(requests.skip(n) == answers.flush.requests(task, max).skip(n - 1));
            let job = stages[a + n]->Ticking_0->Flushing_0;
            assert(answers.flush.run(job).0[0] == job.asks()->0);
        },
        None => {
            lemma_search_of_a_life(answers, stages, replies, max, a, k, n);
            let search = stages[a + n]->Ticking_0->Searching_0;
            assert(answers.pending.run(search).0[0] == search.asks()->0);
        },
    }
    assert(requests.skip(n)[0] == requests[n]);
}

/// The last reply of a round.
proof fn lemma_end_of_round<E>(
    answers: TickAnswers<E>,
    k: int,
    n: int,
    requests: Seq<Request>,
    stage: WorkerStage<E>,
    before: WorkerState,
    reply: Reply<E>,
    next: WorkerStage<E>,
    after: WorkerState,
)
    requires
        0 <= n == requests.len() - 1,
        under_way(answers, k, n, requests, stage),
        stage.wf(),
        reply == answers.answer(requests[n], n),
        stage.resumes(before, reply, next, after),
    ensures
        answers.round_ends(k, before, next, after),
{
    let request = requests[n];
    assert(requests.skip(n).len() == 1);
    match stage {
        WorkerStage::Ticking(TickStage::Flushing(job)) => {
            assert(reply == answers.flush.reply(job));
            let end = job.after(reply);
            assert(answers.flush.run(job).0 == seq![job.asks()->0] + answers.flush.run(end).0);
            if !(end.stage is Finished) {
                assert(answers.flush.run(end).0.len() > 0);
            }
            assert(end.stage == FlushStage::Finished(answers.flush.outcome()));
        },
        WorkerStage::Ticking(TickStage::Searching(search)) => {
            assert(reply == answers.pending.reply(search));
            let end = search.after(reply);
            assert(answers.pending.run(search).0 == seq![search.asks()->0] + answers.pending.run(
                end,
            ).0);
            if !(end is Finished) {
                assert(answers.pending.run(end).0.len() > 0);
            }
            assert(end == PendingStage::Finished(answers.pending.outcome(k)));
        },
        _ => {},
    }
    crate::protocol::law_what_follows(stage, before, request, reply, next, after);
    lemma_moved(stage, before, reply, next, after);
}

} // verus!
