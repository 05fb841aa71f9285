//! What a worker asks for next, and what it does besides, told by requests and replies alone.

use crate::engine::{Reply, Request};
use crate::flush::FlushJob;
use crate::pending::PendingStage;
use crate::tick::{TickStage, WorkerState};
use crate::wake::{Offer, WakeOp};
use crate::worker::WorkerStage;
use vstd::prelude::*;

verus! {

/// Whether the worker neither did anything over its line nor read the stop signal.
pub open spec fn quiet(before: WorkerState, after: WorkerState) -> bool {
    &&& after.signals() == before.signals()
    &&& after.readings() == before.readings()
}

/// Whether exactly one wake was put on the line, and nothing else was done over it.
pub open spec fn one_wake(before: Seq<WakeOp>, after: Seq<WakeOp>) -> bool {
    ||| after == before.push(WakeOp::Offered(Offer::Taken))
    ||| after == before.push(WakeOp::Offered(Offer::Full))
}

/// Whether the worker put exactly one wake on its line, and neither waited nor read the stop
/// signal.
pub open spec fn woke_one(before: WorkerState, after: WorkerState) -> bool {
    &&& one_wake(before.signals(), after.signals())
    &&& after.readings() == before.readings()
}

/// What follows a reply in a round, told by the request, the reply and what the worker did: the
/// journal is rotated above 64 MB, under both locks and with the map just built; a rotation or a
/// compaction is for the keyspace whose mark was taken, and a rotation for the memtable that is
/// active; another worker is woken when a task was taken, and a worker when a marked keyspace was
/// worked on; a worker that finds nothing to do reads the stop signal, and waits if and only if
/// that is not sent; nothing else is done over the line, and the stop signal is read at no other
/// time.
pub proof fn law_what_follows_in_a_round<E>(
    stage: TickStage<E>,
    before: WorkerState,
    request: Request,
    reply: Reply<E>,
    next: TickStage<E>,
    after: WorkerState,
)
    requires
        stage.wf(),
        stage.asks() == Some(request),
        request.answered_by(reply),
        stage.resumes(before, reply, next, after),
    ensures
        after.line().sender() == before.line().sender(),
        after.line().receiver() == before.line().receiver(),
        after.stop_signal() == before.stop_signal(),
        after.max_journaling_size() == before.max_journaling_size(),
        match (request, reply) {
            (Request::DequeueFlush, Reply::Dequeued(Some(_))) => {
                &&& next.asks() == Some(Request::LockJournal)
                &&& woke_one(before, after)
            },
            (Request::DequeueFlush, Reply::Dequeued(None)) => {
                &&& next.asks() == Some(Request::ListKeyspaces)
                &&& quiet(before, after)
            },
            (Request::LockJournal, Reply::Done) => {
                &&& quiet(before, after)
                &&& match stage {
                    TickStage::Flushing(_) => next.asks() == Some(Request::JournalPosition),
                    _ => next.asks() matches Some(Request::ActiveMemtable(_)),
                }
            },
            (Request::JournalPosition, Reply::Position(position)) => {
                &&& quiet(before, after)
                &&& next.asks() == Some(
                    if position > 64_000_000 {
                        Request::LockJournalManager
                    } else {
                        Request::UnlockJournal
                    },
                )
            },
            (Request::JournalPosition, Reply::Failed(_)) => {
                &&& quiet(before, after)
                &&& next.asks() == Some(Request::UnlockJournal)
            },
            (Request::LockJournalManager, _) => {
                &&& quiet(before, after)
                &&& next.asks() == Some(Request::BuildSeqnoMap)
            },
            (Request::BuildSeqnoMap, _) => {
                &&& quiet(before, after)
                &&& next.asks() == Some(Request::RotateJournal)
            },
            (Request::RotateJournal, Reply::Done) => {
                &&& quiet(before, after)
                &&& next.asks() == Some(Request::JournalDiskSpace)
            },
            (Request::RotateJournal, Reply::Failed(_)) => {
                &&& quiet(before, after)
                &&& next.asks() == Some(Request::UnlockJournalManager)
            },
            (Request::JournalDiskSpace, Reply::DiskSpace(used)) => {
                &&& quiet(before, after)
                &&& stage matches TickStage::Flushing(job)
                &&& next.asks() == Some(
                    if used >= job.max_journaling_size {
                        Request::ListStragglers
                    } else {
                        Request::UnlockJournalManager
                    },
                )
            },
            (Request::ListStragglers, Reply::Keyspaces(stragglers)) => {
                &&& quiet(before, after)
                &&& next.asks() == Some(
                    if stragglers@.len() > 0 {
                        Request::RequestRotation(stragglers@[0])
                    } else {
                        Request::UnlockJournalManager
                    },
                )
            },
            (Request::RequestRotation(_), _) => {
                &&& quiet(before, after)
                &&& (next.asks() matches Some(Request::RequestRotation(_))) || next.asks() == Some(
                    Request::UnlockJournalManager,
                )
            },
            (Request::UnlockJournalManager, _) => {
                &&& quiet(before, after)
                &&& next.asks() == Some(Request::UnlockJournal)
            },
            (Request::UnlockJournal, _) => {
                &&& quiet(before, after)
                &&& (next.asks() matches Some(Request::RunFlush(_))) || (
                next matches TickStage::Finished(Err(_)))
            },
            (Request::RunFlush(task), Reply::Done) => {
                &&& quiet(before, after)
                &&& next.asks() == Some(Request::RequestCompaction(task.keyspace))
            },
            (Request::RequestCompaction(_), _) => {
                &&& quiet(before, after)
                &&& next.asks() == Some(Request::MaintainJournals)
            },
            (Request::MaintainJournals, Reply::Done) => {
                &&& quiet(before, after)
                &&& next == TickStage::<E>::Finished(Ok(false))
            },
            (Request::ListKeyspaces, Reply::Keyspaces(keyspaces)) => if keyspaces@.len() > 0 {
                &&& quiet(before, after)
                &&& next.asks() == Some(Request::TakeRotationMark(keyspaces@[0]))
            } else {
                idle_end(before, next, after)
            },
            (Request::TakeRotationMark(keyspace), Reply::Pending(marked)) => {
                &&& quiet(before, after)
                &&& next.asks() == Some(
                    if marked {
                        Request::LockJournal
                    } else {
                        Request::TakeCompactionMark(keyspace)
                    },
                )
            },
            (Request::ActiveMemtable(keyspace), Reply::Memtable(memtable)) => {
                &&& quiet(before, after)
                &&& next.asks() == Some(Request::RotateMemtable { keyspace, memtable })
            },
            (Request::TakeCompactionMark(keyspace), Reply::Pending(true)) => {
                &&& quiet(before, after)
                &&& next.asks() == Some(Request::RunCompaction(keyspace))
            },
            (Request::TakeCompactionMark(_), _) => {
                ||| {
                    &&& quiet(before, after)
                    &&& next.asks() matches Some(Request::TakeRotationMark(_))
                }
                ||| idle_end(before, next, after)
            },
            (Request::RotateMemtable { .. }, Reply::Done) => {
                &&& woke_one(before, after)
                &&& next == TickStage::<E>::Finished(Ok(false))
            },
            (Request::RunCompaction(_), Reply::Done) => {
                &&& woke_one(before, after)
                &&& next == TickStage::<E>::Finished(Ok(false))
            },
            (_, Reply::Failed(error)) => {
                &&& quiet(before, after)
                &&& next == TickStage::<E>::Finished(Err(error))
            },
            _ => false,
        },
{
    match stage.decides(reply, before.max_journaling_size()) {
        crate::tick::TickMove::Go(_) => {},
        crate::tick::TickMove::Poke(_) => {
            let offer = choose|offer: Offer| #[trigger] after.poked(&before, offer);
            assert(after.signals() == before.signals().push(WakeOp::Offered(offer)));
        },
        crate::tick::TickMove::Idle => {},
    }
}

/// How a round ends in which nothing was found to do: the worker reads the stop signal once. If it
/// is sent, the worker has to close, and does not wait. If not, the worker waits for a wake, and
/// does not have to close.
pub open spec fn idle_end<E>(before: WorkerState, next: TickStage<E>, after: WorkerState) -> bool {
    ||| {
        &&& after.readings() == before.readings().push(true)
        &&& after.signals() == before.signals()
        &&& next == TickStage::<E>::Finished(Ok(true))
    }
    ||| {
        &&& after.readings() == before.readings().push(false)
        &&& after.signals() == before.signals().push(WakeOp::Awaited { closed: false })
        &&& next == TickStage::<E>::Finished(Ok(false))
    }
}

/// Whether the worker, after its round, read the stop signal once more, having read `readings`
/// before, and begins the next round if and only if that is not sent; else it has ended well.
pub open spec fn next_round<E>(
    readings: Seq<bool>,
    next: WorkerStage<E>,
    after: WorkerState,
) -> bool {
    ||| {
        &&& after.readings() == readings.push(true)
        &&& next == WorkerStage::<E>::Ended(Ok(()))
    }
    ||| {
        &&& after.readings() == readings.push(false)
        &&& next.asks() == Some(Request::DequeueFlush)
    }
}

/// How a worker goes on that found nothing to do: it reads the stop signal. If it is sent, the
/// worker ends without waiting. If not, it waits for a wake, and then goes on to the next round.
pub open spec fn idle_round<E>(
    before: WorkerState,
    next: WorkerStage<E>,
    after: WorkerState,
) -> bool {
    ||| {
        &&& after.readings() == before.readings().push(true)
        &&& after.signals() == before.signals()
        &&& next == WorkerStage::<E>::Ended(Ok(()))
    }
    ||| {
        &&& after.signals() == before.signals().push(WakeOp::Awaited { closed: false })
        &&& next_round(before.readings().push(false), next, after)
    }
}

/// What follows a reply in the life of a worker, told by the request, the reply and what the
/// worker did. Within a round it is as [`law_what_follows_in_a_round`] has it. A round that is
/// over is followed by a reading of the stop signal, and then by the next round or by the end; a
/// failure is followed by poisoning the database, and that by the end with the same error.
pub proof fn law_what_follows<E>(
    stage: WorkerStage<E>,
    before: WorkerState,
    request: Request,
    reply: Reply<E>,
    next: WorkerStage<E>,
    after: WorkerState,
)
    requires
        stage.wf(),
        stage.asks() == Some(request),
        request.answered_by(reply),
        stage.resumes(before, reply, next, after),
    ensures
        after.line().sender() == before.line().sender(),
        after.line().receiver() == before.line().receiver(),
        after.stop_signal() == before.stop_signal(),
        after.max_journaling_size() == before.max_journaling_size(),
        match (request, reply) {
            (Request::DequeueFlush, Reply::Dequeued(Some(_))) => {
                &&& next.asks() == Some(Request::LockJournal)
                &&& woke_one(before, after)
            },
            (Request::DequeueFlush, Reply::Dequeued(None)) => {
                &&& next.asks() == Some(Request::ListKeyspaces)
                &&& quiet(before, after)
            },
            (Request::LockJournal, Reply::Done) => {
                &&& quiet(before, after)
                &&& next.asks() == Some(Request::JournalPosition) || (
                next.asks() matches Some(Request::ActiveMemtable(_)))
            },
            (Request::JournalPosition, Reply::Position(position)) => {
                &&& quiet(before, after)
                &&& next.asks() == Some(
                    if position > 64_000_000 {
                        Request::LockJournalManager
                    } else {
                        Request::UnlockJournal
                    },
                )
            },
            (Request::JournalPosition, Reply::Failed(_)) => {
                &&& quiet(before, after)
                &&& next.asks() == Some(Request::UnlockJournal)
            },
            (Request::LockJournalManager, _) => {
                &&& quiet(before, after)
                &&& next.asks() == Some(Request::BuildSeqnoMap)
            },
            (Request::BuildSeqnoMap, _) => {
                &&& quiet(before, after)
                &&& next.asks() == Some(Request::RotateJournal)
            },
            (Request::RotateJournal, Reply::Done) => {
                &&& quiet(before, after)
                &&& next.asks() == Some(Request::JournalDiskSpace)
            },
            (Request::RotateJournal, Reply::Failed(_)) => {
                &&& quiet(before, after)
                &&& next.asks() == Some(Request::UnlockJournalManager)
            },
            (Request::JournalDiskSpace, _) => {
                &&& quiet(before, after)
                &&& next.asks() == Some(Request::ListStragglers) || next.asks() == Some(
                    Request::UnlockJournalManager,
                )
            },
            (Request::ListStragglers, Reply::Keyspaces(stragglers)) => {
                &&& quiet(before, after)
                &&& next.asks() == Some(
                    if stragglers@.len() > 0 {
                        Request::RequestRotation(stragglers@[0])
                    } else {
                        Request::UnlockJournalManager
                    },
                )
            },
            (Request::RequestRotation(_), _) => {
                &&& quiet(before, after)
                &&& (next.asks() matches Some(Request::RequestRotation(_))) || next.asks() == Some(
                    Request::UnlockJournalManager,
                )
            },
            (Request::UnlockJournalManager, _) => {
                &&& quiet(before, after)
                &&& next.asks() == Some(Request::UnlockJournal)
            },
            (Request::UnlockJournal, _) => {
                &&& quiet(before, after)
                &&& (next.asks() matches Some(Request::RunFlush(_))) || next.asks() == Some(
                    Request::Poison,
                )
            },
            (Request::RunFlush(task), Reply::Done) => {
                &&& quiet(before, after)
                &&& next.asks() == Some(Request::RequestCompaction(task.keyspace))
            },
            (Request::RequestCompaction(_), _) => {
                &&& quiet(before, after)
                &&& next.asks() == Some(Request::MaintainJournals)
            },
            (Request::MaintainJournals, Reply::Done) => {
                &&& after.signals() == before.signals()
                &&& next_round(before.readings(), next, after)
            },
            (Request::ListKeyspaces, Reply::Keyspaces(keyspaces)) => if keyspaces@.len() > 0 {
                &&& quiet(before, after)
                &&& next.asks() == Some(Request::TakeRotationMark(keyspaces@[0]))
            } else {
                idle_round(before, next, after)
            },
            (Request::TakeRotationMark(keyspace), Reply::Pending(marked)) => {
                &&& quiet(before, after)
                &&& next.asks() == Some(
                    if marked {
                        Request::LockJournal
                    } else {
                        Request::TakeCompactionMark(keyspace)
                    },
                )
            },
            (Request::ActiveMemtable(keyspace), Reply::Memtable(memtable)) => {
                &&& quiet(before, after)
                &&& next.asks() == Some(Request::RotateMemtable { keyspace, memtable })
            },
            (Request::TakeCompactionMark(keyspace), Reply::Pending(true)) => {
                &&& quiet(before, after)
                &&& next.asks() == Some(Request::RunCompaction(keyspace))
            },
            (Request::TakeCompactionMark(_), _) => {
                ||| {
                    &&& quiet(before, after)
                    &&& next.asks() matches Some(Request::TakeRotationMark(_))
                }
                ||| idle_round(before, next, after)
            },
            (Request::RotateMemtable { .. }, Reply::Done) => {
                &&& one_wake(before.signals(), after.signals())
                &&& next_round(before.readings(), next, after)
            },
            (Request::RunCompaction(_), Reply::Done) => {
                &&& one_wake(before.signals(), after.signals())
                &&& next_round(before.readings(), next, after)
            },
            (Request::Poison, _) => {
                &&& quiet(before, after)
                &&& next matches WorkerStage::Ended(Err(error))
                &&& stage == WorkerStage::Poisoning(error)
            },
            (_, Reply::Failed(error)) => {
                &&& quiet(before, after)
                &&& next == WorkerStage::Poisoning(error)
                &&& next.asks() == Some(Request::Poison)
            },
            _ => false,
        },
{
    if let WorkerStage::Ticking(tick) = stage {
        let (middle, state) = choose|middle: TickStage<E>, state: WorkerState|
            {
                &&& #[trigger] tick.resumes(before, reply, middle, state)
                &&& next.follows(middle, state, after)
            };
        law_what_follows_in_a_round(tick, before, request, reply, middle, state);
    }
}

/// How a worker begins: it reads the stop signal once. If it is sent, the worker has ended well;
/// if not, it takes a task from the flush queue. It does nothing over its line.
pub proof fn law_what_a_worker_begins_with<E>(
    stage: WorkerStage<E>,
    before: WorkerState,
    after: WorkerState,
)
    requires
        stage.begins(before, after),
    ensures
        after.line().sender() == before.line().sender(),
        after.line().receiver() == before.line().receiver(),
        after.stop_signal() == before.stop_signal(),
        after.max_journaling_size() == before.max_journaling_size(),
        after.signals() == before.signals(),
        next_round(before.readings(), stage, after),
        stage.asks() matches Some(_) ==> stage.asks() == Some(Request::DequeueFlush),
{
}

/// A reply that does not answer the request changes nothing, and the request stays open. Nothing
/// brings back a worker that has ended.
pub proof fn law_stray_reply_changes_nothing<E>(
    stage: WorkerStage<E>,
    before: WorkerState,
    reply: Reply<E>,
    next: WorkerStage<E>,
    after: WorkerState,
)
    requires
        stage.wf(),
        stage.asks() matches Some(request) ==> !request.answered_by(reply),
        stage.resumes(before, reply, next, after),
    ensures
        next == stage,
        after == before,
{
    if let WorkerStage::Ticking(tick) = stage {
        let (middle, state) = choose|middle: TickStage<E>, state: WorkerState|
            {
                &&& #[trigger] tick.resumes(before, reply, middle, state)
                &&& next.follows(middle, state, after)
            };
        assert(middle == tick && state == before);
    }
}

/// What a request comes from, in the life of a worker: the journal is rotated right after the map
/// was built, that is built right after the journal manager was locked, and that is locked right
/// after the journal was found above 64 MB; a flush comes right after the journal was unlocked, and
/// a compaction is requested right after the flush, for the keyspace of the task; a memtable is
/// rotated right after it was told as the active one of that keyspace; a keyspace is compacted
/// right after its mark was taken; the flush queue is looked at right after the stop signal was
/// read as not sent.
pub proof fn law_what_comes_before<E>(
    stage: WorkerStage<E>,
    before: WorkerState,
    request: Request,
    reply: Reply<E>,
    next: WorkerStage<E>,
    after: WorkerState,
)
    requires
        stage.wf(),
        stage.asks() == Some(request),
        request.answered_by(reply),
        stage.resumes(before, reply, next, after),
    ensures
        match next.asks() {
            Some(Request::DequeueFlush) => {
                &&& after.readings().len() > before.readings().len()
                &&& !after.readings().last()
                &&& request is MaintainJournals || request is RotateMemtable
                    || request is RunCompaction || request is ListKeyspaces
                    || request is TakeCompactionMark
                &&& !(reply is Failed)
            },
            Some(Request::LockJournal) => {
                ||| request is DequeueFlush && (reply matches Reply::Dequeued(Some(_)))
                ||| request is TakeRotationMark && reply == Reply::<E>::Pending(true)
            },
            Some(Request::JournalPosition) => request is LockJournal && reply is Done,
            Some(Request::LockJournalManager) => {
                &&& request is JournalPosition
                &&& reply matches Reply::Position(position)
                &&& position > 64_000_000
            },
            Some(Request::BuildSeqnoMap) => request is LockJournalManager && reply is Done,
            Some(Request::RotateJournal) => request is BuildSeqnoMap && reply is Done,
            Some(Request::JournalDiskSpace) => request is RotateJournal && reply is Done,
            Some(Request::ListStragglers) => request is JournalDiskSpace,
            Some(Request::RequestRotation(_)) => request is ListStragglers
                || request is RequestRotation,
            Some(Request::UnlockJournalManager) => {
                ||| request is RotateJournal && reply is Failed
                ||| request is JournalDiskSpace
                ||| request is ListStragglers
                ||| request is RequestRotation
            },
            Some(Request::UnlockJournal) => request is JournalPosition
                || request is UnlockJournalManager,
            Some(Request::RunFlush(_)) => request is UnlockJournal && reply is Done,
            Some(Request::RequestCompaction(keyspace)) => {
                &&& request matches Request::RunFlush(task)
                &&& task.keyspace == keyspace
                &&& reply is Done
            },
            Some(Request::MaintainJournals) => request is RequestCompaction,
            Some(Request::ListKeyspaces) => request is DequeueFlush && reply == Reply::<
                E,
            >::Dequeued(None),
            Some(Request::TakeRotationMark(_)) => {
                ||| request is ListKeyspaces
                ||| request is TakeCompactionMark && reply == Reply::<E>::Pending(false)
            },
            Some(Request::TakeCompactionMark(keyspace)) => request == Request::TakeRotationMark(
                keyspace,
            ) && reply == Reply::<E>::Pending(false),
            Some(Request::ActiveMemtable(_)) => request is LockJournal && reply is Done,
            Some(Request::RotateMemtable { keyspace, memtable }) => request
                == Request::ActiveMemtable(keyspace) && reply == Reply::<E>::Memtable(memtable),
            Some(Request::RunCompaction(keyspace)) => request == Request::TakeCompactionMark(
                keyspace,
            ) && reply == Reply::<E>::Pending(true),
            Some(Request::Poison) => reply is Failed || request is UnlockJournal,
            None => {
                ||| request is Poison
                ||| after.readings().len() > before.readings().len() && after.readings().last()
            },
        },
{
    law_what_follows(stage, before, request, reply, next, after);
}

/// A reply that does not answer the request changes nothing in a round, and the request stays
/// open. A round that is over stays over.
pub proof fn law_stray_reply_changes_no_round<E>(
    stage: TickStage<E>,
    before: WorkerState,
    reply: Reply<E>,
    next: TickStage<E>,
    after: WorkerState,
)
    requires
        stage.wf(),
        stage.asks() matches Some(request) ==> !request.answered_by(reply),
        stage.resumes(before, reply, next, after),
    ensures
        next == stage,
        after == before,
{
}

/// A reply that does not answer the request changes nothing in the work on a flush task, and the
/// request stays open. Work that is over stays over.
pub proof fn law_stray_reply_changes_no_flush<E>(job: FlushJob<E>, reply: Reply<E>)
    requires
        job.asks() matches Some(request) ==> !request.answered_by(reply),
    ensures
        job.after(reply) == job,
{
}

/// A reply that does not answer the request changes nothing in a search, and the request stays
/// open. A search that is over stays over.
pub proof fn law_stray_reply_changes_no_search<E>(search: PendingStage<E>, reply: Reply<E>)
    requires
        search.asks() matches Some(request) ==> !request.answered_by(reply),
    ensures
        search.after(reply) == search,
{
}

/// A worker whose search ends without work reads the stop signal, whatever reply ended the search,
/// and then waits if and only if the signal is not sent.
pub proof fn law_idle_worker_waits_unless_stopped<E>(
    search: PendingStage<E>,
    before: WorkerState,
    reply: Reply<E>,
    next: TickStage<E>,
    after: WorkerState,
)
    requires
        search.after(reply) == PendingStage::<E>::Finished(Ok(false)),
        TickStage::Searching(search).resumes(before, reply, next, after),
    ensures
        after.readings().len() == before.readings().len() + 1,
        after.readings().drop_last() == before.readings(),
        after.readings().last() ==> {
            &&& after.signals() == before.signals()
            &&& next == TickStage::<E>::Finished(Ok(true))
        },
        !after.readings().last() ==> {
            &&& after.signals() == before.signals().push(WakeOp::Awaited { closed: false })
            &&& next == TickStage::<E>::Finished(Ok(false))
        },
{
}

/// A worker never waits once it has read that the stop signal is sent: in a step in which it
/// waits, it waits once, and the first thing that it reads from the stop signal in that step is
/// that it is not sent. Where the first thing that it reads is that the signal is sent, it does
/// not wait, and has ended well.
pub proof fn law_stopped_worker_does_not_wait<E>(
    stage: WorkerStage<E>,
    before: WorkerState,
    reply: Reply<E>,
    next: WorkerStage<E>,
    after: WorkerState,
)
    requires
        stage.wf(),
        stage.resumes(before, reply, next, after),
    ensures
        before.signals().is_prefix_of(after.signals()),
        before.readings().is_prefix_of(after.readings()),
        after.signals().len() <= before.signals().len() + 1,
        after.signals().len() > before.signals().len() && after.signals().last() is Awaited ==> {
            &&& after.readings().len() > before.readings().len()
            &&& !after.readings()[before.readings().len() as int]
        },
        after.readings().len() > before.readings().len()
            && after.readings()[before.readings().len() as int] ==> {
            &&& after.signals().len() > before.signals().len() ==> after.signals().last() is Offered
            &&& next == WorkerStage::<E>::Ended(Ok(()))
        },
{
    match stage.asks() {
        Some(request) => {
            if request.answered_by(reply) {
                law_what_follows(stage, before, request, reply, next, after);
            } else {
                law_stray_reply_changes_nothing(stage, before, reply, next, after);
            }
        },
        None => {
            law_stray_reply_changes_nothing(stage, before, reply, next, after);
        },
    }
}

} // verus!
