//! Working off one task of the flush queue.

use crate::engine::{FlushTask, Locks, Reply, Request};
use vstd::prelude::*;

verus! {

/// The size in bytes above which the journal is rotated before a flush.
pub const MAX_JOURNAL_POSITION: u64 = 64_000_000;

/// How far the work on a flush task has come.
pub enum FlushStage<E> {
    /// The journal is being locked.
    LockJournal,
    /// The position in the journal is being read.
    ReadPosition,
    /// The journal manager is being locked.
    LockManager,
    /// The map of sequence numbers is being built.
    BuildSeqnoMap,
    /// The journal is being rotated.
    RotateJournal,
    /// The disk space of the journals is being measured.
    MeasureJournals,
    /// The keyspaces that keep the oldest journal alive are being listed.
    ListStragglers,
    /// The straggler with this index is being marked for rotation.
    MarkStraggler {
        /// The stragglers.
        stragglers: Vec<u64>,
        /// The index.
        index: usize,
    },
    /// The journal manager is being unlocked, after a failure or without one.
    UnlockManager(Option<E>),
    /// The journal is being unlocked, after a failure or without one.
    UnlockJournal(Option<E>),
    /// The task is being flushed.
    Flush,
    /// The keyspace of the task is being marked for compaction.
    MarkForCompaction,
    /// The journals are being maintained.
    Maintain,
    /// The work is over.
    Finished(Result<(), E>),
}

/// The work on one flush task.
pub struct FlushJob<E> {
    /// The task.
    pub task: FlushTask,
    /// The disk space that the journals may use, in bytes.
    pub max_journaling_size: u64,
    /// How far the work has come.
    pub stage: FlushStage<E>,
}

impl<E> FlushStage<E> {
    /// What the reply to the outstanding request leads to. A reply that does not answer that
    /// request leaves it outstanding.
    pub open spec fn after(self, reply: Reply<E>, max_journaling_size: u64) -> FlushStage<E> {
        match (self, reply) {
            (FlushStage::LockJournal, Reply::Done) => FlushStage::ReadPosition,
            (FlushStage::LockJournal, Reply::Failed(e)) => FlushStage::Finished(Err(e)),
            (FlushStage::ReadPosition, Reply::Position(position)) => if position
                > MAX_JOURNAL_POSITION {
                FlushStage::LockManager
            } else {
                FlushStage::UnlockJournal(None)
            },
            (FlushStage::ReadPosition, Reply::Failed(e)) => FlushStage::UnlockJournal(Some(e)),
            (FlushStage::LockManager, Reply::Done) => FlushStage::BuildSeqnoMap,
            (FlushStage::BuildSeqnoMap, Reply::Done) => FlushStage::RotateJournal,
            (FlushStage::RotateJournal, Reply::Done) => FlushStage::MeasureJournals,
            (FlushStage::RotateJournal, Reply::Failed(e)) => FlushStage::UnlockManager(Some(e)),
            (FlushStage::MeasureJournals, Reply::DiskSpace(used)) => if used
                >= max_journaling_size {
                FlushStage::ListStragglers
            } else {
                FlushStage::UnlockManager(None)
            },
            (FlushStage::ListStragglers, Reply::Keyspaces(stragglers)) => if stragglers.len()
                > 0 {
                FlushStage::MarkStraggler { stragglers, index: 0 }
            } else {
                FlushStage::UnlockManager(None)
            },
            (FlushStage::MarkStraggler { stragglers, index }, Reply::Done) => if index + 1
                < stragglers.len() {
                FlushStage::MarkStraggler { stragglers, index: (index + 1) as usize }
            } else {
                FlushStage::UnlockManager(None)
            },
            (FlushStage::UnlockManager(failure), Reply::Done) => FlushStage::UnlockJournal(failure),
            (FlushStage::UnlockJournal(None), Reply::Done) => FlushStage::Flush,
            (FlushStage::UnlockJournal(Some(e)), Reply::Done) => FlushStage::Finished(Err(e)),
            (FlushStage::Flush, Reply::Done) => FlushStage::MarkForCompaction,
            (FlushStage::Flush, Reply::Failed(e)) => FlushStage::Finished(Err(e)),
            (FlushStage::MarkForCompaction, Reply::Done) => FlushStage::Maintain,
            (FlushStage::Maintain, Reply::Done) => FlushStage::Finished(Ok(())),
            (FlushStage::Maintain, Reply::Failed(e)) => FlushStage::Finished(Err(e)),
            (stage, _) => stage,
        }
    }
}

impl<E> FlushJob<E> {
    /// A straggler index is one of the list's.
    pub open spec fn wf(&self) -> bool {
        self.stage matches FlushStage::MarkStraggler { stragglers, index } ==> index
            < stragglers.len()
    }

    /// The work on `task`, at its beginning.
    pub open spec fn begun(task: FlushTask, max_journaling_size: u64) -> FlushJob<E> {
        FlushJob { task, max_journaling_size, stage: FlushStage::LockJournal }
    }

    /// The work after the outstanding request got this reply.
    pub open spec fn after(self, reply: Reply<E>) -> FlushJob<E> {
        FlushJob { stage: self.stage.after(reply, self.max_journaling_size), ..self }
    }

    /// The request that is outstanding, or `None` when the work is over.
    pub open spec fn asks(&self) -> Option<Request> {
        match self.stage {
            FlushStage::LockJournal => Some(Request::LockJournal),
            FlushStage::ReadPosition => Some(Request::JournalPosition),
            FlushStage::LockManager => Some(Request::LockJournalManager),
            FlushStage::BuildSeqnoMap => Some(Request::BuildSeqnoMap),
            FlushStage::RotateJournal => Some(Request::RotateJournal),
            FlushStage::MeasureJournals => Some(Request::JournalDiskSpace),
            FlushStage::ListStragglers => Some(Request::ListStragglers),
            FlushStage::MarkStraggler { stragglers, index } => Some(
                Request::RequestRotation(stragglers@[index as int]),
            ),
            FlushStage::UnlockManager(_) => Some(Request::UnlockJournalManager),
            FlushStage::UnlockJournal(_) => Some(Request::UnlockJournal),
            FlushStage::Flush => Some(Request::RunFlush(self.task)),
            FlushStage::MarkForCompaction => Some(Request::RequestCompaction(self.task.keyspace)),
            FlushStage::Maintain => Some(Request::MaintainJournals),
            FlushStage::Finished(_) => None,
        }
    }

    /// Begins the work on `task`.
    pub fn begin(task: FlushTask, max_journaling_size: u64) -> (job: FlushJob<E>)
        ensures
            job == FlushJob::<E>::begun(task, max_journaling_size),
            job.task == task,
            job.max_journaling_size == max_journaling_size,
            job.stage is LockJournal,
            job.wf(),
    {
        FlushJob { task, max_journaling_size, stage: FlushStage::LockJournal }
    }

    /// The request that is outstanding, or `None` when the work is over.
    pub fn request(&self) -> (request: Option<Request>)
        requires
            self.wf(),
        ensures
            request == self.asks(),
    {
        match &self.stage {
            FlushStage::LockJournal => Some(Request::LockJournal),
            FlushStage::ReadPosition => Some(Request::JournalPosition),
            FlushStage::LockManager => Some(Request::LockJournalManager),
            FlushStage::BuildSeqnoMap => Some(Request::BuildSeqnoMap),
            FlushStage::RotateJournal => Some(Request::RotateJournal),
            FlushStage::MeasureJournals => Some(Request::JournalDiskSpace),
            FlushStage::ListStragglers => Some(Request::ListStragglers),
            FlushStage::MarkStraggler { stragglers, index } => Some(
                Request::RequestRotation(stragglers[*index]),
            ),
            FlushStage::UnlockManager(_) => Some(Request::UnlockJournalManager),
            FlushStage::UnlockJournal(_) => Some(Request::UnlockJournal),
            FlushStage::Flush => Some(Request::RunFlush(self.task)),
            FlushStage::MarkForCompaction => Some(Request::RequestCompaction(self.task.keyspace)),
            FlushStage::Maintain => Some(Request::MaintainJournals),
            FlushStage::Finished(_) => None,
        }
    }
}

/// Goes on with the work on a flush task, now that the outstanding request got its reply.
///
/// The journal is rotated first if it has grown too large; if the journals then use too much
/// disk space, the keyspaces that keep the oldest of them alive are marked for rotation. All
/// of this happens under the journal's lock, which is given back before the flush itself.
/// After the flush the keyspace is marked for compaction, and the journals are maintained.
/// [`law_flush_run`] states what this comes to from beginning to end.
pub fn process_one_flush<E>(job: FlushJob<E>, reply: Reply<E>) -> (next: FlushJob<E>)
    requires
        job.wf(),
    ensures
        next == job.after(reply),
        next.wf(),
{
    let FlushJob { task, max_journaling_size, stage } = job;
    let stage = match (stage, reply) {
        (FlushStage::LockJournal, Reply::Done) => FlushStage::ReadPosition,
        (FlushStage::LockJournal, Reply::Failed(e)) => FlushStage::Finished(Err(e)),
        (FlushStage::ReadPosition, Reply::Position(position)) => {
            if position > MAX_JOURNAL_POSITION {
                FlushStage::LockManager
            } else {
                FlushStage::UnlockJournal(None)
            }
        },
        (FlushStage::ReadPosition, Reply::Failed(e)) => FlushStage::UnlockJournal(Some(e)),
        (FlushStage::LockManager, Reply::Done) => FlushStage::BuildSeqnoMap,
        (FlushStage::BuildSeqnoMap, Reply::Done) => FlushStage::RotateJournal,
        (FlushStage::RotateJournal, Reply::Done) => FlushStage::MeasureJournals,
        (FlushStage::RotateJournal, Reply::Failed(e)) => FlushStage::UnlockManager(Some(e)),
        (FlushStage::MeasureJournals, Reply::DiskSpace(used)) => {
            if used >= max_journaling_size {
                FlushStage::ListStragglers
            } else {
                FlushStage::UnlockManager(None)
            }
        },
        (FlushStage::ListStragglers, Reply::Keyspaces(stragglers)) => {
            if stragglers.len() > 0 {
                FlushStage::MarkStraggler { stragglers, index: 0 }
            } else {
                FlushStage::UnlockManager(None)
            }
        },
        (FlushStage::MarkStraggler { stragglers, index }, Reply::Done) => {
            if stragglers.len() - index > 1 {
                FlushStage::MarkStraggler { stragglers, index: index + 1 }
            } else {
                FlushStage::UnlockManager(None)
            }
        },
        (FlushStage::UnlockManager(failure), Reply::Done) => FlushStage::UnlockJournal(failure),
        (FlushStage::UnlockJournal(None), Reply::Done) => FlushStage::Flush,
        (FlushStage::UnlockJournal(Some(e)), Reply::Done) => FlushStage::Finished(Err(e)),
        (FlushStage::Flush, Reply::Done) => FlushStage::MarkForCompaction,
        (FlushStage::Flush, Reply::Failed(e)) => FlushStage::Finished(Err(e)),
        (FlushStage::MarkForCompaction, Reply::Done) => FlushStage::Maintain,
        (FlushStage::Maintain, Reply::Done) => FlushStage::Finished(Ok(())),
        (FlushStage::Maintain, Reply::Failed(e)) => FlushStage::Finished(Err(e)),
        (stage, _) => stage,
    };
    FlushJob { task, max_journaling_size, stage }
}

/// What an engine answers to the requests of one flush.
pub struct FlushAnswers<E> {
    /// Whether the journal can be locked.
    pub journal: Result<(), E>,
    /// The position in the journal.
    pub position: Result<u64, E>,
    /// Whether the journal can be rotated.
    pub rotation: Result<(), E>,
    /// The disk space that the journals use.
    pub disk_space: u64,
    /// The keyspaces that keep the oldest journal alive.
    pub stragglers: Vec<u64>,
    /// Whether the task can be flushed.
    pub flush: Result<(), E>,
    /// Whether the journals can be maintained.
    pub maintenance: Result<(), E>,
}

impl<E> FlushAnswers<E> {
    /// The reply to the outstanding request.
    pub open spec fn reply(self, job: FlushJob<E>) -> Reply<E> {
        match job.stage {
            FlushStage::LockJournal => Reply::done_or_failed(self.journal),
            FlushStage::ReadPosition => match self.position {
                Ok(position) => Reply::Position(position),
                Err(e) => Reply::Failed(e),
            },
            FlushStage::RotateJournal => Reply::done_or_failed(self.rotation),
            FlushStage::MeasureJournals => Reply::DiskSpace(self.disk_space),
            FlushStage::ListStragglers => Reply::Keyspaces(self.stragglers),
            FlushStage::Flush => Reply::done_or_failed(self.flush),
            FlushStage::Maintain => Reply::done_or_failed(self.maintenance),
            _ => Reply::Done,
        }
    }

    /// All requests from this stage of the work to its end, and how it ends.
    pub open spec fn run(self, job: FlushJob<E>) -> (Seq<Request>, Result<(), E>)
        decreases job.phase(), job.stragglers_left(),
    {
        match job.stage {
            FlushStage::Finished(outcome) => (Seq::empty(), outcome),
            _ => {
                let (requests, outcome) = self.run(job.after(self.reply(job)));
                (seq![job.asks()->0] + requests, outcome)
            },
        }
    }

    /// Whether the journal is found too large.
    pub open spec fn rotates(self) -> bool {
        self.position matches Ok(position) && position > MAX_JOURNAL_POSITION
    }

    /// The requests made under the journal manager's lock.
    pub open spec fn rotation_requests(self, max_journaling_size: u64) -> Seq<Request> {
        seq![Request::BuildSeqnoMap, Request::RotateJournal] + if self.rotation is Err {
            seq![]
        } else if self.disk_space < max_journaling_size {
            seq![Request::JournalDiskSpace]
        } else {
            seq![Request::JournalDiskSpace, Request::ListStragglers]
                + self.stragglers@.map_values(|keyspace: u64| Request::RequestRotation(keyspace))
        }
    }

    /// The requests made under the journal's lock.
    pub open spec fn journal_requests(self, max_journaling_size: u64) -> Seq<Request> {
        seq![Request::JournalPosition] + if self.rotates() {
            seq![Request::LockJournalManager] + self.rotation_requests(max_journaling_size)
                + seq![Request::UnlockJournalManager]
        } else {
            seq![]
        }
    }

    /// The requests made once the journal is unlocked again.
    pub open spec fn flush_requests(self, task: FlushTask) -> Seq<Request> {
        seq![Request::RunFlush(task)] + if self.flush is Err {
            seq![]
        } else {
            seq![Request::RequestCompaction(task.keyspace), Request::MaintainJournals]
        }
    }

    /// How the work under the journal's lock ends.
    pub open spec fn journal_outcome(self) -> Result<(), E> {
        if self.position is Err {
            Err(self.position->Err_0)
        } else if self.rotates() {
            self.rotation
        } else {
            Ok(())
        }
    }

    /// All requests of the work on `task`, in their order.
    pub open spec fn requests(self, task: FlushTask, max_journaling_size: u64) -> Seq<Request> {
        seq![Request::LockJournal] + if self.journal is Err {
            seq![]
        } else {
            self.journal_requests(max_journaling_size) + seq![Request::UnlockJournal]
                + if self.journal_outcome() is Err {
                seq![]
            } else {
                self.flush_requests(task)
            }
        }
    }

    /// How the work ends: well, or with the first failure.
    pub open spec fn outcome(self) -> Result<(), E> {
        if self.journal is Err {
            self.journal
        } else if self.journal_outcome() is Err {
            self.journal_outcome()
        } else if self.flush is Err {
            self.flush
        } else {
            self.maintenance
        }
    }
}

impl<E> FlushJob<E> {
    /// How many phases of the work are still to come.
    pub open spec fn phase(&self) -> nat {
        match self.stage {
            FlushStage::LockJournal => 13,
            FlushStage::ReadPosition => 12,
            FlushStage::LockManager => 11,
            FlushStage::BuildSeqnoMap => 10,
            FlushStage::RotateJournal => 9,
            FlushStage::MeasureJournals => 8,
            FlushStage::ListStragglers => 7,
            FlushStage::MarkStraggler { stragglers, index } => 6,
            FlushStage::UnlockManager(_) => 5,
            FlushStage::UnlockJournal(_) => 4,
            FlushStage::Flush => 3,
            FlushStage::MarkForCompaction => 2,
            FlushStage::Maintain => 1,
            FlushStage::Finished(_) => 0,
        }
    }

    /// The locks held while the outstanding request is open.
    pub open spec fn locks(&self) -> Locks {
        match self.stage {
            FlushStage::ReadPosition => Locks { journal: true, manager: false },
            FlushStage::LockManager => Locks { journal: true, manager: false },
            FlushStage::BuildSeqnoMap => Locks { journal: true, manager: true },
            FlushStage::RotateJournal => Locks { journal: true, manager: true },
            FlushStage::MeasureJournals => Locks { journal: true, manager: true },
            FlushStage::ListStragglers => Locks { journal: true, manager: true },
            FlushStage::MarkStraggler { .. } => Locks { journal: true, manager: true },
            FlushStage::UnlockManager(_) => Locks { journal: true, manager: true },
            FlushStage::UnlockJournal(_) => Locks { journal: true, manager: false },
            _ => Locks::none(),
        }
    }

    /// How many stragglers are still to be marked.
    pub open spec fn stragglers_left(&self) -> nat {
        match self.stage {
            FlushStage::MarkStraggler { stragglers, index } => if index < stragglers.len() {
                (stragglers.len() - index) as nat
            } else {
                0
            },
            _ => 0,
        }
    }
}

/// From a straggler on, exactly the remaining ones are marked, in their order, before the
/// journal manager is unlocked.
proof fn lemma_marks_stragglers<E>(answers: FlushAnswers<E>, job: FlushJob<E>, index: int)
    requires
        job.stage matches FlushStage::MarkStraggler { stragglers, index: i } && i == index
            && stragglers == answers.stragglers,
        0 <= index < answers.stragglers.len(),
    ensures
        ({
            let unlock = FlushJob { stage: FlushStage::UnlockManager(None), ..job };
            answers.run(job) == (
                answers.stragglers@.skip(index).map_values(
                    |keyspace: u64| Request::RequestRotation(keyspace),
                ) + answers.run(unlock).0,
                answers.run(unlock).1,
            )
        }),
    decreases answers.stragglers.len() - index,
{
    let mark = |keyspace: u64| Request::RequestRotation(keyspace);
    let unlock = FlushJob { stage: FlushStage::UnlockManager(None), ..job };
    let next = job.after(Reply::Done);
    let stragglers = answers.stragglers@;
    if index + 1 < stragglers.len() {
        lemma_marks_stragglers(answers, next, index + 1);
        assert(FlushJob { stage: FlushStage::UnlockManager(None), ..next } == unlock);
        assert(stragglers.skip(index).map_values(mark) + answers.run(unlock).0
            == seq![mark(stragglers[index])] + (stragglers.skip(index + 1).map_values(mark)
            + answers.run(unlock).0));
    } else {
        assert(next == unlock);
        assert(stragglers.skip(index).map_values(mark) == seq![mark(stragglers[index])]);
    }
}

/// Once the journal is unlocked.
proof fn lemma_flush_part<E>(answers: FlushAnswers<E>, job: FlushJob<E>)
    requires
        job.stage is Flush,
    ensures
        answers.run(job) == (
            answers.flush_requests(job.task),
            if answers.flush is Err {
                answers.flush
            } else {
                answers.maintenance
            },
        ),
{
    reveal_with_fuel(FlushAnswers::run, 4);
    assert(answers.run(job).0 == answers.flush_requests(job.task));
    assert(answers.maintenance is Ok ==> answers.maintenance->Ok_0 == ());
}

/// Once the work under the journal's lock is over, with a failure or without one.
proof fn lemma_unlock_part<E>(answers: FlushAnswers<E>, job: FlushJob<E>, failure: Option<E>)
    requires
        job.stage == FlushStage::<E>::UnlockJournal(failure),
    ensures
        answers.run(job) == (
            seq![Request::UnlockJournal] + if failure is Some {
                seq![]
            } else {
                answers.flush_requests(job.task)
            },
            if failure is Some {
                Err(failure->0)
            } else if answers.flush is Err {
                answers.flush
            } else {
                answers.maintenance
            },
        ),
{
    let next = job.after(Reply::Done);
    reveal_with_fuel(FlushAnswers::run, 2);
    if failure is None {
        lemma_flush_part(answers, next);
    }
}

/// What is left when the journal manager has been locked.
proof fn lemma_rotation_part<E>(answers: FlushAnswers<E>, job: FlushJob<E>)
    requires
        job.stage is BuildSeqnoMap,
    ensures
        ({
            let failure = if answers.rotation is Err {
                Some(answers.rotation->Err_0)
            } else {
                None
            };
            let unlock = FlushJob { stage: FlushStage::UnlockJournal(failure), ..job };
            answers.run(job) == (
                answers.rotation_requests(job.max_journaling_size)
                    + seq![Request::UnlockJournalManager] + answers.run(unlock).0,
                answers.run(unlock).1,
            )
        }),
{
    let failure = if answers.rotation is Err {
        Some(answers.rotation->Err_0)
    } else {
        None
    };
    let unlock = FlushJob { stage: FlushStage::UnlockJournal(failure), ..job };
    let unlock_manager = FlushJob { stage: FlushStage::UnlockManager(failure), ..job };
    let rotate = job.after(Reply::Done);
    let rotated = rotate.after(answers.reply(rotate));
    assert(unlock_manager.after(Reply::Done) == unlock);
    let end = answers.run(unlock_manager);
    assert(end.0 == seq![Request::UnlockJournalManager] + answers.run(unlock).0);
    assert(end.1 == answers.run(unlock).1);
    assert(answers.run(job).0 == seq![Request::BuildSeqnoMap] + answers.run(rotate).0);
    assert(answers.run(rotate).0 == seq![Request::RotateJournal] + answers.run(rotated).0);
    if answers.rotation is Err {
        assert(rotated == unlock_manager);
    } else {
        let measured = rotated.after(Reply::DiskSpace(answers.disk_space));
        assert(answers.run(rotated).0 == seq![Request::JournalDiskSpace]
            + answers.run(measured).0);
        if answers.disk_space < job.max_journaling_size {
            assert(measured == unlock_manager);
        } else {
            let listed = measured.after(Reply::Keyspaces(answers.stragglers));
            let stragglers = answers.stragglers@;
            let mark = |keyspace: u64| Request::RequestRotation(keyspace);
            assert(answers.run(measured).0 == seq![Request::ListStragglers]
                + answers.run(listed).0);
            if stragglers.len() == 0 {
                assert(listed == unlock_manager);
                assert(stragglers.map_values(mark) == Seq::<Request>::empty());
            } else {
                lemma_marks_stragglers(answers, listed, 0);
                assert(FlushJob { stage: FlushStage::UnlockManager(None), ..listed }
                    == unlock_manager);
                assert(stragglers.skip(0) == stragglers);
            }
            assert(answers.run(listed).0 == stragglers.map_values(mark) + end.0);
        }
    }
    assert(answers.run(job).0 == answers.rotation_requests(job.max_journaling_size)
        + seq![Request::UnlockJournalManager] + answers.run(unlock).0);
}

/// What a flush does, from beginning to end, for every engine: the requests it makes, in their
/// order, and how it ends. In particular the journal is rotated exactly when it is too large,
/// every straggler is marked exactly when the journals then use too much disk space, nothing
/// but unlocking follows a failure, and the keyspace is marked for compaction exactly when the
/// flush itself succeeded.
pub proof fn law_flush_run<E>(
    answers: FlushAnswers<E>,
    task: FlushTask,
    max_journaling_size: u64,
)
    ensures
        answers.run(FlushJob::begun(task, max_journaling_size)) == (
            answers.requests(task, max_journaling_size),
            answers.outcome(),
        ),
{
    let job = FlushJob::begun(task, max_journaling_size);
    let locked = job.after(answers.reply(job));
    assert(answers.run(job).0 == seq![Request::LockJournal] + answers.run(locked).0);
    if answers.journal is Ok {
        let read = locked.after(answers.reply(locked));
        assert(answers.run(locked).0 == seq![Request::JournalPosition] + answers.run(read).0);
        if answers.rotates() {
            let build = read.after(Reply::Done);
            let failure = if answers.rotation is Err {
                Some(answers.rotation->Err_0)
            } else {
                None
            };
            let unlock = FlushJob { stage: FlushStage::UnlockJournal(failure), ..job };
            assert(answers.run(read).0 == seq![Request::LockJournalManager]
                + answers.run(build).0);
            lemma_rotation_part(answers, build);
            assert(FlushJob { stage: FlushStage::UnlockJournal(failure), ..build } == unlock);
            lemma_unlock_part(answers, unlock, failure);
        } else {
            let failure = if answers.position is Err {
                Some(answers.position->Err_0)
            } else {
                None
            };
            lemma_unlock_part(answers, read, failure);
        }
    }
    assert(answers.run(job).0 == answers.requests(task, max_journaling_size));
}

} // verus!
