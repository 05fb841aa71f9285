//! What a worker asks of the storage engine, and what the engine answers.
//!
//! Locks, files and tables belong to the engine. A worker only decides: it hands out one
//! request at a time and goes on when it has the reply.

use vstd::prelude::*;

verus! {

/// A memtable waiting to be flushed to disk.
#[derive(Debug, Clone, Copy, PartialEq, Eq, Structural)]
pub struct FlushTask {
    /// The keyspace that the memtable belongs to.
    pub keyspace: u64,
}

/// One piece of work for the engine. Keyspaces go by their number.
#[derive(Debug, Clone, Copy, PartialEq, Eq, Structural)]
pub enum Request {
    /// Take the next task from the flush queue. Answered with `Dequeued`.
    DequeueFlush,
    /// Lock the journal for writing. Answered with `Done` or `Failed`.
    LockJournal,
    /// Tell the position in the locked journal. Answered with `Position` or `Failed`.
    JournalPosition,
    /// Lock the journal manager for writing. Answered with `Done`.
    LockJournalManager,
    /// Build the map of sequence numbers over all keyspaces, locking these meanwhile. Answered
    /// with `Done`.
    BuildSeqnoMap,
    /// Rotate the locked journal, with the map just built. Answered with `Done` or `Failed`.
    RotateJournal,
    /// Tell the disk space that the journals use. Answered with `DiskSpace`.
    JournalDiskSpace,
    /// List the keyspaces to flush before the oldest journal can be evicted. Answered with
    /// `Keyspaces`.
    ListStragglers,
    /// Mark the memtable of a keyspace for rotation. Answered with `Done`.
    RequestRotation(u64),
    /// Unlock the journal manager. Answered with `Done`.
    UnlockJournalManager,
    /// Unlock the journal. Answered with `Done`.
    UnlockJournal,
    /// Flush the task that was dequeued. Answered with `Done` or `Failed`.
    RunFlush(FlushTask),
    /// Mark a keyspace for compaction. Answered with `Done`.
    RequestCompaction(u64),
    /// Evict journals that are no longer needed, locking the journal manager meanwhile.
    /// Answered with `Done` or `Failed`.
    MaintainJournals,
    /// List all keyspaces. Answered with `Keyspaces`.
    ListKeyspaces,
    /// Take the rotation mark from a keyspace, if it has one. Answered with `Pending`.
    TakeRotationMark(u64),
    /// Tell the number of the active memtable of a keyspace. Answered with `Memtable`.
    ActiveMemtable(u64),
    /// Rotate the memtable of a keyspace, if it is still this one, and unlock the journal,
    /// also on failure. Answered with `Done` or `Failed`.
    RotateMemtable {
        /// The keyspace.
        keyspace: u64,
        /// The number of its memtable.
        memtable: u64,
    },
    /// Take the compaction mark from a keyspace, if it has one. Answered with `Pending`.
    TakeCompactionMark(u64),
    /// Compact a keyspace. Answered with `Done` or `Failed`.
    RunCompaction(u64),
    /// Poison the database, so that nothing is written to it any more. Answered with `Done`.
    Poison,
}

impl Request {
    /// Whether this is a reply of the kind that the request is answered with.
    pub open spec fn answered_by<E>(&self, reply: Reply<E>) -> bool {
        match self {
            Request::DequeueFlush => reply is Dequeued,
            Request::JournalPosition => reply is Position || reply is Failed,
            Request::JournalDiskSpace => reply is DiskSpace,
            Request::ListStragglers => reply is Keyspaces,
            Request::ListKeyspaces => reply is Keyspaces,
            Request::TakeRotationMark(_) => reply is Pending,
            Request::TakeCompactionMark(_) => reply is Pending,
            Request::ActiveMemtable(_) => reply is Memtable,
            Request::LockJournal => reply is Done || reply is Failed,
            Request::RotateJournal => reply is Done || reply is Failed,
            Request::RunFlush(_) => reply is Done || reply is Failed,
            Request::MaintainJournals => reply is Done || reply is Failed,
            Request::RotateMemtable { .. } => reply is Done || reply is Failed,
            Request::RunCompaction(_) => reply is Done || reply is Failed,
            Request::LockJournalManager => reply is Done,
            Request::BuildSeqnoMap => reply is Done,
            Request::RequestRotation(_) => reply is Done,
            Request::UnlockJournalManager => reply is Done,
            Request::UnlockJournal => reply is Done,
            Request::RequestCompaction(_) => reply is Done,
            Request::Poison => reply is Done,
        }
    }
}

/// The answer to a request. `E` is the engine's error.
pub enum Reply<E> {
    /// It is done.
    Done,
    /// It failed.
    Failed(E),
    /// The position in the journal, in bytes.
    Position(u64),
    /// The disk space used, in bytes.
    DiskSpace(u64),
    /// Some keyspaces, in an order of the engine's.
    Keyspaces(Vec<u64>),
    /// Whether there was a mark, which is now taken away.
    Pending(bool),
    /// The number of a memtable.
    Memtable(u64),
    /// The task taken from the flush queue, if there was one.
    Dequeued(Option<FlushTask>),
}

impl<E> Reply<E> {
    /// The reply to a request that can fail.
    pub open spec fn done_or_failed(result: Result<(), E>) -> Reply<E> {
        match result {
            Ok(()) => Reply::Done,
            Err(e) => Reply::Failed(e),
        }
    }
}

/// Which of the engine's locks a worker holds.
pub struct Locks {
    /// The journal's.
    pub journal: bool,
    /// The journal manager's.
    pub manager: bool,
}

impl Locks {
    /// No lock.
    pub open spec fn none() -> Locks {
        Locks { journal: false, manager: false }
    }

    /// The locks held after a request got its reply.
    pub open spec fn after<E>(self, request: Request, reply: Reply<E>) -> Locks {
        match (request, reply) {
            (Request::LockJournal, Reply::Done) => Locks { journal: true, ..self },
            (Request::LockJournalManager, Reply::Done) => Locks { manager: true, ..self },
            (Request::UnlockJournalManager, Reply::Done) => Locks { manager: false, ..self },
            (Request::UnlockJournal, Reply::Done) => Locks { journal: false, ..self },
            (Request::RotateMemtable { .. }, Reply::Done) => Locks { journal: false, ..self },
            (Request::RotateMemtable { .. }, Reply::Failed(_)) => Locks { journal: false, ..self },
            _ => self,
        }
    }
}

} // verus!
