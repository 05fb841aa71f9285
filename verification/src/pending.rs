//! Looking through the keyspaces for work that they were marked for.

use crate::engine::{Locks, Reply, Request};
use vstd::prelude::*;

verus! {

/// How far the search for marked keyspaces has come. Ends with whether there was work to do.
pub enum PendingStage<E> {
    /// The keyspaces are being listed.
    ListKeyspaces,
    /// The rotation mark is being taken from the keyspace with this index.
    TakeRotationMark {
        /// The keyspaces.
        keyspaces: Vec<u64>,
        /// The index.
        index: usize,
    },
    /// The journal is being locked for the rotation of this keyspace's memtable.
    LockJournal(u64),
    /// The number of this keyspace's memtable is being read.
    ReadMemtable(u64),
    /// The memtable is being rotated.
    RotateMemtable {
        /// The keyspace.
        keyspace: u64,
        /// The number of its memtable.
        memtable: u64,
    },
    /// The compaction mark is being taken from the keyspace with this index.
    TakeCompactionMark {
        /// The keyspaces.
        keyspaces: Vec<u64>,
        /// The index.
        index: usize,
    },
    /// This keyspace is being compacted.
    Compact(u64),
    /// The search is over.
    Finished(Result<bool, E>),
}

impl<E> PendingStage<E> {
    /// An index is one of the list's.
    pub open spec fn wf(&self) -> bool {
        match self {
            PendingStage::TakeRotationMark { keyspaces, index } => *index < keyspaces.len(),
            PendingStage::TakeCompactionMark { keyspaces, index } => *index < keyspaces.len(),
            _ => true,
        }
    }

    /// What the reply to the outstanding request leads to. A reply that does not answer that
    /// request leaves it outstanding.
    pub open spec fn after(self, reply: Reply<E>) -> PendingStage<E> {
        match (self, reply) {
            (PendingStage::ListKeyspaces, Reply::Keyspaces(keyspaces)) => if keyspaces.len() > 0 {
                PendingStage::TakeRotationMark { keyspaces, index: 0 }
            } else {
                PendingStage::Finished(Ok(false))
            },
            (PendingStage::TakeRotationMark { keyspaces, index }, Reply::Pending(marked)) => {
                if marked {
                    PendingStage::LockJournal(keyspaces@[index as int])
                } else {
                    PendingStage::TakeCompactionMark { keyspaces, index }
                }
            },
            (PendingStage::LockJournal(keyspace), Reply::Done) => PendingStage::ReadMemtable(
                keyspace,
            ),
            (PendingStage::LockJournal(_), Reply::Failed(e)) => PendingStage::Finished(Err(e)),
            (PendingStage::ReadMemtable(keyspace), Reply::Memtable(memtable)) => {
                PendingStage::RotateMemtable { keyspace, memtable }
            },
            (PendingStage::RotateMemtable { .. }, Reply::Done) => PendingStage::Finished(Ok(true)),
            (PendingStage::RotateMemtable { .. }, Reply::Failed(e)) => PendingStage::Finished(
                Err(e),
            ),
            (PendingStage::TakeCompactionMark { keyspaces, index }, Reply::Pending(marked)) => {
                if marked {
                    PendingStage::Compact(keyspaces@[index as int])
                } else if index + 1 < keyspaces.len() {
                    PendingStage::TakeRotationMark { keyspaces, index: (index + 1) as usize }
                } else {
                    PendingStage::Finished(Ok(false))
                }
            },
            (PendingStage::Compact(_), Reply::Done) => PendingStage::Finished(Ok(true)),
            (PendingStage::Compact(_), Reply::Failed(e)) => PendingStage::Finished(Err(e)),
            (stage, _) => stage,
        }
    }

    /// The request that is outstanding, or `None` when the search is over.
    pub open spec fn asks(&self) -> Option<Request> {
        match self {
            PendingStage::ListKeyspaces => Some(Request::ListKeyspaces),
            PendingStage::TakeRotationMark { keyspaces, index } => Some(
                Request::TakeRotationMark(keyspaces@[*index as int]),
            ),
            PendingStage::LockJournal(_) => Some(Request::LockJournal),
            PendingStage::ReadMemtable(keyspace) => Some(Request::ActiveMemtable(*keyspace)),
            PendingStage::RotateMemtable { keyspace, memtable } => Some(
                Request::RotateMemtable { keyspace: *keyspace, memtable: *memtable },
            ),
            PendingStage::TakeCompactionMark { keyspaces, index } => Some(
                Request::TakeCompactionMark(keyspaces@[*index as int]),
            ),
            PendingStage::Compact(keyspace) => Some(Request::RunCompaction(*keyspace)),
            PendingStage::Finished(_) => None,
        }
    }

    /// The request that is outstanding, or `None` when the search is over.
    pub fn request(&self) -> (request: Option<Request>)
        requires
            self.wf(),
        ensures
            request == self.asks(),
    {
        match self {
            PendingStage::ListKeyspaces => Some(Request::ListKeyspaces),
            PendingStage::TakeRotationMark { keyspaces, index } => Some(
                Request::TakeRotationMark(keyspaces[*index]),
            ),
            PendingStage::LockJournal(_) => Some(Request::LockJournal),
            PendingStage::ReadMemtable(keyspace) => Some(Request::ActiveMemtable(*keyspace)),
            PendingStage::RotateMemtable { keyspace, memtable } => Some(
                Request::RotateMemtable { keyspace: *keyspace, memtable: *memtable },
            ),
            PendingStage::TakeCompactionMark { keyspaces, index } => Some(
                Request::TakeCompactionMark(keyspaces[*index]),
            ),
            PendingStage::Compact(keyspace) => Some(Request::RunCompaction(*keyspace)),
            PendingStage::Finished(_) => None,
        }
    }
}

/// Goes on with the search for marked keyspaces, now that the outstanding request got its
/// reply.
///
/// The keyspaces are looked at one after the other, and the first that is marked is worked
/// on: its memtable is rotated under the journal's lock if it is marked for that, or else it
/// is compacted. The others are left for another time. [`law_pending_run`] states what this
/// comes to from beginning to end.
pub fn run_pending_keyspace_work<E>(stage: PendingStage<E>, reply: Reply<E>) -> (next: PendingStage<
    E,
>)
    requires
        stage.wf(),
    ensures
        next == stage.after(reply),
        next.wf(),
{
    match (stage, reply) {
        (PendingStage::ListKeyspaces, Reply::Keyspaces(keyspaces)) => {
            if keyspaces.len() > 0 {
                PendingStage::TakeRotationMark { keyspaces, index: 0 }
            } else {
                PendingStage::Finished(Ok(false))
            }
        },
        (PendingStage::TakeRotationMark { keyspaces, index }, Reply::Pending(marked)) => {
            if marked {
                PendingStage::LockJournal(keyspaces[index])
            } else {
                PendingStage::TakeCompactionMark { keyspaces, index }
            }
        },
        (PendingStage::LockJournal(keyspace), Reply::Done) => PendingStage::ReadMemtable(keyspace),
        (PendingStage::LockJournal(_), Reply::Failed(e)) => PendingStage::Finished(Err(e)),
        (PendingStage::ReadMemtable(keyspace), Reply::Memtable(memtable)) => {
            PendingStage::RotateMemtable { keyspace, memtable }
        },
        (PendingStage::RotateMemtable { .. }, Reply::Done) => PendingStage::Finished(Ok(true)),
        (PendingStage::RotateMemtable { .. }, Reply::Failed(e)) => PendingStage::Finished(Err(e)),
        (PendingStage::TakeCompactionMark { keyspaces, index }, Reply::Pending(marked)) => {
            if marked {
                PendingStage::Compact(keyspaces[index])
            } else if keyspaces.len() - index > 1 {
                PendingStage::TakeRotationMark { keyspaces, index: index + 1 }
            } else {
                PendingStage::Finished(Ok(false))
            }
        },
        (PendingStage::Compact(_), Reply::Done) => PendingStage::Finished(Ok(true)),
        (PendingStage::Compact(_), Reply::Failed(e)) => PendingStage::Finished(Err(e)),
        (stage, _) => stage,
    }
}

/// What an engine answers to the requests of one search.
pub struct PendingAnswers<E> {
    /// The keyspaces.
    pub keyspaces: Vec<u64>,
    /// Which of them are marked for rotation.
    pub rotation_marks: Seq<bool>,
    /// Which of them are marked for compaction.
    pub compaction_marks: Seq<bool>,
    /// Whether the journal can be locked.
    pub journal: Result<(), E>,
    /// The number of the memtable.
    pub memtable: u64,
    /// Whether the memtable can be rotated.
    pub rotation: Result<(), E>,
    /// Whether the keyspace can be compacted.
    pub compaction: Result<(), E>,
}

impl<E> PendingAnswers<E> {
    /// The reply to the outstanding request.
    pub open spec fn reply(self, stage: PendingStage<E>) -> Reply<E> {
        match stage {
            PendingStage::ListKeyspaces => Reply::Keyspaces(self.keyspaces),
            PendingStage::TakeRotationMark { keyspaces, index } => Reply::Pending(
                self.rotation_marks[index as int],
            ),
            PendingStage::TakeCompactionMark { keyspaces, index } => Reply::Pending(
                self.compaction_marks[index as int],
            ),
            PendingStage::LockJournal(_) => Reply::done_or_failed(self.journal),
            PendingStage::ReadMemtable(_) => Reply::Memtable(self.memtable),
            PendingStage::RotateMemtable { .. } => Reply::done_or_failed(self.rotation),
            PendingStage::Compact(_) => Reply::done_or_failed(self.compaction),
            PendingStage::Finished(_) => Reply::Done,
        }
    }

    /// All requests from this stage of the search to its end, and how it ends.
    pub open spec fn run(self, stage: PendingStage<E>) -> (Seq<Request>, Result<bool, E>)
        decreases stage.phase(), stage.marks_left(),
    {
        match stage {
            PendingStage::Finished(outcome) => (Seq::empty(), outcome),
            _ => {
                let (requests, outcome) = self.run(stage.after(self.reply(stage)));
                (seq![stage.asks()->0] + requests, outcome)
            },
        }
    }

    /// Whether the keyspace with this index is marked for anything.
    pub open spec fn marked(self, i: int) -> bool {
        self.rotation_marks[i] || self.compaction_marks[i]
    }

    /// Whether `k` is the index of the first keyspace that is marked for anything, or their
    /// number if none is.
    pub open spec fn first_marked(self, k: int) -> bool {
        &&& 0 <= k <= self.keyspaces.len()
        &&& forall|i: int| 0 <= i < k ==> !#[trigger] self.marked(i)
        &&& k < self.keyspaces.len() ==> self.marked(k)
    }

    /// The requests that find the keyspaces with the indices from `from` up to `to`
    /// unmarked: two for each.
    pub open spec fn vain_requests(self, from: int, to: int) -> Seq<Request> {
        Seq::new(
            (2 * (to - from)) as nat,
            |j: int|
                if j % 2 == 0 {
                    Request::TakeRotationMark(self.keyspaces@[from + j / 2])
                } else {
                    Request::TakeCompactionMark(self.keyspaces@[from + j / 2])
                },
        )
    }

    /// The requests for the keyspace with the index `k`, which is the first marked one.
    pub open spec fn work_requests(self, k: int) -> Seq<Request> {
        let keyspace = self.keyspaces@[k];
        if k == self.keyspaces.len() {
            seq![]
        } else if self.rotation_marks[k] {
            seq![Request::TakeRotationMark(keyspace), Request::LockJournal]
                + if self.journal is Err {
                seq![]
            } else {
                seq![
                    Request::ActiveMemtable(keyspace),
                    Request::RotateMemtable { keyspace, memtable: self.memtable },
                ]
            }
        } else {
            seq![
                Request::TakeRotationMark(keyspace),
                Request::TakeCompactionMark(keyspace),
                Request::RunCompaction(keyspace),
            ]
        }
    }

    /// How the work on the keyspace with the index `k` ends.
    pub open spec fn outcome(self, k: int) -> Result<bool, E> {
        let failure = if k == self.keyspaces.len() {
            Ok(())
        } else if !self.rotation_marks[k] {
            self.compaction
        } else if self.journal is Err {
            self.journal
        } else {
            self.rotation
        };
        match failure {
            Ok(()) => Ok(k < self.keyspaces.len()),
            Err(e) => Err(e),
        }
    }
}

impl<E> PendingStage<E> {
    /// How many phases of the search are still to come.
    pub open spec fn phase(&self) -> nat {
        match self {
            PendingStage::ListKeyspaces => 5,
            PendingStage::TakeRotationMark { .. } => 4,
            PendingStage::TakeCompactionMark { .. } => 4,
            PendingStage::LockJournal(_) => 3,
            PendingStage::ReadMemtable(_) => 2,
            PendingStage::RotateMemtable { .. } => 1,
            PendingStage::Compact(_) => 1,
            PendingStage::Finished(_) => 0,
        }
    }

    /// The locks held while the outstanding request is open.
    pub open spec fn locks(&self) -> Locks {
        match self {
            PendingStage::ReadMemtable(_) => Locks { journal: true, manager: false },
            PendingStage::RotateMemtable { .. } => Locks { journal: true, manager: false },
            _ => Locks::none(),
        }
    }

    /// How many marks are still to be looked at.
    pub open spec fn marks_left(&self) -> int {
        match self {
            PendingStage::TakeRotationMark { keyspaces, index } => if *index < keyspaces.len() {
                2 * (keyspaces.len() - *index)
            } else {
                1
            },
            PendingStage::TakeCompactionMark { keyspaces, index } => if *index < keyspaces.len() {
                2 * (keyspaces.len() - *index) - 1
            } else {
                0
            },
            _ => 0,
        }
    }
}

/// From any unmarked keyspace on, up to the first marked one.
proof fn lemma_search<E>(answers: PendingAnswers<E>, stage: PendingStage<E>, i: int, k: int)
    requires
        answers.first_marked(k),
        0 <= i <= k,
        i < answers.keyspaces.len(),
        stage matches PendingStage::TakeRotationMark { keyspaces, index } && keyspaces
            == answers.keyspaces && index == i,
    ensures
        answers.run(stage) == (
            answers.vain_requests(i, k) + answers.work_requests(k),
            answers.outcome(k),
        ),
    decreases k - i,
{
    let next = stage.after(answers.reply(stage));
    let keyspace = answers.keyspaces@[i];
    assert(answers.run(stage).0 == seq![Request::TakeRotationMark(keyspace)]
        + answers.run(next).0);
    assert(answers.journal is Ok ==> answers.journal->Ok_0 == ());
    assert(answers.rotation is Ok ==> answers.rotation->Ok_0 == ());
    assert(answers.compaction is Ok ==> answers.compaction->Ok_0 == ());
    if i == k {
        assert(answers.vain_requests(i, k) == Seq::<Request>::empty());
        reveal_with_fuel(PendingAnswers::run, 5);
        if answers.rotation_marks[k] {
            let locked = next.after(answers.reply(next));
            assert(next == PendingStage::<E>::LockJournal(keyspace));
            assert(answers.run(next).0 == seq![Request::LockJournal] + answers.run(locked).0);
            if answers.journal is Ok {
                let read = locked.after(answers.reply(locked));
                let rotated = read.after(answers.reply(read));
                assert(answers.run(locked).0 == seq![Request::ActiveMemtable(keyspace)]
                    + answers.run(read).0);
                assert(answers.run(rotated).0 == Seq::<Request>::empty());
            }
        } else {
            let compact = next.after(answers.reply(next));
            let end = compact.after(answers.reply(compact));
            assert(answers.run(next).0 == seq![Request::TakeCompactionMark(keyspace)]
                + answers.run(compact).0);
            assert(answers.run(compact).0 == seq![Request::RunCompaction(keyspace)]
                + answers.run(end).0);
            assert(answers.run(end).0 == Seq::<Request>::empty());
        }
        assert(answers.run(stage).0 == answers.vain_requests(i, k) + answers.work_requests(k));
        assert(answers.run(stage).1 == answers.outcome(k));
    } else {
        assert(!answers.marked(i));
        let after = next.after(answers.reply(next));
        assert(answers.run(next).0 == seq![Request::TakeCompactionMark(keyspace)]
            + answers.run(after).0);
        if i + 1 < answers.keyspaces.len() {
            lemma_search(answers, after, i + 1, k);
        } else {
            assert(answers.run(after).0 == Seq::<Request>::empty());
            assert(answers.vain_requests(i + 1, k) == Seq::<Request>::empty());
        }
        assert(answers.vain_requests(i, k) == seq![
            Request::TakeRotationMark(keyspace),
            Request::TakeCompactionMark(keyspace),
        ] + answers.vain_requests(i + 1, k)) by {
            let rest = answers.vain_requests(i + 1, k);
            let all = seq![
                Request::TakeRotationMark(keyspace),
                Request::TakeCompactionMark(keyspace),
            ] + rest;
            assert forall|j: int| 0 <= j < all.len() implies answers.vain_requests(i, k)[j]
                == all[j] by {
                if j >= 2 {
                    assert((j - 2) % 2 == j % 2 && (j - 2) / 2 == j / 2 - 1);
                    assert(all[j] == rest[j - 2]);
                }
            }
        }
        assert(answers.run(stage).0 == answers.vain_requests(i, k) + answers.work_requests(k));
    }
}

/// What a search does, from beginning to end, for every engine: the requests it makes, in
/// their order, and how it ends. With `k` the first keyspace that is marked, the marks of
/// those before it are looked at in turn, then `k` alone is worked on, and no keyspace after
/// it is touched.
pub proof fn law_pending_run<E>(answers: PendingAnswers<E>, k: int)
    requires
        answers.first_marked(k),
    ensures
        answers.run(PendingStage::ListKeyspaces) == (
            seq![Request::ListKeyspaces] + answers.vain_requests(0, k) + answers.work_requests(k),
            answers.outcome(k),
        ),
{
    let stage = PendingStage::ListKeyspaces;
    let next = stage.after(answers.reply(stage));
    assert(answers.run(stage).0 == seq![Request::ListKeyspaces] + answers.run(next).0);
    if answers.keyspaces.len() > 0 {
        lemma_search(answers, next, 0, k);
    } else {
        assert(answers.run(next).0 == Seq::<Request>::empty());
        assert(answers.vain_requests(0, k) == Seq::<Request>::empty());
    }
    assert(answers.run(stage).0 == seq![Request::ListKeyspaces] + answers.vain_requests(0, k)
        + answers.work_requests(k));
}

/// There is always a first marked keyspace, or none is marked.
pub proof fn lemma_first_marked_exists<E>(answers: PendingAnswers<E>) -> (k: int)
    ensures
        answers.first_marked(k),
{
    lemma_first_marked_from(answers, 0)
}

proof fn lemma_first_marked_from<E>(answers: PendingAnswers<E>, i: int) -> (k: int)
    requires
        0 <= i <= answers.keyspaces.len(),
        forall|j: int| 0 <= j < i ==> !#[trigger] answers.marked(j),
    ensures
        answers.first_marked(k),
    decreases answers.keyspaces.len() - i,
{
    if i == answers.keyspaces.len() || answers.marked(i) {
        i
    } else {
        lemma_first_marked_from(answers, i + 1)
    }
}

} // verus!
