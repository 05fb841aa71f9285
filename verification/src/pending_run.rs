//! What search after search for marked keyspaces comes to.

use crate::engine::Request;
use crate::pending::{PendingAnswers, PendingStage};
use vstd::prelude::*;

verus! {

/// A mark that a keyspace can have.
pub enum Mark {
    /// Its memtable is to be rotated.
    Rotation(u64),
    /// It is to be compacted.
    Compaction(u64),
}

impl Mark {
    /// The keyspace that is marked.
    pub open spec fn keyspace(self) -> u64 {
        match self {
            Mark::Rotation(keyspace) => keyspace,
            Mark::Compaction(keyspace) => keyspace,
        }
    }

    /// The request that does what the mark is for, where `memtable` is the keyspace's.
    pub open spec fn work(self, memtable: u64) -> Request {
        match self {
            Mark::Rotation(keyspace) => Request::RotateMemtable { keyspace, memtable },
            Mark::Compaction(keyspace) => Request::RunCompaction(keyspace),
        }
    }
}

impl<E> PendingAnswers<E> {
    /// Whether these are the marks that the search finds, on the keyspaces listed in whatever
    /// order.
    pub open spec fn shows(self, marks: Set<Mark>) -> bool {
        &&& marks.finite()
        &&& forall|i: int|
            0 <= i < self.keyspaces.len() ==> #[trigger] self.rotation_marks[i] == marks.contains(
                Mark::Rotation(self.keyspaces@[i]),
            )
        &&& forall|i: int|
            0 <= i < self.keyspaces.len() ==> #[trigger] self.compaction_marks[i]
                == marks.contains(Mark::Compaction(self.keyspaces@[i]))
        &&& forall|mark: Mark| #[trigger]
            marks.contains(mark) ==> self.keyspaces@.contains(mark.keyspace())
    }

    /// Whether all work succeeds.
    pub open spec fn succeeds(self) -> bool {
        self.journal is Ok && self.rotation is Ok && self.compaction is Ok
    }

    /// The mark that the search takes from the keyspace with the index `k`, which is the first
    /// marked one.
    pub open spec fn taken(self, k: int) -> Mark {
        if self.rotation_marks[k] {
            Mark::Rotation(self.keyspaces@[k])
        } else {
            Mark::Compaction(self.keyspaces@[k])
        }
    }

    /// The marks that the search leaves, where `k` is the first marked keyspace.
    pub open spec fn leaves(self, marks: Set<Mark>, k: int) -> Set<Mark> {
        if k < self.keyspaces.len() {
            marks.remove(self.taken(k))
        } else {
            marks
        }
    }
}

/// Whether these are searches one after the other, all of whose work succeeds, with no mark set
/// meanwhile: the first marked keyspace of each, and the marks before each and after the last.
pub open spec fn searches_in_turn<E>(
    searches: Seq<PendingAnswers<E>>,
    firsts: Seq<int>,
    marks: Seq<Set<Mark>>,
) -> bool {
    &&& firsts.len() == searches.len()
    &&& marks.len() == searches.len() + 1
    &&& marks[0].finite()
    &&& forall|i: int|
        #![trigger searches[i]]
        0 <= i < searches.len() ==> {
            &&& searches[i].shows(marks[i])
            &&& searches[i].first_marked(firsts[i])
            &&& searches[i].succeeds()
            &&& marks[i + 1] == searches[i].leaves(marks[i], firsts[i])
        }
}

/// One search takes one mark, if there is any.
proof fn lemma_one_search<E>(answers: PendingAnswers<E>, marks: Set<Mark>, k: int)
    requires
        answers.shows(marks),
        answers.first_marked(k),
        answers.succeeds(),
    ensures
        k < answers.keyspaces.len() <==> marks.len() > 0,
        answers.run(PendingStage::ListKeyspaces).1 == Ok::<bool, E>(marks.len() > 0),
        marks.len() > 0 ==> {
            &&& marks.contains(answers.taken(k))
            &&& answers.leaves(marks, k).len() == marks.len() - 1
            &&& answers.run(PendingStage::ListKeyspaces).0.last() == answers.taken(k).work(
                answers.memtable,
            )
            &&& (answers.taken(k) matches Mark::Compaction(keyspace) ==> !marks.contains(
                Mark::Rotation(keyspace),
            ))
        },
        marks.len() == 0 ==> answers.leaves(marks, k) == marks,
{
    crate::pending::law_pending_run(answers, k);
    if k < answers.keyspaces.len() {
        assert(answers.marked(k));
        let rotation = answers.rotation_marks[k];
        let compaction = answers.compaction_marks[k];
        assert(marks.contains(answers.taken(k)));
        let all = seq![Request::ListKeyspaces] + answers.vain_requests(0, k)
            + answers.work_requests(k);
        assert(all.last() == answers.work_requests(k).last());
    } else {
        if marks.len() > 0 {
            let mark = marks.choose();
            assert(marks.contains(mark));
            let i = choose|i: int|
                0 <= i < answers.keyspaces@.len() && answers.keyspaces@[i] == mark.keyspace();
            assert(answers.keyspaces@.contains(mark.keyspace()));
            let rotation = answers.rotation_marks[i];
            let compaction = answers.compaction_marks[i];
            assert(answers.marked(i));
        }
    }
}

/// Marks only ever go.
proof fn lemma_marks_only_go<E>(
    searches: Seq<PendingAnswers<E>>,
    firsts: Seq<int>,
    marks: Seq<Set<Mark>>,
    i: int,
    j: int,
)
    requires
        searches_in_turn(searches, firsts, marks),
        0 <= i <= j <= searches.len(),
    ensures
        marks[j].subset_of(marks[i]),
        marks[j].finite(),
        marks[j].len() == if j - i < marks[i].len() {
            marks[i].len() - (j - i)
        } else {
            0
        },
    decreases j - i,
{
    if i < j {
        lemma_marks_only_go(searches, firsts, marks, i, j - 1);
        lemma_one_search(searches[j - 1], marks[j - 1], firsts[j - 1]);
    } else if i > 0 {
        assert(searches[i - 1].shows(marks[i - 1]));
    }
}

/// A mark that is gone was taken by one of the searches in between.
proof fn lemma_gone_mark_was_taken<E>(
    searches: Seq<PendingAnswers<E>>,
    firsts: Seq<int>,
    marks: Seq<Set<Mark>>,
    mark: Mark,
    j: int,
) -> (i: int)
    requires
        searches_in_turn(searches, firsts, marks),
        0 <= j <= searches.len(),
        marks[0].contains(mark),
        !marks[j].contains(mark),
    ensures
        0 <= i < j,
        marks[i].len() > 0,
        searches[i].taken(firsts[i]) == mark,
    decreases j,
{
    lemma_one_search(searches[j - 1], marks[j - 1], firsts[j - 1]);
    if marks[j - 1].contains(mark) {
        j - 1
    } else {
        lemma_gone_mark_was_taken(searches, firsts, marks, mark, j - 1)
    }
}

/// Search after search clears all marks. With `marks[0].len()` marks at the beginning, so many
/// searches find work and each takes one mark and does what it is for; every further search
/// finds nothing. No mark is worked on twice, every mark is worked on, and a keyspace's memtable
/// is rotated before the keyspace is compacted.
pub proof fn law_searches_clear_all_marks<E>(
    searches: Seq<PendingAnswers<E>>,
    firsts: Seq<int>,
    marks: Seq<Set<Mark>>,
)
    requires
        searches_in_turn(searches, firsts, marks),
    ensures
        forall|i: int|
            #![trigger searches[i]]
            0 <= i < searches.len() ==> {
                let (requests, outcome) = searches[i].run(PendingStage::ListKeyspaces);
                &&& outcome == Ok::<bool, E>(i < marks[0].len())
                &&& i < marks[0].len() ==> {
                    &&& marks[0].contains(searches[i].taken(firsts[i]))
                    &&& requests.last() == searches[i].taken(firsts[i]).work(searches[i].memtable)
                }
                &&& marks[i].len() == if i < marks[0].len() {
                    marks[0].len() - i
                } else {
                    0
                }
            },
        forall|i: int, j: int|
            #![trigger searches[i], searches[j]]
            0 <= i < j < searches.len() && j < marks[0].len() ==> {
                &&& searches[i].taken(firsts[i]) != searches[j].taken(firsts[j])
                &&& searches[i].taken(firsts[i]) is Compaction && searches[j].taken(
                    firsts[j],
                ) is Rotation ==> searches[i].taken(firsts[i]).keyspace() != searches[j].taken(
                    firsts[j],
                ).keyspace()
            },
        searches.len() >= marks[0].len() ==> forall|mark: Mark| #[trigger]
            marks[0].contains(mark) ==> exists|i: int|
                #![trigger searches[i]]
                0 <= i < marks[0].len() && searches[i].taken(firsts[i]) == mark,
{
    let count = marks[0].len();
    assert forall|i: int|
        #![trigger searches[i]]
        0 <= i < searches.len() implies {
        let (requests, outcome) = searches[i].run(PendingStage::ListKeyspaces);
        &&& outcome == Ok::<bool, E>(i < count)
        &&& i < count ==> {
            &&& marks[0].contains(searches[i].taken(firsts[i]))
            &&& requests.last() == searches[i].taken(firsts[i]).work(searches[i].memtable)
        }
        &&& marks[i].len() == if i < count {
            count - i
        } else {
            0
        }
    } by {
        lemma_marks_only_go(searches, firsts, marks, 0, i);
        lemma_one_search(searches[i], marks[i], firsts[i]);
    }
    assert forall|i: int, j: int|
        #![trigger searches[i], searches[j]]
        0 <= i < j < searches.len() && j < count implies {
        &&& searches[i].taken(firsts[i]) != searches[j].taken(firsts[j])
        &&& searches[i].taken(firsts[i]) is Compaction && searches[j].taken(firsts[j]) is Rotation
            ==> searches[i].taken(firsts[i]).keyspace() != searches[j].taken(firsts[j]).keyspace()
    } by {
        lemma_marks_only_go(searches, firsts, marks, 0, i);
        lemma_marks_only_go(searches, firsts, marks, 0, j);
        lemma_marks_only_go(searches, firsts, marks, i + 1, j);
        lemma_marks_only_go(searches, firsts, marks, i, j);
        lemma_one_search(searches[i], marks[i], firsts[i]);
        lemma_one_search(searches[j], marks[j], firsts[j]);
        assert(!marks[i + 1].contains(searches[i].taken(firsts[i])));
        assert(marks[j].contains(searches[j].taken(firsts[j])));
        assert(marks[i].contains(searches[j].taken(firsts[j])));
    }
    if searches.len() >= count {
        lemma_marks_only_go(searches, firsts, marks, 0, count as int);
        assert forall|mark: Mark| #[trigger] marks[0].contains(mark) implies exists|i: int|
            #![trigger searches[i]]
            0 <= i < count && searches[i].taken(firsts[i]) == mark by {
            assert(!marks[count as int].contains(mark));
            let i = lemma_gone_mark_was_taken(searches, firsts, marks, mark, count as int);
            assert(searches[i].taken(firsts[i]) == mark);
        }
    }
}

} // verus!
