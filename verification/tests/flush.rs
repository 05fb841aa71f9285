use worker_pool::engine::{FlushTask, Reply, Request};
use worker_pool::flush::{process_one_flush, FlushJob, FlushStage, MAX_JOURNAL_POSITION};

const TASK: FlushTask = FlushTask { keyspace: 7 };
const MAX_JOURNALING_SIZE: u64 = 500_000_000;

/// Works off the task with an engine that fails at `failing`, if at all.
fn work_off(
    position: u64,
    disk_space: u64,
    stragglers: &[u64],
    failing: Option<Request>,
) -> (Vec<Request>, Result<(), &'static str>) {
    let mut job = FlushJob::begin(TASK, MAX_JOURNALING_SIZE);
    let mut requests = Vec::new();

    while let Some(request) = job.request() {
        requests.push(request);
        let reply = if failing == Some(request) {
            Reply::Failed("failure")
        } else {
            match request {
                Request::JournalPosition => Reply::Position(position),
                Request::JournalDiskSpace => Reply::DiskSpace(disk_space),
                Request::ListStragglers => Reply::Keyspaces(stragglers.to_vec()),
                _ => Reply::Done,
            }
        };
        job = process_one_flush(job, reply);
    }

    match job.stage {
        FlushStage::Finished(outcome) => (requests, outcome),
        _ => panic!("no request, but not finished"),
    }
}

fn plain() -> Vec<Request> {
    vec![
        Request::LockJournal,
        Request::JournalPosition,
        Request::UnlockJournal,
        Request::RunFlush(TASK),
        Request::RequestCompaction(7),
        Request::MaintainJournals,
    ]
}

#[test]
fn a_small_journal_is_not_rotated() {
    assert_eq!(MAX_JOURNAL_POSITION, 64_000_000);
    assert_eq!(work_off(0, 0, &[], None), (plain(), Ok(())));
    assert_eq!(work_off(64_000_000, 0, &[], None), (plain(), Ok(())));
}

#[test]
fn a_large_journal_is_rotated() {
    let expected = vec![
        Request::LockJournal,
        Request::JournalPosition,
        Request::LockJournalManager,
        Request::BuildSeqnoMap,
        Request::RotateJournal,
        Request::JournalDiskSpace,
        Request::UnlockJournalManager,
        Request::UnlockJournal,
        Request::RunFlush(TASK),
        Request::RequestCompaction(7),
        Request::MaintainJournals,
    ];
    assert_eq!(
        work_off(64_000_001, 499_999_999, &[1, 2], None),
        (expected, Ok(()))
    );
}

#[test]
fn stragglers_are_marked_when_the_journals_are_too_large() {
    let expected = vec![
        Request::LockJournal,
        Request::JournalPosition,
        Request::LockJournalManager,
        Request::BuildSeqnoMap,
        Request::RotateJournal,
        Request::JournalDiskSpace,
        Request::ListStragglers,
        Request::RequestRotation(3),
        Request::RequestRotation(1),
        Request::RequestRotation(9),
        Request::UnlockJournalManager,
        Request::UnlockJournal,
        Request::RunFlush(TASK),
        Request::RequestCompaction(7),
        Request::MaintainJournals,
    ];
    assert_eq!(
        work_off(70_000_000, 500_000_000, &[3, 1, 9], None),
        (expected, Ok(()))
    );
}

#[test]
fn there_may_be_no_straggler() {
    let (requests, outcome) = work_off(70_000_000, 600_000_000, &[], None);
    assert_eq!(outcome, Ok(()));
    assert_eq!(requests[6], Request::ListStragglers);
    assert_eq!(requests[7], Request::UnlockJournalManager);
}

#[test]
fn a_failure_to_lock_the_journal_ends_the_work() {
    assert_eq!(
        work_off(0, 0, &[], Some(Request::LockJournal)),
        (vec![Request::LockJournal], Err("failure"))
    );
}

#[test]
fn a_failure_to_read_the_position_unlocks_the_journal() {
    assert_eq!(
        work_off(0, 0, &[], Some(Request::JournalPosition)),
        (
            vec![
                Request::LockJournal,
                Request::JournalPosition,
                Request::UnlockJournal,
            ],
            Err("failure")
        )
    );
}

#[test]
fn a_failure_to_rotate_the_journal_unlocks_both() {
    assert_eq!(
        work_off(70_000_000, 600_000_000, &[1], Some(Request::RotateJournal)),
        (
            vec![
                Request::LockJournal,
                Request::JournalPosition,
                Request::LockJournalManager,
                Request::BuildSeqnoMap,
                Request::RotateJournal,
                Request::UnlockJournalManager,
                Request::UnlockJournal,
            ],
            Err("failure")
        )
    );
}

#[test]
fn a_failed_flush_marks_nothing_for_compaction() {
    assert_eq!(
        work_off(0, 0, &[], Some(Request::RunFlush(TASK))),
        (plain()[..4].to_vec(), Err("failure"))
    );
}

#[test]
fn a_failed_maintenance_fails_the_work() {
    assert_eq!(
        work_off(0, 0, &[], Some(Request::MaintainJournals)),
        (plain(), Err("failure"))
    );
}

#[test]
fn a_reply_to_something_else_leaves_the_request_open() {
    let job = FlushJob::<()>::begin(TASK, MAX_JOURNALING_SIZE);
    let job = process_one_flush(job, Reply::Position(1));
    assert_eq!(job.request(), Some(Request::LockJournal));
}
