use worker_pool::engine::{Reply, Request};
use worker_pool::pending::{run_pending_keyspace_work, PendingStage};

/// Searches the keyspaces with an engine that fails at `failing`, if at all.
fn search(
    keyspaces: &[u64],
    rotate: &[u64],
    compact: &[u64],
    failing: Option<Request>,
) -> (Vec<Request>, Result<bool, &'static str>) {
    let mut stage = PendingStage::ListKeyspaces;
    let mut requests = Vec::new();

    while let Some(request) = stage.request() {
        requests.push(request);
        let reply = if failing == Some(request) {
            Reply::Failed("failure")
        } else {
            match request {
                Request::ListKeyspaces => Reply::Keyspaces(keyspaces.to_vec()),
                Request::TakeRotationMark(keyspace) => Reply::Pending(rotate.contains(&keyspace)),
                Request::TakeCompactionMark(keyspace) => {
                    Reply::Pending(compact.contains(&keyspace))
                }
                Request::ActiveMemtable(keyspace) => Reply::Memtable(100 + keyspace),
                _ => Reply::Done,
            }
        };
        stage = run_pending_keyspace_work(stage, reply);
    }

    match stage {
        PendingStage::Finished(outcome) => (requests, outcome),
        _ => panic!("no request, but not finished"),
    }
}

#[test]
fn no_keyspace_no_work() {
    assert_eq!(
        search(&[], &[], &[], None),
        (vec![Request::ListKeyspaces], Ok(false))
    );
}

#[test]
fn all_marks_are_looked_at_when_there_is_none() {
    assert_eq!(
        search(&[5, 4], &[], &[], None),
        (
            vec![
                Request::ListKeyspaces,
                Request::TakeRotationMark(5),
                Request::TakeCompactionMark(5),
                Request::TakeRotationMark(4),
                Request::TakeCompactionMark(4),
            ],
            Ok(false)
        )
    );
}

#[test]
fn rotation_comes_before_compaction() {
    assert_eq!(
        search(&[5, 4, 3], &[4, 3], &[4], None),
        (
            vec![
                Request::ListKeyspaces,
                Request::TakeRotationMark(5),
                Request::TakeCompactionMark(5),
                Request::TakeRotationMark(4),
                Request::LockJournal,
                Request::ActiveMemtable(4),
                Request::RotateMemtable {
                    keyspace: 4,
                    memtable: 104,
                },
            ],
            Ok(true)
        )
    );
}

#[test]
fn only_the_first_marked_keyspace_is_compacted() {
    assert_eq!(
        search(&[5, 4], &[4], &[5], None),
        (
            vec![
                Request::ListKeyspaces,
                Request::TakeRotationMark(5),
                Request::TakeCompactionMark(5),
                Request::RunCompaction(5),
            ],
            Ok(true)
        )
    );
}

#[test]
fn failures_end_the_search() {
    let (requests, outcome) = search(&[5], &[5], &[], Some(Request::LockJournal));
    assert_eq!(outcome, Err("failure"));
    assert_eq!(requests.last(), Some(&Request::LockJournal));

    let rotate = Request::RotateMemtable {
        keyspace: 5,
        memtable: 105,
    };
    let (requests, outcome) = search(&[5], &[5], &[], Some(rotate));
    assert_eq!(outcome, Err("failure"));
    assert_eq!(requests.last(), Some(&rotate));

    let (requests, outcome) = search(&[5], &[], &[5], Some(Request::RunCompaction(5)));
    assert_eq!(outcome, Err("failure"));
    assert_eq!(requests.last(), Some(&Request::RunCompaction(5)));
}

#[test]
fn search_after_search_clears_all_marks() {
    let mut rotate = vec![4, 5];
    let mut compact = vec![3, 4];
    let mut work = Vec::new();
    for i in 0..6 {
        let (requests, outcome) = search(&[5, 4, 3], &rotate, &compact, None);
        assert_eq!(outcome, Ok(i < 4));
        match requests.last() {
            Some(Request::RotateMemtable { keyspace, .. }) => {
                rotate.retain(|k| k != keyspace);
                work.push(("rotate", *keyspace));
            }
            Some(Request::RunCompaction(keyspace)) => {
                compact.retain(|k| k != keyspace);
                work.push(("compact", *keyspace));
            }
            _ => {}
        }
    }
    assert_eq!(
        work,
        vec![("rotate", 5), ("rotate", 4), ("compact", 4), ("compact", 3)]
    );
}
