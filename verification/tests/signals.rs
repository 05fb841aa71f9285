use lsm_tree::stop_signal::StopSignal;
use worker_pool::tick::WorkerState;
use worker_pool::wake::{Offer, WakeLine};

#[test]
fn the_line_has_room_for_one_wake() {
    let mut line = WakeLine::open();

    assert_eq!(line.poke(), Offer::Taken);
    assert_eq!(line.poke(), Offer::Full);
    assert_eq!(line.poke(), Offer::Full);

    assert!(!line.wait());
    assert_eq!(line.poke(), Offer::Taken);
}

#[test]
fn holders_share_one_line() {
    let mut line = WakeLine::open();
    let mut other = line.share();

    assert_eq!(other.poke(), Offer::Taken);
    assert_eq!(line.poke(), Offer::Full);
    assert!(!line.wait());
    assert_eq!(other.poke(), Offer::Taken);
}

#[test]
fn lines_are_separate() {
    let mut line = WakeLine::open();
    let mut other = WakeLine::open();

    assert_eq!(line.poke(), Offer::Taken);
    assert_eq!(other.poke(), Offer::Taken);
}

#[test]
fn a_worker_reads_the_signal_it_was_made_for() {
    let signal = StopSignal::default();
    let mut line = WakeLine::open();
    let mut worker = WorkerState::new(&mut line, &signal, 0);
    let mut stranger = WorkerState::new(&mut line, &StopSignal::default(), 0);

    assert!(!worker.is_stopped());
    signal.send();
    assert!(worker.is_stopped());
    assert!(worker.is_stopped());
    assert!(!stranger.is_stopped());
}

#[test]
fn a_line_that_nobody_else_holds_has_none_or_one_wake() {
    let mut line = WakeLine::open();
    for _ in 0..3 {
        assert_eq!(line.poke(), Offer::Taken);
        assert_eq!(line.poke(), Offer::Full);
        assert_eq!(line.poke(), Offer::Full);
        assert!(!line.wait());
    }
    assert_eq!(line.poke(), Offer::Taken);

    let mut other = line.share();
    assert_eq!(other.poke(), Offer::Full);
    assert!(!line.wait());
    assert_eq!(other.poke(), Offer::Taken);
    assert_eq!(line.poke(), Offer::Full);
}
