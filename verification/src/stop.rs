//! The signal by which the database tells its workers to stop.

use vstd::prelude::*;

verus! {

/// The stop signal of `lsm_tree`, opaque here.
#[verifier::external_type_specification]
#[verifier::external_body]
pub struct ExStopSignal(lsm_tree::stop_signal::StopSignal);

/// `Clone` of `lsm_tree::stop_signal::StopSignal` gives another handle on the same signal. Two
/// such handles do the same, so they are equal here.
pub assume_specification[ <lsm_tree::stop_signal::StopSignal as Clone>::clone ](
    signal: &lsm_tree::stop_signal::StopSignal,
) -> (clone: lsm_tree::stop_signal::StopSignal)
    ensures
        clone == *signal,
;

/// A reader of the stop signal.
///
/// The signal is sent by another thread, so what a reading gives is up to that thread. The
/// view is the sequence of readings made by this reader, oldest first.
pub struct StopFlag {
    signal: lsm_tree::stop_signal::StopSignal,
    readings: Ghost<Seq<bool>>,
}

impl View for StopFlag {
    type V = Seq<bool>;

    closed spec fn view(&self) -> Seq<bool> {
        self.readings@
    }
}

impl StopFlag {
    /// The signal that is read.
    pub closed spec fn signal(&self) -> lsm_tree::stop_signal::StopSignal {
        self.signal
    }

    /// A reader of `signal` that has not read it yet.
    pub fn new(signal: &lsm_tree::stop_signal::StopSignal) -> (flag: StopFlag)
        ensures
            flag.signal() == *signal,
            flag@ == Seq::<bool>::empty(),
    {
        StopFlag { signal: signal.clone(), readings: Ghost(Seq::empty()) }
    }

    /// `lsm_tree::stop_signal::StopSignal::is_stopped` tells whether the signal has been sent
    /// by now. A signal that was sent stays sent: there is nothing that takes it back.
    #[verifier::external_body]
    pub(crate) fn is_stopped(&mut self) -> (stopped: bool)
        ensures
            final(self)@ == old(self)@.push(stopped),
            final(self).signal() == old(self).signal(),
            old(self)@.contains(true) ==> stopped,
        no_unwind
    {
        self.signal.is_stopped()
    }
}

} // verus!
