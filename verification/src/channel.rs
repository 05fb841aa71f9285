//! The channel of a wake line: what is believed of `flume`, with a record of its use.
//!
//! The record is out of reach from elsewhere: it grows by the calls into `flume` below, and in no
//! other way.

use crate::wake::{Offer, WakeOp};
use vstd::prelude::*;

verus! {

/// The sending end of a `flume` channel, opaque here.
#[verifier::external_type_specification]
#[verifier::external_body]
#[verifier::reject_recursive_types(T)]
pub struct ExSender<T>(flume::Sender<T>);

/// The receiving end of a `flume` channel, opaque here.
#[verifier::external_type_specification]
#[verifier::external_body]
#[verifier::reject_recursive_types(T)]
pub struct ExReceiver<T>(flume::Receiver<T>);

/// How many messages the channel holds whose two ends these are. `None` where they are not
/// the two ends of one bounded channel.
pub uninterp spec fn room_between(
    sender: flume::Sender<()>,
    receiver: flume::Receiver<()>,
) -> Option<nat>;

/// A holder of both ends of a channel.
pub struct Ends {
    sender: flume::Sender<()>,
    receiver: flume::Receiver<()>,
    done: Ghost<Seq<WakeOp>>,
    sole: Ghost<bool>,
}

impl Ends {
    /// The sending end.
    pub closed spec fn sender(&self) -> flume::Sender<()> {
        self.sender
    }

    /// The receiving end.
    pub closed spec fn receiver(&self) -> flume::Receiver<()> {
        self.receiver
    }

    /// What was done over the channel by this holder, oldest first.
    pub closed spec fn done(&self) -> Seq<WakeOp> {
        self.done@
    }

    /// Whether there never was another holder of the channel, so that all that was done over it
    /// was done by this one.
    pub closed spec fn sole(&self) -> bool {
        self.sole@
    }

    /// How many messages the channel holds.
    pub open spec fn room(&self) -> Option<nat> {
        room_between(self.sender(), self.receiver())
    }

    /// Whether these are the ends of the same channel.
    pub open spec fn same_ends(&self, other: &Ends) -> bool {
        &&& self.sender() == other.sender()
        &&& self.receiver() == other.receiver()
    }

    /// `flume::bounded` makes a new channel for at most `cap` messages, with none on it, and
    /// returns its two ends, which nobody else holds.
    #[verifier::external_body]
    pub(crate) fn bounded(cap: usize) -> (ends: Ends)
        ensures
            room_between(ends.sender(), ends.receiver()) == Some(cap as nat),
            ends.done() == Seq::<WakeOp>::empty(),
            ends.sole(),
    {
        let (sender, receiver) = flume::bounded(cap);
        Ends { sender, receiver, done: Ghost(Seq::empty()), sole: Ghost(true) }
    }

    /// `Clone` of `flume::Sender` and of `flume::Receiver` gives other handles on the two ends
    /// of the same channel. Such handles do the same as the first ones, so they are equal here.
    /// From then on there is another holder, of whom nothing is known here.
    #[verifier::external_body]
    pub(crate) fn share(&mut self) -> (other: Ends)
        ensures
            final(self).same_ends(old(self)),
            final(self).done() == old(self).done().push(WakeOp::Shared),
            !final(self).sole(),
            other.same_ends(old(self)),
            other.done() == Seq::<WakeOp>::empty(),
            !other.sole(),
        no_unwind
    {
        Ends {
            sender: self.sender.clone(),
            receiver: self.receiver.clone(),
            done: Ghost(Seq::empty()),
            sole: Ghost(false),
        }
    }

    /// `flume::Sender::try_send` puts one message on the channel if there is room or somebody
    /// waits for it, and reports whether it did; it never waits. Whether there is room is up
    /// to the other holders of the channel; where there never was one, nobody waits, and there
    /// is room if and only if fewer messages are left on the channel, by what was done over it,
    /// than it holds. The channel is closed only when one of its ends has no handle left, so not
    /// as long as `self` holds both ends of one channel.
    #[verifier::external_body]
    pub(crate) fn try_send(&mut self) -> (offer: Offer)
        ensures
            final(self).same_ends(old(self)),
            final(self).done() == old(self).done().push(WakeOp::Offered(offer)),
            final(self).sole() == old(self).sole(),
            old(self).room() is Some ==> !(offer is Closed),
            old(self).sole() && old(self).room() is Some ==> {
                offer is Taken <==> crate::wake::pending(old(self).done()) < old(self).room()->0
            },
        no_unwind
    {
        match self.sender.try_send(()) {
            Ok(()) => Offer::Taken,
            Err(flume::TrySendError::Full(())) => Offer::Full,
            Err(flume::TrySendError::Disconnected(())) => Offer::Closed,
        }
    }

    /// `flume::Receiver::recv` waits for a message and takes it from the channel. It fails
    /// only if the channel is closed, which it is not as long as `self` holds both ends of one
    /// channel. How long it waits is up to the other holders of the channel; where there never
    /// was one, nobody could end the wait, so a message has to be there.
    #[verifier::external_body]
    pub(crate) fn recv(&mut self) -> (closed: bool)
        requires
            old(self).sole() ==> crate::wake::pending(old(self).done()) > 0,
        ensures
            final(self).same_ends(old(self)),
            final(self).done() == old(self).done().push(WakeOp::Awaited { closed }),
            final(self).sole() == old(self).sole(),
            old(self).room() is Some ==> !closed,
        no_unwind
    {
        self.receiver.recv().is_err()
    }
}

} // verus!
