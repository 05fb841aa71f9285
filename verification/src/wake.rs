//! The line over which idle workers are woken: a channel with room for one wake.

use crate::channel::Ends;
use vstd::prelude::*;

verus! {

/// What became of a wake that was put on the line.
#[derive(Debug, Clone, Copy, PartialEq, Eq, Structural)]
pub enum Offer {
    /// It is on the line, or with a worker already.
    Taken,
    /// It was dropped, because a wake is on the line already.
    Full,
    /// It was dropped, because nobody can receive it any more.
    Closed,
}

/// Something done over the line.
#[derive(Debug, Clone, Copy, PartialEq, Eq, Structural)]
pub enum WakeOp {
    /// A wake was put on the line, with this outcome.
    Offered(Offer),
    /// A wake was waited for. `closed` tells that none can come any more.
    Awaited { closed: bool },
    /// Another holder of the line was made.
    Shared,
}

/// How many wakes are on a line after these things were done over it, by all its holders, in the
/// order in which they took effect.
pub open spec fn pending(history: Seq<WakeOp>) -> int
    decreases history.len(),
{
    if history.len() == 0 {
        0
    } else {
        pending(history.drop_last()) + match history.last() {
            WakeOp::Offered(Offer::Taken) => 1int,
            WakeOp::Awaited { closed: false } => -1int,
            _ => 0int,
        }
    }
}

/// Whether these things can have been done over a line with this much room, by all its holders,
/// in this order: a wake is taken if and only if there is room for it, and waiting is over only
/// if there is a wake.
pub open spec fn legal(room: nat, history: Seq<WakeOp>) -> bool
    decreases history.len(),
{
    history.len() == 0 || {
        let before = history.drop_last();
        &&& legal(room, before)
        &&& match history.last() {
            WakeOp::Offered(Offer::Taken) => pending(before) < room,
            WakeOp::Offered(Offer::Full) => pending(before) >= room,
            WakeOp::Offered(Offer::Closed) => false,
            WakeOp::Awaited { closed } => !closed && pending(before) > 0,
            WakeOp::Shared => true,
        }
    }
}

/// A holder of both ends of the line over which idle workers are woken.
///
/// The line is shared between threads, so in general no holder knows whether a wake is on it.
/// What a holder does know is what it did itself: the view is the sequence of things done over
/// the line by this holder, oldest first. As long as there never was another holder, that is all
/// that was done over the line.
pub struct WakeLine {
    ends: Ends,
}

impl View for WakeLine {
    type V = Seq<WakeOp>;

    closed spec fn view(&self) -> Seq<WakeOp> {
        self.ends.done()
    }
}

impl WakeLine {
    #[verifier::type_invariant]
    spec fn valid(self) -> bool {
        &&& self.ends.room() == Some(1nat)
        &&& self.ends.sole() ==> legal(1, self.ends.done())
    }

    /// The end that wakes are put on.
    pub closed spec fn sender(&self) -> flume::Sender<()> {
        self.ends.sender()
    }

    /// The end that wakes are taken from.
    pub closed spec fn receiver(&self) -> flume::Receiver<()> {
        self.ends.receiver()
    }

    /// Whether there never was another holder of the line.
    pub closed spec fn sole(&self) -> bool {
        self.ends.sole()
    }

    /// Whether this is a holder of the same line.
    pub open spec fn same_line(&self, other: &WakeLine) -> bool {
        &&& self.sender() == other.sender()
        &&& self.receiver() == other.receiver()
    }

    /// How many wakes the line holds.
    pub open spec fn room(&self) -> Option<nat> {
        crate::channel::room_between(self.sender(), self.receiver())
    }

    /// Whether the holder did one thing over the line, and nothing else. Where there never was
    /// another holder, it came out as the history of the line wants it.
    pub open spec fn did(&self, before: &WakeLine, op: WakeOp) -> bool {
        &&& self.same_line(before)
        &&& self.sole() == before.sole()
        &&& self@ == before@.push(op)
        &&& self.sole() ==> legal(1, self@)
    }

    /// Opens a line for one wake. There is none on it, and nobody else holds it.
    pub fn open() -> (line: WakeLine)
        ensures
            line.room() == Some(1nat),
            line.sole(),
            line@ == Seq::<WakeOp>::empty(),
    {
        WakeLine { ends: Ends::bounded(1) }
    }

    /// Another holder of the same line, which has done nothing yet.
    pub fn share(&mut self) -> (line: WakeLine)
        ensures
            final(self).same_line(old(self)),
            final(self).sender() == old(self).sender(),
            final(self).receiver() == old(self).receiver(),
            !final(self).sole(),
            final(self)@ == old(self)@.push(WakeOp::Shared),
            line.same_line(old(self)),
            line.sender() == old(self).sender(),
            line.receiver() == old(self).receiver(),
            !line.sole(),
            line@ == Seq::<WakeOp>::empty(),
    {
        proof {
            use_type_invariant(&*self);
        }
        WakeLine { ends: self.ends.share() }
    }

    /// Puts a wake on the line. The line has room for one; an extra wake is dropped. Where there
    /// are other holders, whether it is an extra one is up to them too.
    pub fn poke(&mut self) -> (offer: Offer)
        ensures
            final(self).did(old(self), WakeOp::Offered(offer)),
            final(self)@ == old(self)@.push(WakeOp::Offered(offer)),
            final(self).sender() == old(self).sender(),
            final(self).receiver() == old(self).receiver(),
            offer is Taken || offer is Full,
            old(self).sole() ==> offer == if pending(old(self)@) == 0 {
                Offer::Taken
            } else {
                Offer::Full
            },
        no_unwind
    {
        proof {
            use_type_invariant(&*self);
            lemma_next_offer(self@);
        }
        self.ends.try_send()
    }

    /// Waits until there is a wake on the line and takes it. Returns whether the line is
    /// closed, so that no wake can come any more; it is open as long as it has a holder. How long
    /// it waits is up to the other holders.
    pub fn wait(&mut self) -> (closed: bool)
        requires
            old(self).sole() ==> pending(old(self)@) > 0,
        ensures
            final(self).did(old(self), WakeOp::Awaited { closed }),
            final(self)@ == old(self)@.push(WakeOp::Awaited { closed: false }),
            final(self).sender() == old(self).sender(),
            final(self).receiver() == old(self).receiver(),
            !closed,
        no_unwind
    {
        proof {
            use_type_invariant(&*self);
            assert(self@.push(WakeOp::Awaited { closed: false }).drop_last() == self@);
        }
        self.ends.recv()
    }
}

/// How the next offer can come out on a line for one wake.
proof fn lemma_next_offer(history: Seq<WakeOp>)
    ensures
        legal(1, history) ==> {
            &&& 0 <= pending(history) <= 1
            &&& legal(1, history.push(WakeOp::Offered(Offer::Taken))) <==> pending(history) == 0
            &&& legal(1, history.push(WakeOp::Offered(Offer::Full))) <==> pending(history) == 1
        },
{
    if legal(1, history) {
        lemma_pending_bounds(1, history);
        assert(history.push(WakeOp::Offered(Offer::Taken)).drop_last() == history);
        assert(history.push(WakeOp::Offered(Offer::Full)).drop_last() == history);
    }
}

proof fn lemma_pending_bounds(room: nat, history: Seq<WakeOp>)
    requires
        legal(room, history),
    ensures
        0 <= pending(history) <= room,
    decreases history.len(),
{
    if history.len() > 0 {
        lemma_pending_bounds(room, history.drop_last());
    }
}

/// At every moment there are at most as many wakes on a line as it has room for: none or one on
/// a line with room for one.
pub proof fn law_wakes_fit_the_line(room: nat, history: Seq<WakeOp>, n: int)
    requires
        legal(room, history),
        0 <= n <= history.len(),
    ensures
        legal(room, history.take(n)),
        0 <= pending(history.take(n)) <= room,
    decreases history.len() - n,
{
    if n == history.len() {
        assert(history.take(n) == history);
    } else {
        law_wakes_fit_the_line(room, history, n + 1);
        assert(history.take(n + 1).drop_last() == history.take(n));
    }
    lemma_pending_bounds(room, history.take(n));
}

/// Extra pokes are dropped: on a line with room for one wake, one poke or more with no wait
/// between them, by whichever holders, leave exactly one wake on the line. The first of them is
/// taken if and only if there was none, and all others find the line full.
pub proof fn law_extra_pokes_are_dropped(history: Seq<WakeOp>, pokes: Seq<WakeOp>)
    requires
        pokes.len() > 0,
        forall|i: int| 0 <= i < pokes.len() ==> #[trigger] pokes[i] is Offered,
        legal(1, history + pokes),
    ensures
        pending(history + pokes) == 1,
        pokes[0] == WakeOp::Offered(
            if pending(history) == 0 {
                Offer::Taken
            } else {
                Offer::Full
            },
        ),
        forall|i: int|
            0 < i < pokes.len() ==> #[trigger] pokes[i] == WakeOp::Offered(Offer::Full),
    decreases pokes.len(),
{
    let rest = pokes.drop_last();
    let whole = history + pokes;
    assert(whole.drop_last() == history + rest);
    assert(whole.last() == pokes.last());
    assert(pokes[pokes.len() - 1] is Offered);
    lemma_pending_bounds(1, history + rest);
    if rest.len() == 0 {
        assert(history + rest == history);
    } else {
        assert(forall|i: int| 0 <= i < rest.len() ==> #[trigger] rest[i] == pokes[i]);
        law_extra_pokes_are_dropped(history, rest);
        assert forall|i: int| 0 < i < pokes.len() implies #[trigger] pokes[i] == WakeOp::Offered(
            Offer::Full,
        ) by {
            if i < rest.len() {
                assert(rest[i] == pokes[i]);
            }
        }
        assert(rest[0] == pokes[0]);
    }
}

/// A poke after a wait is kept: on a line with room for one wake, once a wake was taken from the
/// line there is none on it, and the next poke puts one there.
pub proof fn law_poke_after_wait_is_kept(history: Seq<WakeOp>, closed: bool, offer: Offer)
    requires
        legal(1, history.push(WakeOp::Awaited { closed }).push(WakeOp::Offered(offer))),
    ensures
        pending(history.push(WakeOp::Awaited { closed })) == 0,
        offer is Taken,
        pending(history.push(WakeOp::Awaited { closed }).push(WakeOp::Offered(offer))) == 1,
{
    let waited = history.push(WakeOp::Awaited { closed });
    let poked = waited.push(WakeOp::Offered(offer));
    assert(poked.drop_last() == waited);
    assert(waited.drop_last() == history);
    assert(legal(1, poked) && legal(1, waited));
    lemma_pending_bounds(1, history);
}

} // verus!
