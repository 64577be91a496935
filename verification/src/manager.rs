//! The messages of the internal broadcast bus, and what a subscriber makes of
//! them.
//!
//! The bus fans every message out to every subscriber. A subscriber that falls
//! too far behind loses the oldest messages and is told how many; the reserved
//! `Stop` message ends a subscriber for good. The bus itself is a channel that
//! its driver owns. What is decided here is how a subscriber answers each thing
//! that one read of the bus can give.

use vstd::prelude::*;

verus! {

/// A control message of the bus.
#[derive(Clone, Copy, Debug, PartialEq, Eq, Structural)]
pub enum ManagerAction {
    /// Every subscriber is to unwind its loop.
    Stop,
}

/// What travels on the bus: a payload or a control message.
#[derive(Clone, Copy, Debug, PartialEq, Eq)]
pub enum ManagerMessage<T> {
    Message(T),
    Action(ManagerAction),
}

/// What one read of the bus gave.
#[derive(Clone, Copy, Debug, PartialEq, Eq)]
pub enum Received<T> {
    /// The next message.
    Message(ManagerMessage<T>),
    /// This many messages were dropped before the subscriber could read them.
    Lagged(u64),
    /// Every sender is gone: no message will come any more.
    Closed,
}

/// What a subscriber's loop does with what it read.
#[derive(Clone, Copy, Debug, PartialEq, Eq)]
pub enum Delivery<T> {
    /// A payload to act on.
    Message(T),
    /// Messages were lost, this many: the loop goes on, knowing it.
    Missed(u64),
    /// The stop message arrived: unwind.
    Stop,
    /// The bus is closed: unwind.
    Closed,
    /// The subscriber had already ended: what was read is dropped.
    Ended,
}

impl<T> Received<T> {
    /// Whether this ends a subscriber.
    pub open spec fn is_final(self) -> bool {
        self == Received::<T>::Message(ManagerMessage::Action(ManagerAction::Stop)) || self
            == Received::<T>::Closed
    }

    /// What a subscriber that has not ended makes of this.
    pub open spec fn delivery(self) -> Delivery<T> {
        match self {
            Received::Message(ManagerMessage::Message(payload)) => Delivery::Message(payload),
            Received::Message(ManagerMessage::Action(ManagerAction::Stop)) => Delivery::Stop,
            Received::Lagged(missed) => Delivery::Missed(missed),
            Received::Closed => Delivery::Closed,
        }
    }
}

/// The message that stops every subscriber.
pub fn stop_message<T>() -> (message: ManagerMessage<T>)
    ensures
        message == ManagerMessage::<T>::Action(ManagerAction::Stop),
{
    ManagerMessage::Action(ManagerAction::Stop)
}

/// One subscriber's side of the bus: whether it has ended.
#[derive(Clone, Copy, Debug)]
pub struct Subscriber {
    ended: bool,
}

impl View for Subscriber {
    type V = bool;

    /// Whether the subscriber has ended.
    closed spec fn view(&self) -> bool {
        self.ended
    }
}

/// What a subscriber, ended or not, makes of what it read.
pub open spec fn spec_take<T>(ended: bool, received: Received<T>) -> Delivery<T> {
    if ended {
        Delivery::Ended
    } else {
        received.delivery()
    }
}

/// Whether a subscriber has ended after it took `received`.
pub open spec fn spec_ended_after<T>(ended: bool, received: Received<T>) -> bool {
    ended || received.is_final()
}

/// What a subscriber that starts as `ended` says makes of a whole run of reads,
/// one delivery for each read.
pub open spec fn spec_take_all<T>(ended: bool, run: Seq<Received<T>>) -> Seq<Delivery<T>>
    decreases run.len(),
{
    if run.len() == 0 {
        Seq::empty()
    } else {
        spec_take_all(ended, run.drop_last()).push(
            spec_take(spec_ended_after_all(ended, run.drop_last()), run.last()),
        )
    }
}

/// Whether a subscriber that starts as `ended` says has ended after a whole
/// run of reads.
pub open spec fn spec_ended_after_all<T>(ended: bool, run: Seq<Received<T>>) -> bool
    decreases run.len(),
{
    if run.len() == 0 {
        ended
    } else {
        spec_ended_after(spec_ended_after_all(ended, run.drop_last()), run.last())
    }
}

/// How many of `deliveries` are the stop message.
pub open spec fn spec_stops<T>(deliveries: Seq<Delivery<T>>) -> nat
    decreases deliveries.len(),
{
    if deliveries.len() == 0 {
        0
    } else if deliveries.last() == Delivery::<T>::Stop {
        spec_stops(deliveries.drop_last()) + 1
    } else {
        spec_stops(deliveries.drop_last())
    }
}

impl Subscriber {
    /// A subscriber that has not ended.
    pub fn new() -> (subscriber: Subscriber)
        ensures
            !subscriber@,
    {
        Subscriber { ended: false }
    }

    /// Whether the subscriber has ended.
    pub fn is_ended(&self) -> (ended: bool)
        ensures
            ended == self@,
    {
        self.ended
    }

    /// Takes what one read of the bus gave and says what the loop does with it.
    /// A payload is passed on; lost messages are reported, never skipped in
    /// silence; the stop message and a closed bus end the subscriber; and once
    /// it has ended, nothing is passed on any more.
    pub fn take<T>(&mut self, received: Received<T>) -> (delivery: Delivery<T>)
        ensures
            delivery == spec_take(old(self)@, received),
            final(self)@ == spec_ended_after(old(self)@, received),
    {
        if self.ended {
            return Delivery::Ended;
        }
        match received {
            Received::Message(ManagerMessage::Message(payload)) => Delivery::Message(payload),
            Received::Message(ManagerMessage::Action(ManagerAction::Stop)) => {
                self.ended = true;
                Delivery::Stop
            },
            Received::Lagged(missed) => Delivery::Missed(missed),
            Received::Closed => {
                self.ended = true;
                Delivery::Closed
            },
        }
    }
}

/// One delivery comes of every read, and a subscriber that has ended stays
/// ended.
pub proof fn lemma_take_all_shape<T>(ended: bool, run: Seq<Received<T>>)
    ensures
        spec_take_all(ended, run).len() == run.len(),
        ended ==> spec_ended_after_all(ended, run),
        ended ==> forall|i: int|
            0 <= i < run.len() ==> #[trigger] spec_take_all(ended, run)[i] == Delivery::<T>::Ended,
        ended ==> spec_stops(spec_take_all(ended, run)) == 0,
    decreases run.len(),
{
    if run.len() > 0 {
        lemma_take_all_shape(ended, run.drop_last());
        assert(spec_take_all(ended, run).drop_last() =~= spec_take_all(ended, run.drop_last()));
    }
}

/// A run taken in two parts gives the deliveries of the first part and then
/// those of the second, taken by the subscriber as the first part left it.
pub proof fn lemma_take_all_resumes<T>(ended: bool, first: Seq<Received<T>>, second: Seq<Received<T>>)
    ensures
        spec_ended_after_all(ended, first + second) == spec_ended_after_all(
            spec_ended_after_all(ended, first),
            second,
        ),
        spec_take_all(ended, first + second) == spec_take_all(ended, first) + spec_take_all(
            spec_ended_after_all(ended, first),
            second,
        ),
    decreases second.len(),
{
    let middle = spec_ended_after_all(ended, first);
    if second.len() == 0 {
        assert(first + second =~= first);
        assert(spec_take_all(ended, first) + spec_take_all(middle, second) =~= spec_take_all(
            ended,
            first,
        ));
    } else {
        lemma_take_all_resumes(ended, first, second.drop_last());
        assert((first + second).drop_last() =~= first + second.drop_last());
        assert((first + second).last() == second.last());
        assert(spec_take_all(ended, first + second) =~= spec_take_all(ended, first)
            + spec_take_all(middle, second));
    }
}

/// Counting the stop deliveries of two runs laid end to end is adding the
/// counts.
pub proof fn lemma_stops_add<T>(first: Seq<Delivery<T>>, second: Seq<Delivery<T>>)
    ensures
        spec_stops(first + second) == spec_stops(first) + spec_stops(second),
    decreases second.len(),
{
    if second.len() == 0 {
        assert(first + second =~= first);
    } else {
        lemma_stops_add(first, second.drop_last());
        assert((first + second).drop_last() =~= first + second.drop_last());
        assert((first + second).last() == second.last());
    }
}

/// Until something final is read, a subscriber passes on everything that it
/// reads, payloads and losses alike, in the order read.
pub proof fn lemma_nothing_is_skipped<T>(run: Seq<Received<T>>)
    requires
        forall|i: int| 0 <= i < run.len() ==> !(#[trigger] run[i]).is_final(),
    ensures
        !spec_ended_after_all(false, run),
        spec_take_all(false, run).len() == run.len(),
        forall|i: int|
            0 <= i < run.len() ==> #[trigger] spec_take_all(false, run)[i] == run[i].delivery(),
        spec_stops(spec_take_all(false, run)) == 0,
    decreases run.len(),
{
    if run.len() > 0 {
        lemma_nothing_is_skipped(run.drop_last());
        assert(spec_take_all(false, run).drop_last() =~= spec_take_all(false, run.drop_last()));
        assert(!run.last().is_final());
    }
}

/// Whatever a subscriber reads, it sees the stop message at most once.
pub proof fn lemma_stop_seen_at_most_once<T>(ended: bool, run: Seq<Received<T>>)
    ensures
        spec_stops(spec_take_all(ended, run)) <= 1,
        spec_stops(spec_take_all(ended, run)) == 1 ==> spec_ended_after_all(ended, run),
    decreases run.len(),
{
    if run.len() > 0 {
        lemma_stop_seen_at_most_once(ended, run.drop_last());
        lemma_take_all_shape(ended, run.drop_last());
        assert(spec_take_all(ended, run).drop_last() =~= spec_take_all(ended, run.drop_last()));
    }
}

/// Once the stop message comes out of the bus, the subscriber sees it exactly
/// once: everything read before it was passed on, the stop message is
/// delivered when it is read, and whatever is read after it is dropped.
pub proof fn lemma_stop_seen_exactly_once<T>(before: Seq<Received<T>>, after: Seq<Received<T>>)
    requires
        forall|i: int| 0 <= i < before.len() ==> !(#[trigger] before[i]).is_final(),
    ensures
        ({
            let stop = Received::<T>::Message(ManagerMessage::Action(ManagerAction::Stop));
            let deliveries = spec_take_all(false, before.push(stop) + after);
            &&& deliveries.len() == before.len() + 1 + after.len()
            &&& spec_stops(deliveries) == 1
            &&& deliveries[before.len() as int] == Delivery::<T>::Stop
            &&& forall|i: int| 0 <= i < before.len() ==> #[trigger] deliveries[i] == before[i].delivery()
            &&& forall|i: int|
                before.len() < i < deliveries.len() ==> #[trigger] deliveries[i]
                    == Delivery::<T>::Ended
        }),
{
    let stop = Received::<T>::Message(ManagerMessage::Action(ManagerAction::Stop));
    let head = before.push(stop);
    lemma_nothing_is_skipped(before);
    assert(head.drop_last() =~= before);
    assert(head.last() == stop);
    let head_deliveries = spec_take_all(false, head);
    assert(head_deliveries == spec_take_all(false, before).push(Delivery::<T>::Stop));
    assert(head_deliveries.drop_last() =~= spec_take_all(false, before));
    assert(spec_stops(head_deliveries) == 1);
    assert(spec_ended_after_all(false, head));
    lemma_take_all_resumes(false, head, after);
    lemma_take_all_shape(true, after);
    lemma_stops_add(head_deliveries, spec_take_all(true, after));
}

} // verus!
