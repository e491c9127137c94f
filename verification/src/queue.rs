//! The broadcast engine of one queue, and the receiving end of a channel.
//!
//! The fan-out itself is done by an `async_broadcast` channel in overflow
//! mode. Its state is shared with every receiver that was handed out, so the
//! contracts here say which channel each end belongs to and what is decided
//! from each answer of the channel, not what the channel holds.

use vstd::prelude::*;
use async_broadcast::{InactiveReceiver, Receiver, Sender};
use crate::error::BrokerError;
use crate::message::{admits, filter_view, passes, Message};

verus! {

#[verifier::external_type_specification]
#[verifier::external_body]
#[verifier::reject_recursive_types(T)]
pub struct ExSender<T>(Sender<T>);

#[verifier::external_type_specification]
#[verifier::external_body]
#[verifier::reject_recursive_types(T)]
pub struct ExReceiver<T>(Receiver<T>);

#[verifier::external_type_specification]
#[verifier::external_body]
#[verifier::reject_recursive_types(T)]
pub struct ExInactiveReceiver<T>(InactiveReceiver<T>);

/// The identifier of a channel.
pub type ChannelId = u128;

/// The number of envelopes that a queue made without a stated capacity holds.
pub const DEFAULT_CAPACITY: usize = 100;

/// What the engine's channel answered to one attempt to send.
#[derive(Debug)]
pub enum SendOutcome {
    /// The envelope was queued for every active receiver.
    Queued,
    /// The envelope was queued; the oldest one was removed to make room.
    Displaced(Message),
    /// The channel was full and took nothing.
    Full(Message),
    /// The channel was closed.
    Closed(Message),
    /// No receiver was active: nobody is there to get the envelope.
    Inactive(Message),
}

/// What a receiver answered to one attempt to receive.
#[derive(Debug)]
pub enum RecvOutcome {
    /// The next envelope.
    Received(Message),
    /// That many envelopes were lost to this receiver by overflow.
    Overflowed(u64),
    /// Nothing is waiting.
    Empty,
    /// Nothing is waiting and the channel is closed.
    Closed,
}

/// The channel that a sender belongs to: the shared state that the handle
/// points to, which it keeps for life.
pub uninterp spec fn sender_channel(sender: Sender<Message>) -> int;

/// The channel that a receiver reads: the shared state that the handle
/// points to, which it keeps for life.
pub uninterp spec fn receiver_channel(receiver: Receiver<Message>) -> int;

/// Calls `async_broadcast::broadcast`, which panics on a capacity of zero.
/// The two ends it makes are ends of one channel.
#[verifier::external_body]
fn open_channel(capacity: usize) -> (ends: (Sender<Message>, Receiver<Message>))
    requires
        capacity > 0,
    ensures
        receiver_channel(ends.1) == sender_channel(ends.0),
{
    async_broadcast::broadcast(capacity)
}

/// Calls `Sender::set_overflow`: with overflow on, a full channel drops
/// its oldest envelope to take a new one. The sender stays on its channel;
/// no other claim is made.
#[verifier::external_body]
fn set_overflow(sender: &mut Sender<Message>, overflow: bool)
    ensures
        sender_channel(*final(sender)) == sender_channel(*old(sender)),
{
    sender.set_overflow(overflow)
}

/// Calls `Receiver::deactivate`: the inactive receiver gets no envelope and
/// keeps the channel open while it lives. No claim is made here.
#[verifier::external_body]
fn deactivate(receiver: Receiver<Message>) -> InactiveReceiver<Message> {
    receiver.deactivate()
}

/// Calls `Sender::new_receiver`. The new receiver reads the sender's
/// channel. It starts with nothing waiting; of what it holds later no claim
/// is made.
#[verifier::external_body]
fn new_receiver(sender: &Sender<Message>) -> (receiver: Receiver<Message>)
    ensures
        receiver_channel(receiver) == sender_channel(*sender),
{
    sender.new_receiver()
}

/// Calls `Sender::close`, which says whether this call closed the channel.
/// No claim is made here.
#[verifier::external_body]
fn close(sender: &Sender<Message>) -> bool {
    sender.close()
}

/// Calls `Sender::try_broadcast`. The answer depends on what the channel
/// holds and on who listens at that moment: nothing is claimed about it.
#[verifier::external_body]
fn try_broadcast(sender: &Sender<Message>, message: Message) -> SendOutcome {
    match sender.try_broadcast(message) {
        Ok(None) => SendOutcome::Queued,
        Ok(Some(oldest)) => SendOutcome::Displaced(oldest),
        Err(async_broadcast::TrySendError::Full(back)) => SendOutcome::Full(back),
        Err(async_broadcast::TrySendError::Closed(back)) => SendOutcome::Closed(back),
        Err(async_broadcast::TrySendError::Inactive(back)) => SendOutcome::Inactive(back),
    }
}

/// Calls `Receiver::try_recv`. The answer depends on what was published
/// since the receiver was forked: nothing is claimed about it. The receiver
/// stays on its channel.
#[verifier::external_body]
fn try_recv(receiver: &mut Receiver<Message>) -> (outcome: RecvOutcome)
    ensures
        receiver_channel(*final(receiver)) == receiver_channel(*old(receiver)),
{
    match receiver.try_recv() {
        Ok(message) => RecvOutcome::Received(message),
        Err(async_broadcast::TryRecvError::Overflowed(lost)) => RecvOutcome::Overflowed(lost),
        Err(async_broadcast::TryRecvError::Empty) => RecvOutcome::Empty,
        Err(async_broadcast::TryRecvError::Closed) => RecvOutcome::Closed,
    }
}

/// What a publish returns for each answer of the channel. Having nobody to
/// deliver to is no failure.
pub open spec fn spec_verdict(outcome: SendOutcome) -> Result<(), BrokerError> {
    match outcome {
        SendOutcome::Queued => Ok(()),
        SendOutcome::Displaced(_) => Ok(()),
        SendOutcome::Inactive(_) => Ok(()),
        SendOutcome::Closed(_) => Err(BrokerError::EngineClosed),
        SendOutcome::Full(_) => Err(BrokerError::EngineFull),
    }
}

/// Decides what a publish returns from the channel's answer.
pub fn verdict(outcome: SendOutcome) -> (result: Result<(), BrokerError>)
    ensures
        result == spec_verdict(outcome),
{
    match outcome {
        SendOutcome::Queued => Ok(()),
        SendOutcome::Displaced(_) => Ok(()),
        SendOutcome::Inactive(_) => Ok(()),
        SendOutcome::Closed(_) => Err(BrokerError::EngineClosed),
        SendOutcome::Full(_) => Err(BrokerError::EngineFull),
    }
}

/// The publishing side of one queue.
#[derive(Debug)]
pub struct BroadcastEnd {
    sender: Sender<Message>,
    /// Keeps the channel open while no channel of the queue listens.
    keeper: InactiveReceiver<Message>,
    capacity: usize,
    /// Whether `teardown` was called.
    torn_down: bool,
}

impl BroadcastEnd {
    /// The number of envelopes the engine holds before the oldest is dropped.
    pub closed spec fn spec_capacity(&self) -> usize {
        self.capacity
    }

    /// The channel that the engine publishes on.
    pub closed spec fn channel(&self) -> int {
        sender_channel(self.sender)
    }

    /// Whether the engine was torn down. A torn-down engine takes no
    /// envelope any more.
    pub closed spec fn is_torn_down(&self) -> bool {
        self.torn_down
    }

    /// An engine that holds `DEFAULT_CAPACITY` envelopes.
    pub fn new() -> (end: BroadcastEnd)
        ensures
            end.spec_capacity() == DEFAULT_CAPACITY,
            !end.is_torn_down(),
    {
        Self::open(DEFAULT_CAPACITY)
    }

    /// An engine that holds `capacity` envelopes; none for a capacity of zero.
    pub fn with_capacity(capacity: usize) -> (end: Option<BroadcastEnd>)
        ensures
            end is Some <==> capacity > 0,
            end matches Some(made) ==> made.spec_capacity() == capacity && !made.is_torn_down(),
    {
        if capacity == 0 {
            None
        } else {
            Some(Self::open(capacity))
        }
    }

    fn open(capacity: usize) -> (end: BroadcastEnd)
        requires
            capacity > 0,
        ensures
            end.spec_capacity() == capacity,
            !end.is_torn_down(),
    {
        let (mut sender, first) = open_channel(capacity);
        set_overflow(&mut sender, true);
        let keeper = deactivate(first);
        BroadcastEnd { sender, keeper, capacity, torn_down: false }
    }

    pub fn capacity(&self) -> (capacity: usize)
        ensures
            capacity == self.spec_capacity(),
    {
        self.capacity
    }

    /// Hands `message` to every receiver forked so far and still alive. It
    /// never waits. On an engine that was torn down it fails as closed and
    /// the channel is not asked; else the result is the verdict on what the
    /// channel answered.
    pub fn broadcast(&self, message: Message) -> (result: Result<(), BrokerError>)
        ensures
            self.is_torn_down() ==> result == Err::<(), BrokerError>(BrokerError::EngineClosed),
            !self.is_torn_down() ==> exists|outcome: SendOutcome|
                result == #[trigger] spec_verdict(outcome),
    {
        if self.torn_down {
            Err(BrokerError::EngineClosed)
        } else {
            let outcome = try_broadcast(&self.sender, message);
            let result = verdict(outcome);
            assert(result == spec_verdict(outcome));
            result
        }
    }

    /// A new receiver on the engine's channel, which gets the envelopes
    /// published from now on.
    pub fn fork_receiver(&self) -> (receiver: Receiver<Message>)
        ensures
            receiver_channel(receiver) == self.channel(),
    {
        new_receiver(&self.sender)
    }

    /// Tears the engine down: it takes no envelope any more, and its
    /// receivers end once they have read what was queued. Returns whether
    /// this call tore it down, that is, whether it was not torn down before.
    pub fn teardown(&mut self) -> (first: bool)
        ensures
            final(self).is_torn_down(),
            final(self).spec_capacity() == old(self).spec_capacity(),
            final(self).channel() == old(self).channel(),
            first == !old(self).is_torn_down(),
    {
        if self.torn_down {
            false
        } else {
            close(&self.sender);
            self.torn_down = true;
            true
        }
    }
}

/// The receiving end of a channel: a receiver forked from the queue's engine
/// and the channel's topic filter.
#[derive(Debug)]
pub struct ChannelReceiver {
    pub receiver: Receiver<Message>,
    pub topic: Option<String>,
}

/// A channel's receiving end as plain values.
pub struct TicketView {
    /// The topic filter: `None` lets every topic through.
    pub filter: Option<Seq<char>>,
    /// The channel that the receiver reads.
    pub channel: int,
}

impl View for ChannelReceiver {
    type V = TicketView;

    open spec fn view(&self) -> TicketView {
        TicketView { filter: filter_view(self.topic), channel: receiver_channel(self.receiver) }
    }
}

/// What one step of a subscription yields.
#[derive(Debug)]
pub enum Delivery {
    /// An envelope that the filter takes.
    Ready(Message),
    /// An envelope was read and left out by the filter.
    Skipped,
    /// That many envelopes were lost by overflow; reading goes on.
    Lagged(u64),
    /// Nothing is waiting yet.
    Pending,
    /// The stream has ended.
    Closed,
}

/// What a subscription with the filter `filter` yields for each answer of
/// its receiver.
pub open spec fn spec_sift(filter: Option<Seq<char>>, outcome: RecvOutcome) -> Delivery {
    match outcome {
        RecvOutcome::Received(message) => if admits(filter, message.topic@) {
            Delivery::Ready(message)
        } else {
            Delivery::Skipped
        },
        RecvOutcome::Overflowed(lost) => Delivery::Lagged(lost),
        RecvOutcome::Empty => Delivery::Pending,
        RecvOutcome::Closed => Delivery::Closed,
    }
}

/// Applies a channel's filter to one answer of its receiver.
pub fn sift(filter: &Option<String>, outcome: RecvOutcome) -> (delivery: Delivery)
    ensures
        delivery == spec_sift(filter_view(*filter), outcome),
{
    match outcome {
        RecvOutcome::Received(message) => {
            if passes(filter, &message) {
                Delivery::Ready(message)
            } else {
                Delivery::Skipped
            }
        },
        RecvOutcome::Overflowed(lost) => Delivery::Lagged(lost),
        RecvOutcome::Empty => Delivery::Pending,
        RecvOutcome::Closed => Delivery::Closed,
    }
}

/// Whether an answer of the receiver ends a round of reading.
pub open spec fn ends_reading(outcome: RecvOutcome) -> bool {
    outcome is Empty || outcome is Closed
}

/// The envelopes that a subscription with the filter `filter` hands on from
/// the answers `answers` of its receiver, in their order.
pub open spec fn spec_gather(filter: Option<Seq<char>>, answers: Seq<RecvOutcome>) -> Seq<Message>
    decreases answers.len(),
{
    if answers.len() == 0 {
        Seq::empty()
    } else {
        let before = spec_gather(filter, answers.drop_last());
        match spec_sift(filter, answers.last()) {
            Delivery::Ready(message) => before.push(message),
            _ => before,
        }
    }
}

/// Whether `taken` is what a round of at most `limit` reads hands on when
/// the receiver gives the answers `answers`: the round reads until an
/// answer ends it or the limit is reached.
pub open spec fn drained(
    filter: Option<Seq<char>>,
    limit: usize,
    answers: Seq<RecvOutcome>,
    taken: Seq<Message>,
) -> bool {
    &&& answers.len() <= limit
    &&& taken == spec_gather(filter, answers)
    &&& forall|i: int| 0 <= i < answers.len() - 1 ==> !ends_reading(#[trigger] answers[i])
    &&& answers.len() < limit ==> answers.len() > 0 && ends_reading(answers.last())
}

/// What is handed on went through the filter.
pub proof fn lemma_gathered_pass(filter: Option<Seq<char>>, answers: Seq<RecvOutcome>)
    ensures
        spec_gather(filter, answers).len() <= answers.len(),
        forall|i: int|
            0 <= i < spec_gather(filter, answers).len() ==> admits(
                filter,
                (#[trigger] spec_gather(filter, answers)[i]).topic@,
            ),
    decreases answers.len(),
{
    if answers.len() > 0 {
        lemma_gathered_pass(filter, answers.drop_last());
    }
}

impl ChannelReceiver {
    /// The channel's filter as plain values.
    pub open spec fn filter(&self) -> Option<Seq<char>> {
        filter_view(self.topic)
    }

    /// The channel that the receiver reads.
    pub open spec fn channel(&self) -> int {
        receiver_channel(self.receiver)
    }

    /// Reads once from the receiver without waiting. Only an envelope that
    /// the filter takes is handed on.
    pub fn try_next(&mut self) -> (delivery: Delivery)
        ensures
            final(self).topic == old(self).topic,
            final(self).channel() == old(self).channel(),
            exists|outcome: RecvOutcome| delivery == #[trigger] spec_sift(old(self).filter(), outcome),
            delivery matches Delivery::Ready(message) ==> admits(
                old(self).filter(),
                message.topic@,
            ),
    {
        let outcome = try_recv(&mut self.receiver);
        let delivery = sift(&self.topic, outcome);
        assert(delivery == spec_sift(old(self).filter(), outcome));
        delivery
    }

    /// Reads at most `limit` times without waiting and collects, in the
    /// order read, the envelopes that the filter takes. It stops early when
    /// nothing is waiting or the stream has ended.
    pub fn drain(&mut self, limit: usize) -> (taken: Vec<Message>)
        ensures
            final(self).topic == old(self).topic,
            final(self).channel() == old(self).channel(),
            exists|answers: Seq<RecvOutcome>| #[trigger]
                drained(old(self).filter(), limit, answers, taken@),
            taken@.len() <= limit,
            forall|i: int|
                0 <= i < taken@.len() ==> admits(old(self).filter(), (#[trigger] taken@[i]).topic@),
    {
        let mut taken: Vec<Message> = Vec::new();
        let mut reads: usize = 0;
        let mut ended = false;
        let ghost mut answers: Seq<RecvOutcome> = Seq::empty();
        while reads < limit && !ended
            invariant
                self.topic == old(self).topic,
                self.channel() == old(self).channel(),
                reads <= limit,
                answers.len() == reads,
                taken@ == spec_gather(old(self).filter(), answers),
                forall|i: int| 0 <= i < answers.len() - 1 ==> !ends_reading(#[trigger] answers[i]),
                ended ==> answers.len() > 0 && ends_reading(answers.last()),
                !ended && answers.len() > 0 ==> !ends_reading(answers.last()),
            decreases limit - reads,
        {
            let outcome = try_recv(&mut self.receiver);
            proof {
                let longer = answers.push(outcome);
                assert(longer.drop_last() =~= answers);
                answers = longer;
            }
            reads = reads + 1;
            match sift(&self.topic, outcome) {
                Delivery::Ready(message) => {
                    taken.push(message);
                },
                Delivery::Skipped => {},
                Delivery::Lagged(_) => {},
                Delivery::Pending => {
                    ended = true;
                },
                Delivery::Closed => {
                    ended = true;
                },
            }
        }
        proof {
            assert(drained(old(self).filter(), limit, answers, taken@));
            lemma_gathered_pass(old(self).filter(), answers);
        }
        taken
    }
}

} // verus!
