//! The broker's service: queues, channels, push and subscribe.

use vstd::prelude::*;
use crate::error::BrokerError;
use crate::ident::{format_uuid, parse_uuid, parsed_uuid, random_uuid, uuid_text};
use crate::message::{filter_view, same_text, Message};
use crate::queue::{
    spec_verdict, BroadcastEnd, ChannelReceiver, SendOutcome, TicketView, DEFAULT_CAPACITY,
};
use crate::registry::{routes_without, tickets_without, ChannelRegistry};

verus! {

/// Where a channel stands in its life, as far as the broker knows.
pub enum ChannelPhase {
    /// The broker knows no channel of that identifier.
    Unknown,
    /// The channel waits for its one subscription.
    Reserved,
    /// The ticket was consumed: a subscriber streams, or has left.
    Streaming,
}

/// What a broker holds, as plain values.
pub struct BrokerState {
    /// The queues: each label with the channel that its engine publishes on.
    pub queues: Map<Seq<char>, int>,
    /// The reserved channels, each with its topic filter and the channel
    /// that its receiver reads.
    pub tickets: Map<u128, TicketView>,
    /// The known channels, reserved or streaming, each with its queue's label.
    pub routes: Map<u128, Seq<char>>,
}

impl BrokerState {
    /// A broker without queues and channels.
    pub open spec fn empty() -> BrokerState {
        BrokerState { queues: Map::empty(), tickets: Map::empty(), routes: Map::empty() }
    }

    /// Every reserved channel is known, every known channel belongs to a
    /// queue of the broker, and the receiver of every reserved channel reads
    /// the channel of its queue's engine.
    pub open spec fn inv(self) -> bool {
        &&& self.tickets.dom().subset_of(self.routes.dom())
        &&& forall|id: u128| #[trigger]
            self.routes.contains_key(id) ==> self.queues.contains_key(self.routes[id])
        &&& forall|id: u128| #[trigger]
            self.tickets.contains_key(id) ==> self.tickets[id].channel
                == self.queues[self.routes[id]]
    }

    /// The phase of the channel `id`.
    pub open spec fn phase(self, id: u128) -> ChannelPhase {
        if self.tickets.contains_key(id) {
            ChannelPhase::Reserved
        } else if self.routes.contains_key(id) {
            ChannelPhase::Streaming
        } else {
            ChannelPhase::Unknown
        }
    }

    /// Making the queue `label`, whose new engine publishes on `channel`.
    pub open spec fn create_queue(self, label: Seq<char>, channel: int) -> (
        BrokerState,
        Result<(), BrokerError>,
    ) {
        if self.queues.contains_key(label) {
            (self, Err(BrokerError::QueueExists))
        } else {
            (BrokerState { queues: self.queues.insert(label, channel), ..self }, Ok(()))
        }
    }


    /// Deleting the queue `label` with every channel of it.
    pub open spec fn delete_queue(self, label: Seq<char>) -> (BrokerState, Result<(), BrokerError>) {
        if self.queues.contains_key(label) {
            (
                BrokerState {
                    queues: self.queues.remove(label),
                    tickets: tickets_without(self.tickets, self.routes, label),
                    routes: routes_without(self.routes, label),
                },
                Ok(()),
            )
        } else {
            (self, Err(BrokerError::UnknownQueue))
        }
    }

    /// Reserving a channel under the identifier `id`, which the broker picks
    /// among those that no known channel has. Its receiver reads the channel
    /// of the engine of the queue `label`.
    pub open spec fn create_channel(self, label: Seq<char>, filter: Option<Seq<char>>, id: u128) -> (
        BrokerState,
        Result<u128, BrokerError>,
    ) {
        if self.queues.contains_key(label) {
            (
                BrokerState {
                    tickets: self.tickets.insert(
                        id,
                        TicketView { filter, channel: self.queues[label] },
                    ),
                    routes: self.routes.insert(id, label),
                    ..self
                },
                Ok(id),
            )
        } else {
            (self, Err(BrokerError::UnknownQueue))
        }
    }

    /// Deleting the channel that the text of the request was read as.
    pub open spec fn delete_channel(self, parsed: Option<u128>) -> (
        BrokerState,
        Result<(), BrokerError>,
    ) {
        match parsed {
            None => (self, Err(BrokerError::MalformedChannelId)),
            Some(id) => if self.tickets.contains_key(id) {
                (
                    BrokerState {
                        tickets: self.tickets.remove(id),
                        routes: self.routes.remove(id),
                        ..self
                    },
                    Ok(()),
                )
            } else {
                (self, Err(BrokerError::UnknownChannel))
            },
        }
    }

    /// Subscribing to the channel that the text of the request was read as:
    /// the ticket leaves, and the subscription is what the ticket held, its
    /// filter and the receiver forked for it.
    pub open spec fn subscribe(self, parsed: Option<u128>) -> (
        BrokerState,
        Result<TicketView, BrokerError>,
    ) {
        match parsed {
            None => (self, Err(BrokerError::MalformedChannelId)),
            Some(id) => if self.tickets.contains_key(id) {
                (BrokerState { tickets: self.tickets.remove(id), ..self }, Ok(self.tickets[id]))
            } else {
                (self, Err(BrokerError::UnknownChannel))
            },
        }
    }

    /// The queue that a push through the channel of the request goes to.
    pub open spec fn push_target(self, parsed: Option<u128>) -> Result<Seq<char>, BrokerError> {
        match parsed {
            None => Err(BrokerError::MalformedChannelId),
            Some(id) => if self.routes.contains_key(id) {
                Ok(self.routes[id])
            } else {
                Err(BrokerError::UnknownChannel)
            },
        }
    }
}

/// One request that changes what a broker holds.
pub enum BrokerOp {
    /// `channel` is the channel that the new engine publishes on.
    CreateQueue { label: Seq<char>, channel: int },
    DeleteQueue { label: Seq<char> },
    /// `id` is the identifier that the broker picks.
    CreateChannel { label: Seq<char>, filter: Option<Seq<char>>, id: u128 },
    /// `parsed` is what the channel id of the request was read as.
    DeleteChannel { parsed: Option<u128> },
    /// `parsed` is what the channel id of the request was read as.
    Subscribe { parsed: Option<u128> },
}

impl BrokerState {
    /// What the broker holds after the request `op`.
    pub open spec fn step(self, op: BrokerOp) -> BrokerState {
        match op {
            BrokerOp::CreateQueue { label, channel } => self.create_queue(label, channel).0,
            BrokerOp::DeleteQueue { label } => self.delete_queue(label).0,
            BrokerOp::CreateChannel { label, filter, id } => self.create_channel(
                label,
                filter,
                id,
            ).0,
            BrokerOp::DeleteChannel { parsed } => self.delete_channel(parsed).0,
            BrokerOp::Subscribe { parsed } => self.subscribe(parsed).0,
        }
    }

    /// What the broker holds after the requests `ops`, in their order.
    pub open spec fn run(self, ops: Seq<BrokerOp>) -> BrokerState
        decreases ops.len(),
    {
        if ops.len() == 0 {
            self
        } else {
            self.run(ops.drop_last()).step(ops.last())
        }
    }

    /// Whether the request `op`, made in this state, reserves the channel `id`.
    pub open spec fn reserves(self, op: BrokerOp, id: u128) -> bool {
        op matches BrokerOp::CreateChannel { label, filter, id: made } && made == id
            && self.queues.contains_key(label)
    }

    /// Every request leaves the broker holding what a broker may hold.
    pub proof fn law_step_keeps_inv(self, op: BrokerOp)
        requires
            self.inv(),
        ensures
            self.step(op).inv(),
    {
    }

    /// So does every sequence of requests.
    pub proof fn law_run_keeps_inv(self, ops: Seq<BrokerOp>)
        requires
            self.inv(),
        ensures
            self.run(ops).inv(),
        decreases ops.len(),
    {
        if ops.len() > 0 {
            self.law_run_keeps_inv(ops.drop_last());
            self.run(ops.drop_last()).law_step_keeps_inv(ops.last());
        }
    }

    /// The life of a channel: a request leaves its phase as it is, or
    /// reserves it, or moves it from reserved to streaming, or ends it. A
    /// channel that streams is never reserved again by a request that
    /// leaves its identifier alone.
    pub proof fn law_phase_moves_on(self, op: BrokerOp, id: u128)
        requires
            self.inv(),
        ensures
            ({
                let before = self.phase(id);
                let after = self.step(op).phase(id);
                ||| after == before
                ||| after is Reserved && self.reserves(op, id)
                ||| before is Reserved && after is Streaming && op == (BrokerOp::Subscribe {
                    parsed: Some(id),
                })
                ||| after is Unknown && (op is DeleteQueue || op == (BrokerOp::DeleteChannel {
                    parsed: Some(id),
                }))
            }),
    {
    }

    /// A ticket is single-use: once a subscribe has succeeded, the next one
    /// for the same channel id finds no channel.
    pub proof fn law_ticket_is_consumed_once(self, parsed: Option<u128>)
        requires
            self.subscribe(parsed).1 is Ok,
        ensures
            self.subscribe(parsed).0.subscribe(parsed).1 == Err::<TicketView, BrokerError>(
                BrokerError::UnknownChannel,
            ),
    {
    }

    /// A channel that is not reserved stays so, whatever is requested, until
    /// a request reserves its identifier anew; every subscribe for it until
    /// then finds no channel.
    pub proof fn law_consumed_ticket_stays_consumed(self, ops: Seq<BrokerOp>, id: u128)
        requires
            !self.tickets.contains_key(id),
            forall|i: int|
                0 <= i < ops.len() ==> !self.run(ops.take(i)).reserves(#[trigger] ops[i], id),
        ensures
            !self.run(ops).tickets.contains_key(id),
            self.run(ops).subscribe(Some(id)).1 == Err::<TicketView, BrokerError>(
                BrokerError::UnknownChannel,
            ),
        decreases ops.len(),
    {
        if ops.len() > 0 {
            let before = ops.drop_last();
            assert forall|i: int| 0 <= i < before.len() implies !self.run(before.take(i)).reserves(
                #[trigger] before[i],
                id,
            ) by {
                assert(before.take(i) =~= ops.take(i));
                assert(before[i] == ops[i]);
            }
            self.law_consumed_ticket_stays_consumed(before, id);
            assert(ops.take(ops.len() - 1) =~= before);
            assert(!self.run(before).reserves(ops[ops.len() - 1], id));
        }
    }

    /// The broker picks for a new channel an identifier that no known
    /// channel has: a channel that streams is not reserved anew while its
    /// queue lives.
    pub proof fn law_known_channel_is_not_reissued(self, op: BrokerOp, id: u128)
        requires
            self.routes.contains_key(id),
            op matches BrokerOp::CreateChannel { label, filter, id: made } ==> !self.routes.contains_key(
                made,
            ),
        ensures
            !self.reserves(op, id),
    {
    }

    /// Deleting a queue takes every channel of it away: a later subscribe
    /// or push for such a channel finds no channel.
    pub proof fn law_deleted_queue_revokes_channels(self, label: Seq<char>, id: u128)
        requires
            self.inv(),
            self.routes.contains_key(id),
            self.routes[id] == label,
        ensures
            self.delete_queue(label).1 is Ok,
            !self.delete_queue(label).0.tickets.contains_key(id),
            !self.delete_queue(label).0.routes.contains_key(id),
            self.delete_queue(label).0.subscribe(Some(id)).1 == Err::<TicketView, BrokerError>(BrokerError::UnknownChannel),
            self.delete_queue(label).0.push_target(Some(id)) == Err::<Seq<char>, BrokerError>(
                BrokerError::UnknownChannel,
            ),
    {
    }

    /// A channel that was reserved can be subscribed to; the subscription
    /// has its filter and reads the channel of its queue's engine.
    pub proof fn law_reserved_channel_can_be_subscribed(
        self,
        label: Seq<char>,
        filter: Option<Seq<char>>,
        id: u128,
    )
        requires
            self.queues.contains_key(label),
        ensures
            self.create_channel(label, filter, id).0.subscribe(Some(id)).1 == Ok::<
                TicketView,
                BrokerError,
            >(TicketView { filter, channel: self.queues[label] }),
    {
    }

    /// Whatever was requested before, a subscription that is handed out
    /// reads the channel of the engine of the queue that its channel is
    /// routed to: a push through that channel goes to the same engine.
    pub proof fn law_subscription_reads_its_queue(self, ops: Seq<BrokerOp>, id: u128)
        requires
            self.inv(),
            self.run(ops).subscribe(Some(id)).1 is Ok,
        ensures
            ({
                &&& self.run(ops).push_target(Some(id)) matches Ok(label)
                &&& self.run(ops).subscribe(Some(id)).1 matches Ok(ticket)
                &&& self.run(ops).queues.contains_key(label)
                &&& ticket.channel == self.run(ops).queues[label]
            }),
    {
        self.law_run_keeps_inv(ops);
    }

    /// Making a queue twice in a row succeeds, then fails for the label
    /// that exists.
    pub proof fn law_queue_is_made_once(self, label: Seq<char>, first: int, second: int)
        requires
            self.create_queue(label, first).1 is Ok,
        ensures
            self.create_queue(label, first).0.create_queue(label, second).1 == Err::<
                (),
                BrokerError,
            >(BrokerError::QueueExists),
    {
    }
}

/// The subscription that was handed out as plain values, or the failure.
pub open spec fn subscription_view(result: Result<ChannelReceiver, BrokerError>) -> Result<
    TicketView,
    BrokerError,
> {
    match result {
        Ok(subscription) => Ok(subscription@),
        Err(error) => Err(error),
    }
}

/// A queue of the broker: its label and its engine.
struct QueueSlot {
    label: String,
    broadcast_end: BroadcastEnd,
}

/// A broker node: the queues it hosts and the channels reserved on them.
/// One owner changes it at a time; a program that serves requests side by
/// side keeps it under a lock.
pub struct StreamServer {
    host: String,
    port: u16,
    queues: Vec<QueueSlot>,
    channel_receivers: ChannelRegistry,
}

impl View for StreamServer {
    type V = BrokerState;

    closed spec fn view(&self) -> BrokerState {
        BrokerState {
            queues: Map::new(
                |label: Seq<char>| self.hosts(label),
                |label: Seq<char>| self.queues@[self.place_of(label)].broadcast_end.channel(),
            ),
            tickets: self.channel_receivers.tickets(),
            routes: self.channel_receivers.routes(),
        }
    }
}

impl StreamServer {
    /// Whether a queue has the label `label`.
    spec fn hosts(&self, label: Seq<char>) -> bool {
        exists|i: int| 0 <= i < self.queues@.len() && #[trigger] self.queues@[i].label@ == label
    }

    /// The place of the queue `label` among the queues.
    spec fn place_of(&self, label: Seq<char>) -> int {
        choose|i: int| 0 <= i < self.queues@.len() && #[trigger] self.queues@[i].label@ == label
    }

    /// No two queues have the same label.
    spec fn distinct_labels(&self) -> bool {
        forall|i: int, j: int|
            0 <= i < j < self.queues@.len() ==> self.queues@[i].label@ != self.queues@[j].label@
    }

    /// The queues have different labels; the engine of each is live and
    /// holds `DEFAULT_CAPACITY` envelopes; every known channel belongs to a
    /// queue, and the receiver of every reserved channel was forked from the
    /// engine of the queue that the channel is routed to.
    pub closed spec fn wf(&self) -> bool {
        &&& self.channel_receivers.wf()
        &&& self.distinct_labels()
        &&& forall|i: int|
            0 <= i < self.queues@.len() ==> {
                &&& !(#[trigger] self.queues@[i]).broadcast_end.is_torn_down()
                &&& self.queues@[i].broadcast_end.spec_capacity() == DEFAULT_CAPACITY
            }
        &&& forall|id: u128| #[trigger]
            self.channel_receivers.routes().contains_key(id) ==> exists|i: int|
                0 <= i < self.queues@.len() && #[trigger] self.queues@[i].label@
                    == self.channel_receivers.routes()[id]
        &&& forall|id: u128| #[trigger]
            self.channel_receivers.tickets().contains_key(id) ==> exists|i: int|
                {
                    &&& 0 <= i < self.queues@.len()
                    &&& #[trigger] self.queues@[i].label@ == self.channel_receivers.routes()[id]
                    &&& self.queues@[i].broadcast_end.channel()
                        == self.channel_receivers.tickets()[id].channel
                }
    }

    /// The host that the broker listens on.
    pub closed spec fn spec_host(&self) -> Seq<char> {
        self.host@
    }

    /// The port that the broker listens on.
    pub closed spec fn spec_port(&self) -> u16 {
        self.port
    }

    /// The view holds each queue's label with the channel of its engine.
    proof fn lemma_queue_at(&self, at: int)
        requires
            self.distinct_labels(),
            0 <= at < self.queues@.len(),
        ensures
            self@.queues.contains_key(self.queues@[at].label@),
            self@.queues[self.queues@[at].label@] == self.queues@[at].broadcast_end.channel(),
    {
        let label = self.queues@[at].label@;
        assert(self.hosts(label));
        let found = self.place_of(label);
        assert(found == at);
    }

    /// A broker that listens on `host` and `port`, without queues and channels.
    pub fn new(host: String, port: u16) -> (server: StreamServer)
        ensures
            server.wf(),
            server@ == BrokerState::empty(),
            server.spec_host() == host@,
            server.spec_port() == port,
    {
        let server = StreamServer {
            host,
            port,
            queues: Vec::new(),
            channel_receivers: ChannelRegistry::new(),
        };
        assert(server@.queues =~= Map::<Seq<char>, int>::empty());
        server
    }

    pub fn host(&self) -> (host: &String)
        ensures
            host@ == self.spec_host(),
    {
        &self.host
    }

    pub fn port(&self) -> (port: u16)
        ensures
            port == self.spec_port(),
    {
        self.port
    }

    /// What is well formed holds what a broker may hold.
    pub proof fn lemma_inv(&self)
        requires
            self.wf(),
        ensures
            self@.inv(),
    {
        self.channel_receivers.lemma_wf();
        assert forall|id: u128| #[trigger] self@.routes.contains_key(id) implies self@.queues.contains_key(
            self@.routes[id],
        ) by {
            let i = choose|i: int|
                0 <= i < self.queues@.len() && #[trigger] self.queues@[i].label@
                    == self.channel_receivers.routes()[id];
            self.lemma_queue_at(i);
        }
        assert forall|id: u128| #[trigger] self@.tickets.contains_key(id) implies self@.tickets[id].channel
            == self@.queues[self@.routes[id]] by {
            let i = choose|i: int|
                {
                    &&& 0 <= i < self.queues@.len()
                    &&& #[trigger] self.queues@[i].label@ == self.channel_receivers.routes()[id]
                    &&& self.queues@[i].broadcast_end.channel()
                        == self.channel_receivers.tickets()[id].channel
                };
            self.lemma_queue_at(i);
        }
    }

    /// The place of the queue `label` among the queues.
    fn find_queue(&self, label: &str) -> (found: Option<usize>)
        ensures
            found matches Some(at) ==> at < self.queues@.len() && self.queues@[at as int].label@
                == label@,
            found is Some <==> self@.queues.contains_key(label@),
    {
        let mut at: usize = 0;
        while at < self.queues.len()
            invariant
                at <= self.queues@.len(),
                forall|i: int| 0 <= i < at ==> self.queues@[i].label@ != label@,
            decreases self.queues@.len() - at,
        {
            if same_text(self.queues[at].label.as_str(), label) {
                assert(self.hosts(label@));
                return Some(at);
            }
            at = at + 1;
        }
        assert(!self.hosts(label@));
        None
    }

    /// Makes the queue `label`, with a live engine of its own that holds
    /// `DEFAULT_CAPACITY` envelopes. It fails where a queue with that label
    /// exists.
    pub fn create_queue(&mut self, label: &str) -> (result: Result<(), BrokerError>)
        requires
            old(self).wf(),
        ensures
            final(self).wf(),
            final(self).spec_host() == old(self).spec_host(),
            final(self).spec_port() == old(self).spec_port(),
            (final(self)@, result) == old(self)@.create_queue(
                label@,
                final(self)@.queues[label@],
            ),
    {
        match self.find_queue(label) {
            Some(_) => Err(BrokerError::QueueExists),
            None => {
                let slot = QueueSlot { label: label.to_owned(), broadcast_end: BroadcastEnd::new() };
                self.queues.push(slot);
                proof {
                    let last = old(self).queues@.len() as int;
                    assert(self.queues@[last].label@ == label@);
                    assert forall|i: int| 0 <= i < last implies self.queues@[i] == old(
                        self,
                    ).queues@[i] by {}
                    assert(self.distinct_labels()) by {
                        assert forall|i: int, j: int| 0 <= i < j < self.queues@.len() implies self.queues@[i].label@
                            != self.queues@[j].label@ by {
                            if j == last {
                                if self.queues@[i].label@ == label@ {
                                    assert(old(self).hosts(label@));
                                }
                            }
                        }
                    }
                    self.lemma_queue_at(last);
                    assert(self@.queues =~= old(self)@.queues.insert(
                        label@,
                        self@.queues[label@],
                    )) by {
                        assert forall|other: Seq<char>| #[trigger]
                            self@.queues.contains_key(other) && other
                                != label@ implies old(self)@.queues.contains_key(other) && old(
                            self,
                        )@.queues[other] == self@.queues[other] by {
                            let i = self.place_of(other);
                            assert(self.hosts(other));
                            self.lemma_queue_at(i);
                            old(self).lemma_queue_at(i);
                        }
                        assert forall|other: Seq<char>| #[trigger]
                            old(self)@.queues.contains_key(other) implies self@.queues.contains_key(
                            other,
                        ) by {
                            let i = old(self).place_of(other);
                            assert(old(self).hosts(other));
                            self.lemma_queue_at(i);
                        }
                    }
                    assert forall|id: u128| #[trigger]
                        self.channel_receivers.tickets().contains_key(id) implies exists|i: int|
                        {
                            &&& 0 <= i < self.queues@.len()
                            &&& #[trigger] self.queues@[i].label@
                                == self.channel_receivers.routes()[id]
                            &&& self.queues@[i].broadcast_end.channel()
                                == self.channel_receivers.tickets()[id].channel
                        } by {
                        let i = choose|i: int|
                            {
                                &&& 0 <= i < old(self).queues@.len()
                                &&& #[trigger] old(self).queues@[i].label@ == old(
                                    self,
                                ).channel_receivers.routes()[id]
                                &&& old(self).queues@[i].broadcast_end.channel() == old(
                                    self,
                                ).channel_receivers.tickets()[id].channel
                            };
                        assert(self.queues@[i].label@ == self.channel_receivers.routes()[id]);
                    }
                }
                Ok(())
            },
        }
    }

    /// Deletes the queue `label`: tears its engine down and forgets every
    /// channel of it, so that no ticket on it can be consumed any more. It
    /// fails where no queue has that label.
    pub fn delete_queue(&mut self, label: &str) -> (result: Result<(), BrokerError>)
        requires
            old(self).wf(),
        ensures
            final(self).wf(),
            final(self).spec_host() == old(self).spec_host(),
            final(self).spec_port() == old(self).spec_port(),
            (final(self)@, result) == old(self)@.delete_queue(label@),
    {
        match self.find_queue(label) {
            None => Err(BrokerError::UnknownQueue),
            Some(at) => {
                self.channel_receivers.revoke(label);
                let mut slot = self.queues.remove(at);
                slot.broadcast_end.teardown();
                proof {
                    assert forall|i: int| 0 <= i < self.queues@.len() implies self.queues@[i] == (
                    if i < at {
                        old(self).queues@[i]
                    } else {
                        old(self).queues@[i + 1]
                    }) by {}
                    assert(self.distinct_labels());
                    assert(self@.queues =~= old(self)@.queues.remove(label@)) by {
                        assert forall|other: Seq<char>| #[trigger]
                            old(self)@.queues.remove(label@).contains_key(
                                other,
                            ) implies self@.queues.contains_key(other) && self@.queues[other]
                            == old(self)@.queues[other] by {
                            assert(old(self).hosts(other));
                            let i = old(self).place_of(other);
                            old(self).lemma_queue_at(i);
                            assert(i != at);
                            if i < at {
                                assert(self.queues@[i].label@ == other);
                                self.lemma_queue_at(i);
                            } else {
                                assert(self.queues@[i - 1].label@ == other);
                                self.lemma_queue_at(i - 1);
                            }
                        }
                        assert forall|other: Seq<char>| #[trigger]
                            self@.queues.contains_key(other) implies old(self)@.queues.remove(
                            label@,
                        ).contains_key(other) by {
                            assert(self.hosts(other));
                            let i = self.place_of(other);
                            old(self).lemma_queue_at(at as int);
                            if i < at {
                                assert(old(self).queues@[i].label@ == other);
                                old(self).lemma_queue_at(i);
                            } else {
                                assert(old(self).queues@[i + 1].label@ == other);
                                old(self).lemma_queue_at(i + 1);
                            }
                            assert(other != label@);
                        }
                    }
                    assert forall|id: u128| #[trigger]
                        self.channel_receivers.routes().contains_key(id) implies exists|i: int|
                        0 <= i < self.queues@.len() && #[trigger] self.queues@[i].label@
                            == self.channel_receivers.routes()[id] by {
                        let wanted = old(self).channel_receivers.routes()[id];
                        assert(old(self).channel_receivers.routes().contains_key(id));
                        let i = choose|i: int|
                            0 <= i < old(self).queues@.len() && #[trigger] old(
                                self,
                            ).queues@[i].label@ == wanted;
                        if i < at {
                            assert(self.queues@[i].label@ == wanted);
                        } else {
                            assert(self.queues@[i - 1].label@ == wanted);
                        }
                    }
                    assert forall|id: u128| #[trigger]
                        self.channel_receivers.tickets().contains_key(id) implies exists|i: int|
                        {
                            &&& 0 <= i < self.queues@.len()
                            &&& #[trigger] self.queues@[i].label@
                                == self.channel_receivers.routes()[id]
                            &&& self.queues@[i].broadcast_end.channel()
                                == self.channel_receivers.tickets()[id].channel
                        } by {
                        assert(old(self).channel_receivers.tickets().contains_key(id));
                        let i = choose|i: int|
                            {
                                &&& 0 <= i < old(self).queues@.len()
                                &&& #[trigger] old(self).queues@[i].label@ == old(
                                    self,
                                ).channel_receivers.routes()[id]
                                &&& old(self).queues@[i].broadcast_end.channel() == old(
                                    self,
                                ).channel_receivers.tickets()[id].channel
                            };
                        if i < at {
                            assert(self.queues@[i].label@ == self.channel_receivers.routes()[id]);
                        } else {
                            assert(self.queues@[i - 1].label@
                                == self.channel_receivers.routes()[id]);
                        }
                    }
                }
                Ok(())
            },
        }
    }

    /// Reserves a channel on the queue `label` and returns its identifier as
    /// text. A receiver is forked for it at once from the engine of that
    /// queue, so it gets what is published there from now on. It fails
    /// where no queue has that label.
    pub fn create_channel(&mut self, label: &str, topic: Option<String>) -> (result: Result<
        String,
        BrokerError,
    >)
        requires
            old(self).wf(),
        ensures
            final(self).wf(),
            final(self).spec_host() == old(self).spec_host(),
            final(self).spec_port() == old(self).spec_port(),
            match result {
                Ok(text) => {
                    &&& parsed_uuid(text@) matches Some(id)
                    &&& text@ == uuid_text(id)
                    &&& !old(self)@.routes.contains_key(id)
                    &&& (final(self)@, Ok::<u128, BrokerError>(id)) == old(self)@.create_channel(
                        label@,
                        filter_view(topic),
                        id,
                    )
                },
                Err(error) => {
                    &&& error == BrokerError::UnknownQueue
                    &&& !old(self)@.queues.contains_key(label@)
                    &&& final(self)@ == old(self)@
                },
            },
    {
        match self.find_queue(label) {
            None => Err(BrokerError::UnknownQueue),
            Some(at) => {
                let id = self.channel_receivers.create(
                    topic,
                    label.to_owned(),
                    &self.queues[at].broadcast_end,
                );
                proof {
                    assert(self@.queues =~= old(self)@.queues);
                    old(self).lemma_queue_at(at as int);
                    assert forall|other: u128| #[trigger]
                        self.channel_receivers.routes().contains_key(other) implies exists|i: int|
                        0 <= i < self.queues@.len() && #[trigger] self.queues@[i].label@
                            == self.channel_receivers.routes()[other] by {
                        if other == id {
                            assert(self.queues@[at as int].label@ == label@);
                        } else {
                            assert(old(self).channel_receivers.routes().contains_key(other));
                        }
                    }
                    assert forall|other: u128| #[trigger]
                        self.channel_receivers.tickets().contains_key(other) implies exists|i: int|
                        {
                            &&& 0 <= i < self.queues@.len()
                            &&& #[trigger] self.queues@[i].label@
                                == self.channel_receivers.routes()[other]
                            &&& self.queues@[i].broadcast_end.channel()
                                == self.channel_receivers.tickets()[other].channel
                        } by {
                        if other == id {
                            assert(self.queues@[at as int].label@ == label@);
                        } else {
                            assert(old(self).channel_receivers.tickets().contains_key(other));
                            old(self).channel_receivers.lemma_wf();
                            assert(old(self).channel_receivers.routes().contains_key(other));
                            let i = choose|i: int|
                                {
                                    &&& 0 <= i < old(self).queues@.len()
                                    &&& #[trigger] old(self).queues@[i].label@ == old(
                                        self,
                                    ).channel_receivers.routes()[other]
                                    &&& old(self).queues@[i].broadcast_end.channel() == old(
                                        self,
                                    ).channel_receivers.tickets()[other].channel
                                };
                            assert(self.queues@[i].label@
                                == self.channel_receivers.routes()[other]);
                        }
                    }
                }
                Ok(format_uuid(id))
            },
        }
    }

    /// Deletes the reserved channel named by `channel_id`, without ever
    /// streaming from it. It fails where the text is no identifier, and
    /// where the channel is not reserved.
    pub fn delete_channel(&mut self, channel_id: &str) -> (result: Result<(), BrokerError>)
        requires
            old(self).wf(),
        ensures
            final(self).wf(),
            final(self).spec_host() == old(self).spec_host(),
            final(self).spec_port() == old(self).spec_port(),
            (final(self)@, result) == old(self)@.delete_channel(parsed_uuid(channel_id@)),
    {
        match parse_uuid(channel_id) {
            None => Err(BrokerError::MalformedChannelId),
            Some(id) => {
                let deleted = self.channel_receivers.delete(id);
                proof {
                    assert(self@.queues =~= old(self)@.queues);
                    old(self).channel_receivers.lemma_wf();
                    self.lemma_kept_channels(*old(self));
                }
                if deleted {
                    Ok(())
                } else {
                    assert(self.channel_receivers.tickets() =~= old(
                        self,
                    ).channel_receivers.tickets());
                    Err(BrokerError::UnknownChannel)
                }
            },
        }
    }

    /// A broker whose queues are those of a well-formed one, and whose
    /// channels are some of that one's, is well formed.
    proof fn lemma_kept_channels(&self, before: StreamServer)
        requires
            before.wf(),
            self.channel_receivers.wf(),
            self.queues == before.queues,
            self.channel_receivers.routes().submap_of(before.channel_receivers.routes()),
            self.channel_receivers.tickets().submap_of(before.channel_receivers.tickets()),
        ensures
            self.wf(),
    {
        assert forall|id: u128| #[trigger]
            self.channel_receivers.routes().contains_key(id) implies exists|i: int|
            0 <= i < self.queues@.len() && #[trigger] self.queues@[i].label@
                == self.channel_receivers.routes()[id] by {
            assert(before.channel_receivers.routes().contains_key(id));
        }
        assert forall|id: u128| #[trigger]
            self.channel_receivers.tickets().contains_key(id) implies exists|i: int|
            {
                &&& 0 <= i < self.queues@.len()
                &&& #[trigger] self.queues@[i].label@ == self.channel_receivers.routes()[id]
                &&& self.queues@[i].broadcast_end.channel()
                    == self.channel_receivers.tickets()[id].channel
            } by {
            assert(before.channel_receivers.tickets().contains_key(id));
            self.channel_receivers.lemma_wf();
            assert(self.channel_receivers.routes().contains_key(id));
            assert(before.channel_receivers.routes().contains_key(id));
            let i = choose|i: int|
                {
                    &&& 0 <= i < before.queues@.len()
                    &&& #[trigger] before.queues@[i].label@ == before.channel_receivers.routes()[id]
                    &&& before.queues@[i].broadcast_end.channel()
                        == before.channel_receivers.tickets()[id].channel
                };
            assert(self.queues@[i].label@ == self.channel_receivers.routes()[id]);
        }
    }

    /// The engine that a push through the channel named by `channel_id`
    /// goes to: that of the queue that the channel is routed to. It fails
    /// where the text is no identifier, and where the channel is not known.
    pub fn engine_for(&self, channel_id: &str) -> (found: Result<&BroadcastEnd, BrokerError>)
        requires
            self.wf(),
        ensures
            match self@.push_target(parsed_uuid(channel_id@)) {
                Ok(label) => {
                    &&& found matches Ok(engine)
                    &&& self@.queues.contains_key(label)
                    &&& engine.channel() == self@.queues[label]
                    &&& !engine.is_torn_down()
                    &&& engine.spec_capacity() == DEFAULT_CAPACITY
                },
                Err(error) => found matches Err(failed) && failed == error,
            },
    {
        match parse_uuid(channel_id) {
            None => Err(BrokerError::MalformedChannelId),
            Some(id) => match self.channel_receivers.route(id) {
                None => Err(BrokerError::UnknownChannel),
                Some(label) => match self.find_queue(label.as_str()) {
                    None => {
                        proof {
                            self.lemma_inv();
                        }
                        Err(BrokerError::UnknownChannel)
                    },
                    Some(at) => {
                        proof {
                            self.lemma_queue_at(at as int);
                        }
                        Ok(&self.queues[at].broadcast_end)
                    },
                },
            },
        }
    }

    /// Publishes an envelope with a new identifier on the engine that
    /// `engine_for` gives for `channel_id`. It fails where that fails, and
    /// where the engine's channel refuses the envelope; having no subscriber
    /// is no failure.
    pub fn push_to_channel(&self, channel_id: &str, content: Vec<u8>, topic: String) -> (result:
        Result<(), BrokerError>)
        requires
            self.wf(),
        ensures
            match self@.push_target(parsed_uuid(channel_id@)) {
                Err(error) => result == Err::<(), BrokerError>(error),
                Ok(_) => exists|outcome: SendOutcome| result == #[trigger] spec_verdict(outcome),
            },
    {
        match self.engine_for(channel_id) {
            Err(error) => Err(error),
            Ok(engine) => engine.broadcast(Message::stamped(random_uuid(), content, topic)),
        }
    }

    /// Consumes the ticket of the channel named by `channel_id` and hands
    /// out its receiving end: the receiver that was forked for the channel
    /// from its queue's engine, with the channel's filter. A ticket is
    /// consumed once: the channel is not reserved afterwards. It fails
    /// where the text is no identifier, and where the channel is not
    /// reserved.
    pub fn subscribe_to_channel(&mut self, channel_id: &str) -> (result: Result<
        ChannelReceiver,
        BrokerError,
    >)
        requires
            old(self).wf(),
        ensures
            final(self).wf(),
            final(self).spec_host() == old(self).spec_host(),
            final(self).spec_port() == old(self).spec_port(),
            (final(self)@, subscription_view(result)) == old(self)@.subscribe(
                parsed_uuid(channel_id@),
            ),
    {
        match parse_uuid(channel_id) {
            None => Err(BrokerError::MalformedChannelId),
            Some(id) => {
                let ticket = self.channel_receivers.consume(id);
                proof {
                    assert(self@.queues =~= old(self)@.queues);
                    self.lemma_kept_channels(*old(self));
                }
                match ticket {
                    Some(subscription) => Ok(subscription),
                    None => {
                        assert(self.channel_receivers.tickets() =~= old(
                            self,
                        ).channel_receivers.tickets());
                        Err(BrokerError::UnknownChannel)
                    },
                }
            },
        }
    }

    /// The identifiers of the reserved channels as text, each once.
    pub fn list_channels(&self) -> (texts: Vec<String>)
        requires
            self.wf(),
        ensures
            texts@.len() == self@.tickets.dom().len(),
            forall|i: int|
                0 <= i < texts@.len() ==> {
                    &&& parsed_uuid(#[trigger] texts@[i]@) matches Some(id)
                    &&& self@.tickets.contains_key(id)
                    &&& texts@[i]@ == uuid_text(id)
                },
            forall|id: u128|
                self@.tickets.contains_key(id) ==> exists|i: int|
                    0 <= i < texts@.len() && #[trigger] texts@[i]@ == uuid_text(id),
    {
        let ids = self.channel_receivers.reserved();
        proof {
            ids@.unique_seq_to_set();
        }
        let mut texts: Vec<String> = Vec::new();
        let mut next: usize = 0;
        while next < ids.len()
            invariant
                next <= ids@.len(),
                texts@.len() == next,
                forall|i: int|
                    0 <= i < next ==> parsed_uuid(#[trigger] texts@[i]@) == Some(ids@[i])
                        && texts@[i]@ == uuid_text(ids@[i]),
            decreases ids@.len() - next,
        {
            texts.push(format_uuid(ids[next]));
            next = next + 1;
        }
        proof {
            assert forall|i: int| 0 <= i < texts@.len() implies {
                &&& parsed_uuid(#[trigger] texts@[i]@) matches Some(id)
                &&& self@.tickets.contains_key(id)
                &&& texts@[i]@ == uuid_text(id)
            } by {
                assert(ids@.contains(ids@[i]));
                assert(ids@.to_set().contains(ids@[i]));
            }
            assert forall|id: u128| self@.tickets.contains_key(id) implies exists|i: int|
                0 <= i < texts@.len() && #[trigger] texts@[i]@ == uuid_text(id) by {
                assert(ids@.to_set().contains(id));
                let i = choose|i: int| 0 <= i < ids@.len() && ids@[i] == id;
                assert(texts@[i]@ == uuid_text(id));
            }
        }
        texts
    }
}

} // verus!
