//! The channel ticket registry of a broker.
//!
//! A channel is a reservation for one subscription. Its ticket holds the
//! receiver forked for it and its topic filter, and leaves the registry when
//! it is consumed or deleted. The route of a channel, the label of its queue,
//! stays until the channel is deleted or its queue revoked, so that a
//! publisher can still name the channel while a subscriber streams from it.

use vstd::prelude::*;
use vstd::std_specs::iter::IteratorSpec;
use std::collections::HashMap;
use crate::ident::random_uuid;
use crate::message::{filter_view, same_text};
use crate::queue::{BroadcastEnd, ChannelId, ChannelReceiver, TicketView};

verus! {

/// The `step`-th identifier tried when `start` is taken.
pub open spec fn probe(start: u128, step: u128) -> u128 {
    start ^ step
}

/// The first `steps` identifiers tried from `start`.
pub open spec fn probed(start: u128, steps: u128) -> Set<u128> {
    Set::new(|id: u128| exists|step: u128| step < steps && id == #[trigger] probe(start, step))
}

proof fn lemma_probe_injective(start: u128, a: u128, b: u128)
    requires
        probe(start, a) == probe(start, b),
    ensures
        a == b,
{
    assert((start ^ a) == (start ^ b) ==> a == b) by (bit_vector);
}

/// The first `steps` identifiers tried are `steps` different ones.
proof fn lemma_probed_len(start: u128, steps: u128)
    ensures
        probed(start, steps).finite(),
        probed(start, steps).len() == steps,
    decreases steps,
{
    if steps == 0 {
        assert(probed(start, steps) =~= Set::<u128>::empty());
    } else {
        let before = (steps - 1) as u128;
        lemma_probed_len(start, before);
        let last = probe(start, before);
        assert(!probed(start, before).contains(last)) by {
            if probed(start, before).contains(last) {
                let step = choose|step: u128| step < before && last == #[trigger] probe(start, step);
                lemma_probe_injective(start, step, before);
            }
        }
        assert(probed(start, steps) =~= probed(start, before).insert(last)) by {
            assert forall|id: u128| probed(start, before).insert(last).contains(id) implies probed(
                start,
                steps,
            ).contains(id) by {
                if id == last {
                    assert(before < steps && id == probe(start, before));
                } else {
                    let step = choose|step: u128|
                        step < before && id == #[trigger] probe(start, step);
                    assert(step < steps && id == probe(start, step));
                }
            }
            assert forall|id: u128| probed(start, steps).contains(id) implies probed(
                start,
                before,
            ).insert(last).contains(id) by {
                let step = choose|step: u128| step < steps && id == #[trigger] probe(start, step);
                if step < before {
                    assert(probed(start, before).contains(id));
                }
            }
        }
    }
}

/// The routes left when the queue `label` goes: those of the other queues.
pub open spec fn routes_without(routes: Map<u128, Seq<char>>, label: Seq<char>) -> Map<
    u128,
    Seq<char>,
> {
    Map::new(|id: u128| routes.contains_key(id) && routes[id] != label, |id: u128| routes[id])
}

/// The tickets left when the queue `label` goes: those whose channel is
/// routed to another queue.
pub open spec fn tickets_without(
    tickets: Map<u128, TicketView>,
    routes: Map<u128, Seq<char>>,
    label: Seq<char>,
) -> Map<u128, TicketView> {
    Map::new(
        |id: u128| tickets.contains_key(id) && routes.contains_key(id) && routes[id] != label,
        |id: u128| tickets[id],
    )
}

/// The tickets of the reserved channels and the routes of the known ones.
pub struct ChannelRegistry {
    tickets: HashMap<u128, ChannelReceiver>,
    routes: HashMap<u128, String>,
}

impl ChannelRegistry {
    /// The reserved channels: each with its topic filter and the channel
    /// that its receiver reads.
    pub closed spec fn tickets(&self) -> Map<u128, TicketView> {
        self.tickets@.map_values(|ticket: ChannelReceiver| ticket@)
    }

    /// The known channels, reserved or streaming: each with its queue's label.
    pub closed spec fn routes(&self) -> Map<u128, Seq<char>> {
        self.routes@.map_values(|label: String| label@)
    }

    /// Every reserved channel is a known channel.
    pub closed spec fn wf(&self) -> bool {
        self.tickets@.dom().subset_of(self.routes@.dom())
    }

    /// What a well-formed registry holds: no ticket without a route, and
    /// finitely many of each.
    pub proof fn lemma_wf(&self)
        requires
            self.wf(),
        ensures
            self.tickets().dom().subset_of(self.routes().dom()),
            self.tickets().dom().finite(),
            self.routes().dom().finite(),
    {
        broadcast use vstd::std_specs::hash::group_hash_axioms;
        assert(self.tickets().dom() =~= self.tickets@.dom());
        assert(self.routes().dom() =~= self.routes@.dom());
    }

    /// A registry that knows no channel.
    pub fn new() -> (registry: ChannelRegistry)
        ensures
            registry.wf(),
            registry.tickets() == Map::<u128, TicketView>::empty(),
            registry.routes() == Map::<u128, Seq<char>>::empty(),
    {
        let registry = ChannelRegistry { tickets: HashMap::new(), routes: HashMap::new() };
        assert(registry.tickets() =~= Map::<u128, TicketView>::empty());
        assert(registry.routes() =~= Map::<u128, Seq<char>>::empty());
        registry
    }

    /// An identifier that no known channel has: `start` itself where it is
    /// free, else the first free one tried after it.
    fn unused_id(&self, start: u128) -> (id: u128)
        ensures
            !self.routes().contains_key(id),
            !self.routes().contains_key(start) ==> id == start,
    {
        broadcast use vstd::std_specs::hash::group_hash_axioms;
        let known = self.routes.len();
        let mut step: u128 = 0;
        let mut id: u128 = start;
        assert(start ^ 0 == start) by (bit_vector);
        while self.routes.contains_key(&id)
            invariant
                id == probe(start, step),
                step == 0 ==> id == start,
                step <= self.routes@.dom().len(),
                self.routes@.dom().finite(),
                self.routes@.dom().len() == known,
                probed(start, step).subset_of(self.routes@.dom()),
                step == 0 || self.routes@.contains_key(start),
            decreases self.routes@.dom().len() - step,
        {
            proof {
                let next = (step + 1) as u128;
                lemma_probed_len(start, next);
                assert(probed(start, next).subset_of(self.routes@.dom())) by {
                    assert forall|other: u128| probed(start, next).contains(
                        other,
                    ) implies self.routes@.dom().contains(other) by {
                        let at = choose|at: u128| at < next && other == #[trigger] probe(start, at);
                        if at < step {
                            assert(probed(start, step).contains(other));
                        }
                    }
                }
                vstd::set_lib::lemma_len_subset(probed(start, next), self.routes@.dom());
            }
            step = step + 1;
            id = start ^ step;
        }
        assert(self.routes().dom() =~= self.routes@.dom());
        id
    }

    /// Reserves a channel on the queue `label`: forks a receiver from the
    /// queue's engine `queue` and stores it with the filter under a new
    /// identifier.
    pub fn create(&mut self, topic: Option<String>, label: String, queue: &BroadcastEnd) -> (id:
        ChannelId)
        requires
            old(self).wf(),
        ensures
            final(self).wf(),
            !old(self).routes().contains_key(id),
            final(self).tickets() == old(self).tickets().insert(
                id,
                TicketView { filter: filter_view(topic), channel: queue.channel() },
            ),
            final(self).routes() == old(self).routes().insert(id, label@),
    {
        broadcast use vstd::std_specs::hash::group_hash_axioms;
        let receiver = queue.fork_receiver();
        let id = self.unused_id(random_uuid());
        let ghost ticket = TicketView { filter: filter_view(topic), channel: queue.channel() };
        self.routes.insert(id, label);
        self.tickets.insert(id, ChannelReceiver { receiver, topic });
        assert(self.tickets() =~= old(self).tickets().insert(id, ticket));
        assert(self.routes() =~= old(self).routes().insert(id, label@));
        id
    }

    /// Takes the ticket of `id` out of the registry, if it is there, and
    /// hands out what was stored for it: the receiver forked at its creation
    /// and its filter. The channel stays known.
    pub fn consume(&mut self, id: ChannelId) -> (ticket: Option<ChannelReceiver>)
        requires
            old(self).wf(),
        ensures
            final(self).wf(),
            ticket is Some <==> old(self).tickets().contains_key(id),
            ticket matches Some(taken) ==> taken@ == old(self).tickets()[id],
            final(self).tickets() == old(self).tickets().remove(id),
            final(self).routes() == old(self).routes(),
    {
        broadcast use vstd::std_specs::hash::group_hash_axioms;
        let ticket = self.tickets.remove(&id);
        assert(self.tickets() =~= old(self).tickets().remove(id));
        ticket
    }

    /// Deletes the reserved channel `id`. Returns whether it was reserved;
    /// a channel that is not reserved is left as it is.
    pub fn delete(&mut self, id: ChannelId) -> (deleted: bool)
        requires
            old(self).wf(),
        ensures
            final(self).wf(),
            deleted == old(self).tickets().contains_key(id),
            final(self).tickets() == old(self).tickets().remove(id),
            final(self).routes() == if deleted {
                old(self).routes().remove(id)
            } else {
                old(self).routes()
            },
    {
        broadcast use vstd::std_specs::hash::group_hash_axioms;
        match self.tickets.remove(&id) {
            Some(_) => {
                self.routes.remove(&id);
                assert(self.tickets() =~= old(self).tickets().remove(id));
                assert(self.routes() =~= old(self).routes().remove(id));
                true
            },
            None => {
                assert(self.tickets() =~= old(self).tickets().remove(id));
                false
            },
        }
    }

    /// The label of the queue that the known channel `id` belongs to.
    pub fn route(&self, id: ChannelId) -> (label: Option<&String>)
        ensures
            label is Some <==> self.routes().contains_key(id),
            label matches Some(found) ==> found@ == self.routes()[id],
    {
        broadcast use vstd::std_specs::hash::group_hash_axioms;
        self.routes.get(&id)
    }

    /// Whether the channel `id` is reserved.
    pub fn is_reserved(&self, id: ChannelId) -> (reserved: bool)
        ensures
            reserved == self.tickets().contains_key(id),
    {
        broadcast use vstd::std_specs::hash::group_hash_axioms;
        self.tickets.contains_key(&id)
    }

    /// The reserved channels, each once, in no particular order.
    pub fn reserved(&self) -> (ids: Vec<ChannelId>)
        ensures
            ids@.no_duplicates(),
            ids@.to_set() == self.tickets().dom(),
    {
        broadcast use vstd::std_specs::hash::group_hash_axioms;
        let ghost keys = self.tickets.keys().remaining();
        let mut ids: Vec<u128> = Vec::new();
        for key in walk: self.tickets.keys()
            invariant
                walk.seq() == keys,
                ids@.len() == walk.index(),
                ids@ == keys.take(ids@.len() as int).unref(),
        {
            ids.push(*key);
        }
        assert(keys.take(ids@.len() as int) == keys);
        assert(self.tickets().dom() =~= self.tickets@.dom());
        ids
    }

    /// The known channels routed to the queue `label`, each once.
    fn routed_to(&self, label: &str) -> (ids: Vec<ChannelId>)
        ensures
            ids@.no_duplicates(),
            forall|id: u128|
                ids@.contains(id) <==> self.routes@.contains_key(id) && self.routes@[id]@ == label@,
    {
        broadcast use vstd::std_specs::hash::group_hash_axioms;
        let ghost keys = self.routes.keys().remaining();
        let mut ids: Vec<u128> = Vec::new();
        for key in walk: self.routes.keys()
            invariant
                walk.seq() == keys,
                keys.unref().to_set() == self.routes@.dom(),
                keys.unref().no_duplicates(),
                ids@.no_duplicates(),
                forall|id: u128|
                    ids@.contains(id) <==> keys.unref().take(walk.index()).contains(id)
                        && self.routes@[id]@ == label@,
        {
            let ghost before = ids@;
            let ghost at = walk.index();
            let ghost seen = keys.unref().take(at);
            proof {
                assert(keys.unref()[at] == *key);
                assert(keys.unref().take(at + 1) =~= seen.push(*key));
                assert(!seen.contains(*key)) by {
                    if seen.contains(*key) {
                        let earlier = choose|earlier: int|
                            0 <= earlier < seen.len() && seen[earlier] == *key;
                        assert(keys.unref()[earlier] == keys.unref()[at]);
                    }
                }
                assert(keys.unref().contains(*key));
                assert(self.routes@.dom().contains(*key));
                assert(!before.contains(*key));
            }
            match self.routes.get(key) {
                Some(found) => {
                    if same_text(found.as_str(), label) {
                        ids.push(*key);
                        assert(ids@ =~= before.push(*key));
                    }
                },
                None => {},
            }
            proof {
                assert forall|id: u128|
                    ids@.contains(id) <==> seen.push(*key).contains(id) && self.routes@[id]@
                        == label@ by {
                    vstd::seq_lib::lemma_seq_contains_after_push(seen, *key, id);
                    if ids@ != before {
                        vstd::seq_lib::lemma_seq_contains_after_push(before, *key, id);
                    }
                }
            }
        }
        assert(keys.unref().take(keys.len() as int) =~= keys.unref());
        ids
    }

    /// Forgets every channel of the queue `label`, reserved or streaming.
    pub fn revoke(&mut self, label: &str)
        requires
            old(self).wf(),
        ensures
            final(self).wf(),
            final(self).routes() == routes_without(old(self).routes(), label@),
            final(self).tickets() == tickets_without(
                old(self).tickets(),
                old(self).routes(),
                label@,
            ),
    {
        broadcast use vstd::std_specs::hash::group_hash_axioms;
        let doomed = self.routed_to(label);
        let mut next: usize = 0;
        while next < doomed.len()
            invariant
                next <= doomed.len(),
                self.wf(),
                self.routes@ == old(self).routes@.remove_keys(doomed@.take(next as int).to_set()),
                self.tickets@ == old(self).tickets@.remove_keys(
                    doomed@.take(next as int).to_set(),
                ),
            decreases doomed.len() - next,
        {
            let id = doomed[next];
            assert(doomed@.take(next + 1) =~= doomed@.take(next as int).push(id));
            proof {
                doomed@.take(next as int).lemma_push_to_set_commute(id);
            }
            self.tickets.remove(&id);
            self.routes.remove(&id);
            assert(self.routes@ =~= old(self).routes@.remove_keys(
                doomed@.take(next + 1).to_set(),
            ));
            assert(self.tickets@ =~= old(self).tickets@.remove_keys(
                doomed@.take(next + 1).to_set(),
            ));
            next = next + 1;
        }
        assert(doomed@.take(next as int) =~= doomed@);
        assert(self.routes() =~= routes_without(old(self).routes(), label@));
        assert(self.tickets() =~= tickets_without(
            old(self).tickets(),
            old(self).routes(),
            label@,
        ));
    }
}

} // verus!
