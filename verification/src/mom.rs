//! The manager's fleet registry and the node selector.

use vstd::prelude::*;
use rand::seq::IteratorRandom;
use crate::error::ErrorKind;
use crate::message::same_text;

verus! {

/// A broker node as the manager's storage records it.
#[derive(Clone, Debug)]
pub struct MoMRecord {
    pub id: u128,
    pub host: String,
    pub port: i32,
    /// Whether the health check last found the node reachable.
    pub is_up: bool,
}

/// A broker node as the registry holds it. `C` is the client connection,
/// which may be absent even for a live node.
#[derive(Debug)]
pub struct RegisteredMoM<C> {
    pub connection: Option<C>,
    pub host: String,
    pub port: i32,
}

/// What a node is found by: its host and port.
pub type NodeKey = (Seq<char>, i32);

pub open spec fn key_of<C>(mom: RegisteredMoM<C>) -> NodeKey {
    (mom.host@, mom.port)
}

/// The nodes registered one after the other: a later one replaces an
/// earlier one with the same host and port.
pub open spec fn registered<C>(moms: Seq<RegisteredMoM<C>>) -> Map<NodeKey, Option<C>>
    decreases moms.len(),
{
    if moms.len() == 0 {
        Map::empty()
    } else {
        registered(moms.drop_last()).insert(key_of(moms.last()), moms.last().connection)
    }
}

/// Why the registry could not hand out a node's client.
#[derive(Clone, Copy, Debug, PartialEq, Eq, Structural)]
pub enum FleetError {
    /// No node is registered under the host and port.
    NodeNotFound,
    /// The node is registered and holds no connection.
    ConnectionUnavailable,
}

impl FleetError {
    pub open spec fn spec_kind(self) -> ErrorKind {
        match self {
            FleetError::NodeNotFound => ErrorKind::NotFound,
            FleetError::ConnectionUnavailable => ErrorKind::Unavailable,
        }
    }

    /// The category of this failure.
    pub fn kind(self) -> (kind: ErrorKind)
        ensures
            kind == self.spec_kind(),
    {
        match self {
            FleetError::NodeNotFound => ErrorKind::NotFound,
            FleetError::ConnectionUnavailable => ErrorKind::Unavailable,
        }
    }
}

/// The registered nodes, each found by its host and port.
pub struct RegisteredMoMs<C> {
    moms: Vec<RegisteredMoM<C>>,
}

impl<C> View for RegisteredMoMs<C> {
    type V = Map<NodeKey, Option<C>>;

    /// Each registered node's key with the connection it holds.
    closed spec fn view(&self) -> Map<NodeKey, Option<C>> {
        Map::new(
            |key: NodeKey| exists|i: int| 0 <= i < self.moms@.len() && key_of(#[trigger] self.moms@[i]) == key,
            |key: NodeKey|
                self.moms@[choose|i: int|
                    0 <= i < self.moms@.len() && key_of(#[trigger] self.moms@[i]) == key].connection,
        )
    }
}

impl<C> RegisteredMoMs<C> {
    /// No two registered nodes have the same host and port.
    pub closed spec fn wf(&self) -> bool {
        forall|i: int, j: int|
            0 <= i < j < self.moms@.len() ==> key_of(#[trigger] self.moms@[i]) != key_of(
                #[trigger] self.moms@[j],
            )
    }

    proof fn lemma_view_at(&self, at: int)
        requires
            self.wf(),
            0 <= at < self.moms@.len(),
        ensures
            self@.contains_key(key_of(self.moms@[at])),
            self@[key_of(self.moms@[at])] == self.moms@[at].connection,
    {
        let key = key_of(self.moms@[at]);
        let found = choose|i: int| 0 <= i < self.moms@.len() && key_of(#[trigger] self.moms@[i]) == key;
        assert(found == at);
    }

    /// The place of the node with the host and port among the nodes.
    fn find(&self, host: &str, port: i32) -> (found: Option<usize>)
        ensures
            found matches Some(at) ==> at < self.moms@.len() && key_of(self.moms@[at as int]) == (
                host@,
                port,
            ),
            found is None ==> !self@.contains_key((host@, port)),
    {
        let mut at: usize = 0;
        while at < self.moms.len()
            invariant
                at <= self.moms@.len(),
                forall|i: int| 0 <= i < at ==> key_of(#[trigger] self.moms@[i]) != (host@, port),
            decreases self.moms@.len() - at,
        {
            if self.moms[at].port == port && same_text(self.moms[at].host.as_str(), host) {
                return Some(at);
            }
            at = at + 1;
        }
        None
    }

    /// Registers `mom`. A node registered under the same host and port is
    /// replaced and handed back.
    pub fn register(&mut self, mom: RegisteredMoM<C>) -> (replaced: Option<RegisteredMoM<C>>)
        requires
            old(self).wf(),
        ensures
            final(self).wf(),
            final(self)@ == old(self)@.insert(key_of(mom), mom.connection),
            replaced is Some <==> old(self)@.contains_key(key_of(mom)),
            replaced matches Some(before) ==> key_of(before) == key_of(mom) && before.connection
                == old(self)@[key_of(mom)],
    {
        let ghost key = key_of(mom);
        let found = self.find(mom.host.as_str(), mom.port);
        self.moms.push(mom);
        match found {
            None => {
                proof {
                    assert forall|i: int| 0 <= i < old(self).moms@.len() implies key_of(
                        #[trigger] old(self).moms@[i],
                    ) != key by {
                        if key_of(old(self).moms@[i]) == key {
                            assert(old(self)@.contains_key(key));
                        }
                    }
                    assert forall|at: int| 0 <= at < self.moms@.len() implies self@.contains_key(
                        key_of(#[trigger] self.moms@[at]),
                    ) && self@[key_of(self.moms@[at])] == self.moms@[at].connection by {
                        self.lemma_view_at(at);
                    }
                    assert forall|at: int| 0 <= at < old(self).moms@.len() implies old(
                        self,
                    )@.contains_key(key_of(#[trigger] old(self).moms@[at])) && old(self)@[key_of(
                        old(self).moms@[at],
                    )] == old(self).moms@[at].connection by {
                        old(self).lemma_view_at(at);
                    }
                    assert(self@ =~= old(self)@.insert(key, mom.connection)) by {
                        assert forall|other: NodeKey| self@.contains_key(other) implies old(
                            self,
                        )@.insert(key, mom.connection).contains_key(other) by {
                            let i = choose|i: int|
                                0 <= i < self.moms@.len() && key_of(#[trigger] self.moms@[i])
                                    == other;
                            if i < old(self).moms@.len() {
                                assert(self.moms@[i] == old(self).moms@[i]);
                            }
                        }
                        assert forall|other: NodeKey| old(self)@.insert(
                            key,
                            mom.connection,
                        ).contains_key(other) implies self@.contains_key(other) by {
                            if other == key {
                                assert(key_of(self.moms@[self.moms@.len() - 1]) == key);
                            } else {
                                let i = choose|i: int|
                                    0 <= i < old(self).moms@.len() && key_of(
                                        #[trigger] old(self).moms@[i],
                                    ) == other;
                                assert(self.moms@[i] == old(self).moms@[i]);
                            }
                        }
                        assert forall|other: NodeKey| self@.contains_key(other) implies self@[other]
                            == old(self)@.insert(key, mom.connection)[other] by {
                            let i = choose|i: int|
                                0 <= i < self.moms@.len() && key_of(#[trigger] self.moms@[i])
                                    == other;
                            if i < old(self).moms@.len() {
                                assert(self.moms@[i] == old(self).moms@[i]);
                            }
                        }
                    }
                }
                None
            },
            Some(at) => {
                let before = self.moms.swap_remove(at);
                proof {
                    let last = old(self).moms@.len() as int;
                    assert forall|i: int| 0 <= i < self.moms@.len() implies self.moms@[i] == (if i
                        == at {
                        mom
                    } else {
                        old(self).moms@[i]
                    }) by {}
                    assert forall|i: int| 0 <= i < self.moms@.len() implies key_of(
                        #[trigger] self.moms@[i],
                    ) == key_of(old(self).moms@[i]) by {}
                    assert forall|i: int| 0 <= i < self.moms@.len() implies self@.contains_key(
                        key_of(#[trigger] self.moms@[i]),
                    ) && self@[key_of(self.moms@[i])] == self.moms@[i].connection by {
                        self.lemma_view_at(i);
                    }
                    assert forall|i: int| 0 <= i < old(self).moms@.len() implies old(
                        self,
                    )@.contains_key(key_of(#[trigger] old(self).moms@[i])) && old(self)@[key_of(
                        old(self).moms@[i],
                    )] == old(self).moms@[i].connection by {
                        old(self).lemma_view_at(i);
                    }
                    assert(self@ =~= old(self)@.insert(key, mom.connection)) by {
                        assert forall|other: NodeKey| self@.contains_key(other) implies old(
                            self,
                        )@.insert(key, mom.connection).contains_key(other) && self@[other] == old(
                            self,
                        )@.insert(key, mom.connection)[other] by {
                            let i = choose|i: int|
                                0 <= i < self.moms@.len() && key_of(#[trigger] self.moms@[i])
                                    == other;
                            assert(key_of(old(self).moms@[i]) == other);
                        }
                        assert forall|other: NodeKey| old(self)@.insert(
                            key,
                            mom.connection,
                        ).contains_key(other) implies self@.contains_key(other) by {
                            if other == key {
                                assert(key_of(self.moms@[at as int]) == key);
                            } else {
                                let i = choose|i: int|
                                    0 <= i < old(self).moms@.len() && key_of(
                                        #[trigger] old(self).moms@[i],
                                    ) == other;
                                assert(key_of(self.moms@[i]) == other);
                            }
                        }
                    }
                }
                Some(before)
            },
        }
    }

    /// The registry of the nodes `moms`, registered in their order.
    pub fn new(moms: Vec<RegisteredMoM<C>>) -> (registry: RegisteredMoMs<C>)
        ensures
            registry.wf(),
            registry@ == registered(moms@),
    {
        let mut registry = RegisteredMoMs { moms: Vec::new() };
        assert(registry@ =~= Map::<NodeKey, Option<C>>::empty());
        let ghost all = moms@;
        for mom in walk: moms
            invariant
                walk.seq() == all,
                registry.wf(),
                registry@ == registered(all.take(walk.index())),
        {
            proof {
                let at = walk.index();
                assert(all.take(at + 1).drop_last() =~= all.take(at));
                assert(all.take(at + 1).last() == mom);
            }
            registry.register(mom);
        }
        assert(all.take(all.len() as int) =~= all);
        registry
    }

    /// The client held for the node at `host` and `port`.
    pub fn client(&self, host: &str, port: i32) -> (result: Result<&C, FleetError>)
        requires
            self.wf(),
        ensures
            match result {
                Ok(client) => self@.contains_key((host@, port)) && self@[(host@, port)] == Some(
                    *client,
                ),
                Err(FleetError::NodeNotFound) => !self@.contains_key((host@, port)),
                Err(FleetError::ConnectionUnavailable) => self@.contains_key((host@, port))
                    && self@[(host@, port)] is None,
            },
    {
        match self.find(host, port) {
            None => Err(FleetError::NodeNotFound),
            Some(at) => {
                proof {
                    self.lemma_view_at(at as int);
                }
                match &self.moms[at].connection {
                    Some(client) => Ok(client),
                    None => Err(FleetError::ConnectionUnavailable),
                }
            },
        }
    }

    /// Looks the node at `host` and `port` up and calls `f` on its client.
    /// It fails, without calling `f`, where no such node is registered and
    /// where the node holds no connection.
    pub fn with_node_client<R, F: FnOnce(&C) -> R>(&self, host: &str, port: i32, f: F) -> (result:
        Result<R, FleetError>)
        requires
            self.wf(),
            forall|client: C|
                self@.contains_key((host@, port)) && self@[(host@, port)] == Some(client)
                    ==> call_requires(f, (&client,)),
        ensures
            match result {
                Ok(value) => {
                    &&& self@.contains_key((host@, port))
                    &&& self@[(host@, port)] matches Some(client)
                    &&& call_ensures(f, (&client,), value)
                },
                Err(FleetError::NodeNotFound) => !self@.contains_key((host@, port)),
                Err(FleetError::ConnectionUnavailable) => self@.contains_key((host@, port))
                    && self@[(host@, port)] is None,
            },
    {
        match self.client(host, port) {
            Ok(client) => Ok(f(client)),
            Err(error) => Err(error),
        }
    }
}

/// The places of the live nodes among `moms`, in ascending order.
pub open spec fn live(moms: Seq<MoMRecord>) -> Seq<usize>
    decreases moms.len(),
{
    if moms.len() == 0 {
        Seq::empty()
    } else if moms.last().is_up {
        live(moms.drop_last()).push((moms.len() - 1) as usize)
    } else {
        live(moms.drop_last())
    }
}

/// `live` holds the places of the live nodes, and those only.
pub proof fn lemma_live(moms: Seq<MoMRecord>)
    requires
        moms.len() <= usize::MAX,
    ensures
        forall|k: int|
            0 <= k < live(moms).len() ==> (#[trigger] live(moms)[k]) < moms.len() && moms[live(
                moms,
            )[k] as int].is_up,
        forall|i: int| 0 <= i < moms.len() && moms[i].is_up ==> live(moms).contains(i as usize),
    decreases moms.len(),
{
    if moms.len() > 0 {
        let before = moms.drop_last();
        lemma_live(before);
        assert forall|k: int| 0 <= k < live(moms).len() implies (#[trigger] live(moms)[k])
            < moms.len() && moms[live(moms)[k] as int].is_up by {
            if k < live(before).len() {
                assert(live(moms)[k] == live(before)[k]);
                assert(before[live(before)[k] as int].is_up);
            }
        }
        assert forall|i: int| 0 <= i < moms.len() && moms[i].is_up implies live(moms).contains(
            i as usize,
        ) by {
            if i < before.len() {
                assert(before[i].is_up);
                let k = choose|k: int|
                    0 <= k < live(before).len() && live(before)[k] == i as usize;
                assert(live(moms)[k] == i as usize);
            } else {
                assert(live(moms)[live(moms).len() - 1] == i as usize);
            }
        }
    }
}

/// Collects the places of the live nodes.
pub fn live_nodes(moms: &Vec<MoMRecord>) -> (up: Vec<usize>)
    ensures
        up@ == live(moms@),
{
    let mut up: Vec<usize> = Vec::new();
    let mut at: usize = 0;
    while at < moms.len()
        invariant
            at <= moms@.len(),
            up@ == live(moms@.take(at as int)),
        decreases moms@.len() - at,
    {
        proof {
            assert(moms@.take(at + 1).drop_last() =~= moms@.take(at as int));
        }
        if moms[at].is_up {
            up.push(at);
        }
        at = at + 1;
    }
    assert(moms@.take(at as int) =~= moms@);
    up
}

/// Calls `rand::seq::IteratorRandom::choose` with the thread's generator on
/// the items of `options`. It gives none exactly when there is no item, and
/// else one of the items; which one is left to chance.
#[verifier::external_body]
fn choose_one(options: &Vec<usize>) -> (chosen: Option<usize>)
    ensures
        chosen is Some <==> options@.len() > 0,
        chosen matches Some(item) ==> options@.contains(item),
{
    options.iter().copied().choose(&mut rand::thread_rng())
}

/// The key and the identifier of the node at the place `choice`; none
/// where nothing was chosen or the place is not among `moms`.
pub fn chosen_key(moms: &Vec<MoMRecord>, choice: Option<usize>) -> (picked: Option<
    ((String, i32), u128),
>)
    ensures
        picked is Some <==> (choice matches Some(at) && at < moms@.len()),
        picked matches Some(((host, port), id)) ==> {
            &&& host == moms@[choice->0 as int].host
            &&& port == moms@[choice->0 as int].port
            &&& id == moms@[choice->0 as int].id
        },
{
    match choice {
        Some(at) => {
            if at < moms.len() {
                Some(((moms[at].host.clone(), moms[at].port), moms[at].id))
            } else {
                None
            }
        },
        None => None,
    }
}

/// Whether `picked` is an answer of the node selector on `moms`: the key
/// and identifier of one of the live nodes, or none where no node is live.
pub open spec fn may_pick(moms: Seq<MoMRecord>, picked: Option<((String, i32), u128)>) -> bool {
    match picked {
        Some(((host, port), id)) => exists|i: int|
            {
                &&& 0 <= i < moms.len()
                &&& (#[trigger] moms[i]).is_up
                &&& host == moms[i].host
                &&& port == moms[i].port
                &&& id == moms[i].id
            },
        None => forall|i: int| 0 <= i < moms.len() ==> !(#[trigger] moms[i]).is_up,
    }
}

impl<C> RegisteredMoMs<C> {
    /// Picks one of the live nodes of `moms` at random, each with the same
    /// chance, and gives its key and identifier. It gives none exactly when
    /// no node is live. It reads the list it is given and nothing else.
    pub fn get_random_up_key(moms: &Vec<MoMRecord>) -> (picked: Option<((String, i32), u128)>)
        ensures
            may_pick(moms@, picked),
    {
        let up = live_nodes(moms);
        let choice = choose_one(&up);
        proof {
            assert(moms@.len() <= usize::MAX) by {
                assert(moms.len() <= usize::MAX);
            }
            lemma_live(moms@);
            if exists|i: int| 0 <= i < moms@.len() && (#[trigger] moms@[i]).is_up {
                let i = choose|i: int| 0 <= i < moms@.len() && (#[trigger] moms@[i]).is_up;
                assert(live(moms@).contains(i as usize));
            }
            if up@.len() > 0 {
                assert(moms@[up@[0] as int].is_up);
            }
            if let Some(at) = choice {
                let k = choose|k: int| 0 <= k < up@.len() && up@[k] == at;
                assert(moms@[live(moms@)[k] as int].is_up);
            }
        }
        chosen_key(moms, choice)
    }
}

} // verus!
