//! The manager's orchestration: what to do next in the life of a queue or a
//! channel, decided from what the storage and the broker nodes answered.
//!
//! The decisions are made here; reading the storage and calling a node is
//! left to the caller, which performs each action and comes back with the
//! event that it led to.

use vstd::prelude::*;
use crate::error::ErrorKind;
use crate::ident::random_uuid;
use crate::mom::{may_pick, FleetError, MoMRecord, RegisteredMoMs};

verus! {

/// What a client needs to dial a channel on its node.
#[derive(Clone, Debug)]
pub struct ConnectionInfo {
    pub id: String,
    pub host: String,
    pub port: i32,
}

/// A queue as the manager's storage records it.
#[derive(Clone, Debug)]
pub struct QueueRecord {
    pub id: u128,
    pub label: String,
}

/// Why a request to the manager failed.
#[derive(Clone, Copy, Debug, PartialEq, Eq, Structural)]
pub enum ApiError {
    /// A queue with the label is already recorded.
    QueueExists,
    /// No node is live.
    NoLiveNode,
    /// The target node is not registered.
    NodeNotFound,
    /// The target node holds no connection.
    NoConnection,
    /// The node refused the request; the category is the node's.
    Node(ErrorKind),
    /// An event came that the operation was not waiting for.
    Unexpected,
}

impl ApiError {
    pub open spec fn spec_kind(self) -> ErrorKind {
        match self {
            ApiError::QueueExists => ErrorKind::Conflict,
            ApiError::NoLiveNode => ErrorKind::Unavailable,
            ApiError::NodeNotFound => ErrorKind::NotFound,
            ApiError::NoConnection => ErrorKind::Unavailable,
            ApiError::Node(kind) => kind,
            ApiError::Unexpected => ErrorKind::Internal,
        }
    }

    pub open spec fn spec_message(self) -> Seq<char> {
        match self {
            ApiError::QueueExists => "Queue already exists"@,
            ApiError::NoLiveNode => "No MoMs available"@,
            ApiError::NodeNotFound => "MoM not registered"@,
            ApiError::NoConnection => "MoM not connected"@,
            ApiError::Node(_) => "MoM refused the request"@,
            ApiError::Unexpected => "Unexpected event"@,
        }
    }

    /// The text sent to the caller with this failure. A node's own text is
    /// not handed on.
    pub fn message(self) -> (text: String)
        ensures
            text@ == self.spec_message(),
    {
        match self {
            ApiError::QueueExists => "Queue already exists".to_owned(),
            ApiError::NoLiveNode => "No MoMs available".to_owned(),
            ApiError::NodeNotFound => "MoM not registered".to_owned(),
            ApiError::NoConnection => "MoM not connected".to_owned(),
            ApiError::Node(_) => "MoM refused the request".to_owned(),
            ApiError::Unexpected => "Unexpected event".to_owned(),
        }
    }

    /// The HTTP status and the text that answer a request that failed.
    pub fn refusal(self) -> (answer: (u16, String))
        ensures
            answer.0 == self.spec_kind().spec_http_status(),
            answer.1@ == self.spec_message(),
    {
        (self.kind().http_status(), self.message())
    }

    /// The category of this failure.
    pub fn kind(self) -> (kind: ErrorKind)
        ensures
            kind == self.spec_kind(),
    {
        match self {
            ApiError::QueueExists => ErrorKind::Conflict,
            ApiError::NoLiveNode => ErrorKind::Unavailable,
            ApiError::NodeNotFound => ErrorKind::NotFound,
            ApiError::NoConnection => ErrorKind::Unavailable,
            ApiError::Node(kind) => kind,
            ApiError::Unexpected => ErrorKind::Internal,
        }
    }
}

/// What came back from a call to a node through the registry: the
/// registry's failure, or the node's answer.
pub type NodeReply<T> = Result<Result<T, ErrorKind>, FleetError>;

/// The caller-facing result of a call to a node. A node's failure keeps its
/// category.
pub open spec fn spec_settle<T>(reply: NodeReply<T>) -> Result<T, ApiError> {
    match reply {
        Ok(Ok(value)) => Ok(value),
        Ok(Err(kind)) => Err(ApiError::Node(kind)),
        Err(FleetError::NodeNotFound) => Err(ApiError::NodeNotFound),
        Err(FleetError::ConnectionUnavailable) => Err(ApiError::NoConnection),
    }
}

/// Turns what came back from a call to a node into the result for the
/// caller. Deleting a queue, deleting a channel and listing the channels
/// hand the node's answer on in this way.
pub fn settle<T>(reply: NodeReply<T>) -> (result: Result<T, ApiError>)
    ensures
        result == spec_settle(reply),
{
    match reply {
        Ok(Ok(value)) => Ok(value),
        Ok(Err(kind)) => Err(ApiError::Node(kind)),
        Err(FleetError::NodeNotFound) => Err(ApiError::NodeNotFound),
        Err(FleetError::ConnectionUnavailable) => Err(ApiError::NoConnection),
    }
}

/// A failure keeps its category on the way from the node to the caller.
pub proof fn law_settle_keeps_kind<T>(reply: NodeReply<T>)
    ensures
        reply matches Ok(Err(kind)) ==> spec_settle(reply) matches Err(error) && error.spec_kind()
            == kind,
        reply matches Err(error) ==> spec_settle(reply) matches Err(wrapped) && wrapped.spec_kind()
            == error.spec_kind(),
        reply matches Ok(Ok(value)) ==> spec_settle(reply) == Ok::<T, ApiError>(value),
{
}

/// The node that every operation but queue creation targets.
pub fn fixed_node() -> (key: (String, i32))
    ensures
        key.0@ == "127.0.0.1"@,
        key.1 == 50051,
{
    ("127.0.0.1".to_owned(), 50051)
}

/// The answer to a request for a channel: the channel id that the node gave
/// with the node's host and port, for the client to dial.
pub fn connection_info(reply: NodeReply<String>, host: String, port: i32) -> (result: Result<
    ConnectionInfo,
    ApiError,
>)
    ensures
        match spec_settle(reply) {
            Ok(id) => result matches Ok(info) && info.id == id && info.host == host && info.port
                == port,
            Err(error) => result matches Err(failed) && failed == error,
        },
{
    match settle(reply) {
        Ok(id) => Ok(ConnectionInfo { id, host, port }),
        Err(error) => Err(error),
    }
}

/// The labels of the recorded queues, in the order of the records.
pub fn queue_labels(records: &Vec<QueueRecord>) -> (labels: Vec<String>)
    ensures
        labels@.len() == records@.len(),
        forall|i: int| 0 <= i < records@.len() ==> #[trigger] labels@[i] == records@[i].label,
{
    let mut labels: Vec<String> = Vec::new();
    let mut at: usize = 0;
    while at < records.len()
        invariant
            at <= records@.len(),
            labels@.len() == at,
            forall|i: int| 0 <= i < at ==> #[trigger] labels@[i] == records@[i].label,
        decreases records@.len() - at,
    {
        labels.push(records[at].label.clone());
        at = at + 1;
    }
    labels
}

/// How far the creation of a queue has come.
#[derive(Clone, Copy, Debug, PartialEq, Eq, Structural)]
pub enum QueueCreation {
    /// Nothing was asked yet.
    Idle,
    /// The storage is asked whether the label is taken.
    CheckingLabel,
    /// The storage is asked for the nodes.
    SelectingNode,
    /// The node with this identifier is asked to make the queue.
    CallingNode { node: u128 },
    /// The storage is asked to record the queue.
    Persisting,
    /// The caller has its answer.
    Finished,
}

/// What happened since the last action.
#[derive(Debug)]
pub enum QueueEvent {
    /// The caller asked for the queue.
    Requested,
    /// The storage said whether the label is taken.
    LabelChecked { exists: bool },
    /// The storage listed the nodes.
    NodesListed { nodes: Vec<MoMRecord> },
    /// The call to the node came back.
    NodeReplied { reply: NodeReply<()> },
    /// The storage recorded the queue.
    Persisted,
}

/// What to do next.
#[derive(Debug)]
pub enum QueueAction {
    /// Ask the storage whether the label is taken.
    CheckLabel,
    /// Ask the storage for the nodes.
    ListNodes,
    /// Ask the node at this host and port to make the queue.
    CallNode { host: String, port: i32 },
    /// Record the queue under `queue_id`, owned by the node `node`.
    Persist { queue_id: u128, node: u128 },
    /// Answer the caller.
    Reply { result: Result<(), ApiError> },
}

/// The answer to an event that the operation was not waiting for.
pub open spec fn stray() -> (QueueCreation, QueueAction) {
    (QueueCreation::Finished, QueueAction::Reply { result: Err(ApiError::Unexpected) })
}

/// The next state and action of a queue creation in the state `state` on
/// the event `event`, where the node selector picked `choice` and `fresh` is
/// a new identifier.
pub open spec fn spec_advance(
    state: QueueCreation,
    event: QueueEvent,
    choice: Option<((String, i32), u128)>,
    fresh: u128,
) -> (QueueCreation, QueueAction) {
    match state {
        QueueCreation::Idle => match event {
            QueueEvent::Requested => (QueueCreation::CheckingLabel, QueueAction::CheckLabel),
            _ => stray(),
        },
        QueueCreation::CheckingLabel => match event {
            QueueEvent::LabelChecked { exists } => if exists {
                (QueueCreation::Finished, QueueAction::Reply { result: Err(ApiError::QueueExists) })
            } else {
                (QueueCreation::SelectingNode, QueueAction::ListNodes)
            },
            _ => stray(),
        },
        QueueCreation::SelectingNode => match event {
            QueueEvent::NodesListed { nodes } => match choice {
                Some(((host, port), node)) => (
                    QueueCreation::CallingNode { node },
                    QueueAction::CallNode { host, port },
                ),
                None => (
                    QueueCreation::Finished,
                    QueueAction::Reply { result: Err(ApiError::NoLiveNode) },
                ),
            },
            _ => stray(),
        },
        QueueCreation::CallingNode { node } => match event {
            QueueEvent::NodeReplied { reply } => match spec_settle(reply) {
                Ok(_) => (QueueCreation::Persisting, QueueAction::Persist { queue_id: fresh, node }),
                Err(error) => (QueueCreation::Finished, QueueAction::Reply { result: Err(error) }),
            },
            _ => stray(),
        },
        QueueCreation::Persisting => match event {
            QueueEvent::Persisted => (QueueCreation::Finished, QueueAction::Reply { result: Ok(()) }),
            _ => stray(),
        },
        QueueCreation::Finished => stray(),
    }
}

impl QueueCreation {
    /// A creation that was not asked for yet.
    pub fn start() -> (state: QueueCreation)
        ensures
            state == QueueCreation::Idle,
    {
        QueueCreation::Idle
    }

    /// Decides the next state and action from the event and from what the
    /// node selector and the identifier source gave.
    pub fn advance(
        self,
        event: QueueEvent,
        choice: Option<((String, i32), u128)>,
        fresh: u128,
    ) -> (next: (QueueCreation, QueueAction))
        ensures
            next == spec_advance(self, event, choice, fresh),
    {
        let stray = (QueueCreation::Finished, QueueAction::Reply { result: Err(ApiError::Unexpected) });
        match self {
            QueueCreation::Idle => match event {
                QueueEvent::Requested => (QueueCreation::CheckingLabel, QueueAction::CheckLabel),
                _ => stray,
            },
            QueueCreation::CheckingLabel => match event {
                QueueEvent::LabelChecked { exists } => if exists {
                    (
                        QueueCreation::Finished,
                        QueueAction::Reply { result: Err(ApiError::QueueExists) },
                    )
                } else {
                    (QueueCreation::SelectingNode, QueueAction::ListNodes)
                },
                _ => stray,
            },
            QueueCreation::SelectingNode => match event {
                QueueEvent::NodesListed { nodes } => match choice {
                    Some(((host, port), node)) => (
                        QueueCreation::CallingNode { node },
                        QueueAction::CallNode { host, port },
                    ),
                    None => (
                        QueueCreation::Finished,
                        QueueAction::Reply { result: Err(ApiError::NoLiveNode) },
                    ),
                },
                _ => stray,
            },
            QueueCreation::CallingNode { node } => match event {
                QueueEvent::NodeReplied { reply } => match settle(reply) {
                    Ok(_) => (
                        QueueCreation::Persisting,
                        QueueAction::Persist { queue_id: fresh, node },
                    ),
                    Err(error) => (
                        QueueCreation::Finished,
                        QueueAction::Reply { result: Err(error) },
                    ),
                },
                _ => stray,
            },
            QueueCreation::Persisting => match event {
                QueueEvent::Persisted => (
                    QueueCreation::Finished,
                    QueueAction::Reply { result: Ok(()) },
                ),
                _ => stray,
            },
            QueueCreation::Finished => stray,
        }
    }

    /// Takes the event and says what to do next. Where the nodes were
    /// listed, one of the live ones is picked at random; where the node made
    /// the queue, a new identifier is drawn for its record.
    pub fn step(self, event: QueueEvent) -> (next: (QueueCreation, QueueAction))
        ensures
            exists|choice: Option<((String, i32), u128)>, fresh: u128|
                {
                    &&& next == #[trigger] spec_advance(self, event, choice, fresh)
                    &&& event matches QueueEvent::NodesListed { nodes } ==> may_pick(nodes@, choice)
                },
    {
        let choice = match &event {
            QueueEvent::NodesListed { nodes } => RegisteredMoMs::<()>::get_random_up_key(nodes),
            _ => None,
        };
        let fresh = match self {
            QueueCreation::CallingNode { node } => random_uuid(),
            _ => 0,
        };
        let next = self.advance(event, choice, fresh);
        assert(next == spec_advance(self, event, choice, fresh));
        next
    }
}

/// One turn of a queue creation: the event, with what the node selector
/// and the identifier source gave on it.
pub struct Turn {
    pub event: QueueEvent,
    pub choice: Option<((String, i32), u128)>,
    pub fresh: u128,
}

/// The state of a queue creation after the turns `turns`.
pub open spec fn state_after(turns: Seq<Turn>) -> QueueCreation
    decreases turns.len(),
{
    if turns.len() == 0 {
        QueueCreation::Idle
    } else {
        spec_advance(
            state_after(turns.drop_last()),
            turns.last().event,
            turns.last().choice,
            turns.last().fresh,
        ).0
    }
}

/// The action that the turn at the place `at` of `turns` leads to.
pub open spec fn action_at(turns: Seq<Turn>, at: int) -> QueueAction {
    spec_advance(state_after(turns.take(at)), turns[at].event, turns[at].choice, turns[at].fresh).1
}

/// How far a state is on the way to the end.
pub open spec fn rank(state: QueueCreation) -> int {
    match state {
        QueueCreation::Idle => 0,
        QueueCreation::CheckingLabel => 1,
        QueueCreation::SelectingNode => 2,
        QueueCreation::CallingNode { node } => 3,
        QueueCreation::Persisting => 4,
        QueueCreation::Finished => 5,
    }
}

/// The metadata of a queue is written only on the node's word that it made
/// the queue: whatever else happens, no record is asked for.
pub proof fn law_persist_follows_success(
    state: QueueCreation,
    event: QueueEvent,
    choice: Option<((String, i32), u128)>,
    fresh: u128,
)
    ensures
        spec_advance(state, event, choice, fresh).1 is Persist ==> {
            &&& state is CallingNode
            &&& event == (QueueEvent::NodeReplied { reply: Ok(Ok(())) })
            &&& spec_advance(state, event, choice, fresh).0 == QueueCreation::Persisting
        },
        state is CallingNode && event == (QueueEvent::NodeReplied { reply: Ok(Ok(())) })
            ==> spec_advance(state, event, choice, fresh).1 is Persist,
{
}

/// A creation only moves on: each turn leads to a later state, and the end
/// stays the end.
pub proof fn law_advance_moves_on(
    state: QueueCreation,
    event: QueueEvent,
    choice: Option<((String, i32), u128)>,
    fresh: u128,
)
    ensures
        rank(spec_advance(state, event, choice, fresh).0) > rank(state) || spec_advance(
            state,
            event,
            choice,
            fresh,
        ).0 == QueueCreation::Finished,
{
}

proof fn lemma_states_rise(turns: Seq<Turn>, early: int, late: int)
    requires
        0 <= early <= late <= turns.len(),
    ensures
        rank(state_after(turns.take(early))) <= rank(state_after(turns.take(late))),
    decreases late - early,
{
    if early < late {
        lemma_states_rise(turns, early, late - 1);
        let longer = turns.take(late);
        assert(longer.drop_last() =~= turns.take(late - 1));
        law_advance_moves_on(
            state_after(turns.take(late - 1)),
            longer.last().event,
            longer.last().choice,
            longer.last().fresh,
        );
    }
}

/// A label that is taken is a conflict, and nothing further is done.
pub proof fn law_taken_label_is_conflict(choice: Option<((String, i32), u128)>, fresh: u128)
    ensures
        spec_advance(
            QueueCreation::CheckingLabel,
            QueueEvent::LabelChecked { exists: true },
            choice,
            fresh,
        ) == (QueueCreation::Finished, QueueAction::Reply { result: Err(ApiError::QueueExists) }),
        ApiError::QueueExists.spec_kind() == ErrorKind::Conflict,
{
}

/// With no live node the creation of a queue ends as unavailable, and in
/// the whole of its course no record is asked for.
pub proof fn law_no_live_node_writes_nothing(turns: Seq<Turn>, at: int)
    requires
        0 <= at < turns.len(),
        state_after(turns.take(at)) == QueueCreation::SelectingNode,
        turns[at].event matches QueueEvent::NodesListed { nodes } && may_pick(
            nodes@,
            turns[at].choice,
        ) && forall|i: int| 0 <= i < nodes@.len() ==> !(#[trigger] nodes@[i]).is_up,
    ensures
        action_at(turns, at) == (QueueAction::Reply { result: Err(ApiError::NoLiveNode) }),
        ApiError::NoLiveNode.spec_kind() == ErrorKind::Unavailable,
        forall|j: int| 0 <= j < turns.len() ==> !(#[trigger] action_at(turns, j) is Persist),
{
    assert(turns[at].choice is None);
    assert forall|j: int| 0 <= j < turns.len() implies !(#[trigger] action_at(turns, j) is Persist) by {
        let state = state_after(turns.take(j));
        if j <= at {
            lemma_states_rise(turns, j, at);
        } else {
            lemma_ends_after(turns, at, j);
        }
        law_persist_follows_success(state, turns[j].event, turns[j].choice, turns[j].fresh);
    }
}

proof fn lemma_ends_after(turns: Seq<Turn>, at: int, late: int)
    requires
        0 <= at < late <= turns.len(),
        spec_advance(
            state_after(turns.take(at)),
            turns[at].event,
            turns[at].choice,
            turns[at].fresh,
        ).0 == QueueCreation::Finished,
    ensures
        state_after(turns.take(late)) == QueueCreation::Finished,
    decreases late - at,
{
    let longer = turns.take(late);
    assert(longer.drop_last() =~= turns.take(late - 1));
    if late - 1 > at {
        lemma_ends_after(turns, at, late - 1);
    }
}

} // verus!
