use rmom::endpoints::{
    connection_info, fixed_node, queue_labels, settle, ApiError, NodeReply, QueueAction,
    QueueCreation, QueueEvent, QueueRecord,
};
use rmom::error::{BrokerError, ErrorKind};
use rmom::mom::{
    chosen_key, live_nodes, FleetError, MoMRecord, RegisteredMoM, RegisteredMoMs,
};
use rmom::stream_server::StreamServer;

fn record(id: u128, host: &str, port: i32, is_up: bool) -> MoMRecord {
    MoMRecord { id, host: host.to_string(), port, is_up }
}

fn node(host: &str, port: i32, connection: Option<u32>) -> RegisteredMoM<u32> {
    RegisteredMoM { connection, host: host.to_string(), port }
}

#[test]
fn the_selector_never_picks_a_node_that_is_down() {
    let nodes = vec![
        record(1, "a", 1, true),
        record(2, "b", 2, false),
        record(3, "c", 3, true),
    ];
    let mut a = 0;
    let mut c = 0;
    for _ in 0..1000 {
        let ((host, port), id) = RegisteredMoMs::<u32>::get_random_up_key(&nodes).unwrap();
        match id {
            1 => {
                assert_eq!((host.as_str(), port), ("a", 1));
                a += 1;
            }
            3 => {
                assert_eq!((host.as_str(), port), ("c", 3));
                c += 1;
            }
            other => panic!("picked the node {}", other),
        }
    }
    assert!(a > 0);
    assert!(c > 0);
    assert_eq!(a + c, 1000);
}

#[test]
fn the_selector_gives_none_without_a_live_node() {
    assert!(RegisteredMoMs::<u32>::get_random_up_key(&vec![]).is_none());
    let nodes = vec![record(1, "a", 1, false), record(2, "b", 2, false)];
    assert!(RegisteredMoMs::<u32>::get_random_up_key(&nodes).is_none());
}

#[test]
fn the_selector_picks_the_only_live_node() {
    let nodes = vec![record(1, "a", 1, false), record(2, "b", 2, true)];
    for _ in 0..20 {
        assert_eq!(
            RegisteredMoMs::<u32>::get_random_up_key(&nodes),
            Some((("b".to_string(), 2), 2))
        );
    }
}

#[test]
fn the_live_nodes_in_order() {
    let nodes = vec![
        record(1, "a", 1, true),
        record(2, "b", 2, false),
        record(3, "c", 3, true),
        record(4, "d", 4, true),
    ];
    assert_eq!(live_nodes(&nodes), vec![0, 2, 3]);
    assert_eq!(live_nodes(&vec![]), Vec::<usize>::new());
    assert_eq!(chosen_key(&nodes, Some(2)), Some((("c".to_string(), 3), 3)));
    assert_eq!(chosen_key(&nodes, Some(4)), None);
    assert_eq!(chosen_key(&nodes, None), None);
}

#[test]
fn the_registry_finds_a_node_by_host_and_port() {
    let registry = RegisteredMoMs::new(vec![
        node("a", 1, Some(10)),
        node("a", 2, Some(20)),
        node("b", 1, None),
    ]);
    assert_eq!(registry.client("a", 1), Ok(&10));
    assert_eq!(registry.client("a", 2), Ok(&20));
    assert_eq!(registry.client("b", 1), Err(FleetError::ConnectionUnavailable));
    assert_eq!(registry.client("b", 2), Err(FleetError::NodeNotFound));
    assert_eq!(registry.client("", 1), Err(FleetError::NodeNotFound));
    assert_eq!(FleetError::NodeNotFound.kind(), ErrorKind::NotFound);
    assert_eq!(FleetError::ConnectionUnavailable.kind(), ErrorKind::Unavailable);
}

#[test]
fn a_node_registered_again_replaces_the_earlier_one() {
    let mut registry = RegisteredMoMs::new(vec![
        node("a", 1, Some(10)),
        node("b", 1, Some(30)),
        node("a", 1, Some(11)),
    ]);
    assert_eq!(registry.client("a", 1), Ok(&11));
    assert_eq!(registry.client("b", 1), Ok(&30));
    let replaced = registry.register(node("a", 1, None)).unwrap();
    assert_eq!(replaced.connection, Some(11));
    assert_eq!(registry.client("a", 1), Err(FleetError::ConnectionUnavailable));
    assert!(registry.register(node("c", 1, Some(40))).is_none());
    assert_eq!(registry.client("c", 1), Ok(&40));
    assert_eq!(registry.client("b", 1), Ok(&30));
}

#[test]
fn with_node_client_calls_the_function_on_the_client() {
    let registry = RegisteredMoMs::new(vec![node("a", 1, Some(10)), node("b", 1, None)]);
    assert_eq!(registry.with_node_client("a", 1, |c: &u32| *c + 1), Ok(11));
    let mut called = false;
    let missing = registry.with_node_client("z", 1, |_c: &u32| {
        called = true;
    });
    assert_eq!(missing, Err(FleetError::NodeNotFound));
    let unconnected = registry.with_node_client("b", 1, |c: &u32| *c);
    assert_eq!(unconnected, Err(FleetError::ConnectionUnavailable));
    assert!(!called);
}

#[test]
fn settle_keeps_the_category_of_a_failure() {
    assert_eq!(settle::<u8>(Ok(Ok(3))), Ok(3));
    assert_eq!(
        settle::<u8>(Ok(Err(ErrorKind::NotFound))),
        Err(ApiError::Node(ErrorKind::NotFound))
    );
    assert_eq!(
        settle::<u8>(Err(FleetError::NodeNotFound)),
        Err(ApiError::NodeNotFound)
    );
    assert_eq!(
        settle::<u8>(Err(FleetError::ConnectionUnavailable)),
        Err(ApiError::NoConnection)
    );
    for kind in [
        ErrorKind::NotFound,
        ErrorKind::Conflict,
        ErrorKind::InvalidArgument,
        ErrorKind::Unavailable,
        ErrorKind::Internal,
    ] {
        assert_eq!(ApiError::Node(kind).kind(), kind);
    }
    assert_eq!(ApiError::QueueExists.kind(), ErrorKind::Conflict);
    assert_eq!(ApiError::NoLiveNode.kind(), ErrorKind::Unavailable);
    assert_eq!(ApiError::NodeNotFound.kind(), ErrorKind::NotFound);
    assert_eq!(ApiError::NoConnection.kind(), ErrorKind::Unavailable);
    assert_eq!(ApiError::Unexpected.kind(), ErrorKind::Internal);
}

#[test]
fn the_answer_to_each_failure() {
    assert_eq!(ApiError::QueueExists.refusal(), (409, "Queue already exists".to_string()));
    assert_eq!(ApiError::NoLiveNode.refusal(), (503, "No MoMs available".to_string()));
    assert_eq!(ApiError::NodeNotFound.refusal(), (404, "MoM not registered".to_string()));
    assert_eq!(ApiError::NoConnection.refusal(), (503, "MoM not connected".to_string()));
    assert_eq!(
        ApiError::Node(ErrorKind::InvalidArgument).refusal(),
        (400, "MoM refused the request".to_string())
    );
    assert_eq!(
        ApiError::Node(ErrorKind::NotFound).refusal(),
        (404, "MoM refused the request".to_string())
    );
    assert_eq!(ApiError::Unexpected.refusal(), (500, "Unexpected event".to_string()));
    assert_eq!(ApiError::Unexpected.message(), "Unexpected event");
}

#[test]
fn connection_info_wraps_the_channel_id() {
    let info = connection_info(Ok(Ok("abc".to_string())), "h".to_string(), 9).unwrap();
    assert_eq!((info.id.as_str(), info.host.as_str(), info.port), ("abc", "h", 9));
    let failed = connection_info(Ok(Err(ErrorKind::NotFound)), "h".to_string(), 9);
    assert_eq!(failed.err(), Some(ApiError::Node(ErrorKind::NotFound)));
    let unconnected = connection_info(Err(FleetError::ConnectionUnavailable), "h".to_string(), 9);
    assert_eq!(unconnected.err(), Some(ApiError::NoConnection));
}

#[test]
fn the_fixed_node_and_the_labels() {
    assert_eq!(fixed_node(), ("127.0.0.1".to_string(), 50051));
    let records = vec![
        QueueRecord { id: 1, label: "orders".to_string() },
        QueueRecord { id: 2, label: "invoices".to_string() },
    ];
    assert_eq!(queue_labels(&records), vec!["orders", "invoices"]);
    assert!(queue_labels(&vec![]).is_empty());
}

#[test]
fn each_turn_of_a_queue_creation() {
    let idle = QueueCreation::start();
    assert_eq!(idle, QueueCreation::Idle);
    let (state, action) = idle.advance(QueueEvent::Requested, None, 0);
    assert_eq!(state, QueueCreation::CheckingLabel);
    assert!(matches!(action, QueueAction::CheckLabel));
    let (state, action) = state.advance(QueueEvent::LabelChecked { exists: false }, None, 0);
    assert_eq!(state, QueueCreation::SelectingNode);
    assert!(matches!(action, QueueAction::ListNodes));
    let nodes = vec![record(7, "a", 1, true)];
    let (state, action) = state.advance(
        QueueEvent::NodesListed { nodes },
        Some((("a".to_string(), 1), 7)),
        0,
    );
    assert_eq!(state, QueueCreation::CallingNode { node: 7 });
    match action {
        QueueAction::CallNode { host, port } => assert_eq!((host.as_str(), port), ("a", 1)),
        other => panic!("{:?}", other),
    }
    let (state, action) = state.advance(QueueEvent::NodeReplied { reply: Ok(Ok(())) }, None, 99);
    assert_eq!(state, QueueCreation::Persisting);
    assert!(matches!(action, QueueAction::Persist { queue_id: 99, node: 7 }));
    let (state, action) = state.advance(QueueEvent::Persisted, None, 0);
    assert_eq!(state, QueueCreation::Finished);
    assert!(matches!(action, QueueAction::Reply { result: Ok(()) }));
    let (state, action) = state.advance(QueueEvent::Requested, None, 0);
    assert_eq!(state, QueueCreation::Finished);
    assert!(matches!(action, QueueAction::Reply { result: Err(ApiError::Unexpected) }));
}

#[test]
fn a_failed_node_call_ends_the_creation_without_a_record() {
    let calling = QueueCreation::CallingNode { node: 7 };
    let replies: Vec<(NodeReply<()>, ApiError)> = vec![
        (Ok(Err(ErrorKind::Conflict)), ApiError::Node(ErrorKind::Conflict)),
        (Ok(Err(ErrorKind::Internal)), ApiError::Node(ErrorKind::Internal)),
        (Err(FleetError::NodeNotFound), ApiError::NodeNotFound),
        (Err(FleetError::ConnectionUnavailable), ApiError::NoConnection),
    ];
    for (reply, expected) in replies {
        let (state, action) = calling.step(QueueEvent::NodeReplied { reply });
        assert_eq!(state, QueueCreation::Finished);
        match action {
            QueueAction::Reply { result } => assert_eq!(result, Err(expected)),
            other => panic!("{:?}", other),
        }
    }
}

#[test]
fn an_event_out_of_turn_ends_the_creation() {
    let states = [
        QueueCreation::Idle,
        QueueCreation::CheckingLabel,
        QueueCreation::SelectingNode,
        QueueCreation::CallingNode { node: 1 },
        QueueCreation::Finished,
    ];
    for state in states {
        let (next, action) = state.step(QueueEvent::Persisted);
        assert_eq!(next, QueueCreation::Finished);
        assert!(matches!(action, QueueAction::Reply { result: Err(ApiError::Unexpected) }));
    }
}

/// A storage and a fleet held in memory, to run a creation against.
struct Fleet {
    queues: Vec<(u128, String, u128)>,
    nodes: Vec<MoMRecord>,
    brokers: Vec<((String, i32), StreamServer)>,
    registry: RegisteredMoMs<usize>,
}

impl Fleet {
    fn new(nodes: Vec<MoMRecord>) -> Fleet {
        let mut brokers = Vec::new();
        let mut held = Vec::new();
        for (at, node) in nodes.iter().enumerate() {
            brokers.push((
                (node.host.clone(), node.port),
                StreamServer::new(node.host.clone(), node.port as u16),
            ));
            held.push(RegisteredMoM {
                connection: Some(at),
                host: node.host.clone(),
                port: node.port,
            });
        }
        Fleet { queues: Vec::new(), nodes, brokers, registry: RegisteredMoMs::new(held) }
    }

    fn call<T>(
        &mut self,
        host: &str,
        port: i32,
        request: impl FnOnce(&mut StreamServer) -> Result<T, BrokerError>,
    ) -> NodeReply<T> {
        let at = self.registry.with_node_client(host, port, |at: &usize| *at)?;
        Ok(request(&mut self.brokers[at].1).map_err(|error| error.kind()))
    }

    fn create_queue(&mut self, label: &str) -> Result<(), ApiError> {
        let mut state = QueueCreation::start();
        let mut event = QueueEvent::Requested;
        loop {
            let (next, action) = state.step(event);
            state = next;
            event = match action {
                QueueAction::CheckLabel => QueueEvent::LabelChecked {
                    exists: self.queues.iter().any(|q| q.1 == label),
                },
                QueueAction::ListNodes => QueueEvent::NodesListed { nodes: self.nodes.clone() },
                QueueAction::CallNode { host, port } => QueueEvent::NodeReplied {
                    reply: self.call(&host, port, |broker| broker.create_queue(label)),
                },
                QueueAction::Persist { queue_id, node } => {
                    self.queues.push((queue_id, label.to_string(), node));
                    QueueEvent::Persisted
                }
                QueueAction::Reply { result } => return result,
            };
        }
    }

    fn list_queues(&self) -> Vec<String> {
        let records: Vec<QueueRecord> = self
            .queues
            .iter()
            .map(|q| QueueRecord { id: q.0, label: q.1.clone() })
            .collect();
        queue_labels(&records)
    }
}

#[test]
fn creating_orders_twice_succeeds_then_conflicts() {
    let mut fleet = Fleet::new(vec![record(1, "a", 1, true)]);
    assert_eq!(fleet.create_queue("orders"), Ok(()));
    assert_eq!(fleet.list_queues(), vec!["orders"]);
    assert_eq!(fleet.create_queue("orders"), Err(ApiError::QueueExists));
    assert_eq!(ApiError::QueueExists.kind(), ErrorKind::Conflict);
    assert_eq!(fleet.list_queues(), vec!["orders"]);
    assert_eq!(fleet.queues[0].2, 1);
}

#[test]
fn without_a_live_node_nothing_is_written() {
    let mut fleet = Fleet::new(vec![record(1, "a", 1, false), record(2, "b", 2, false)]);
    for label in ["orders", "", "q1"] {
        let failed = fleet.create_queue(label).unwrap_err();
        assert_eq!(failed, ApiError::NoLiveNode);
        assert_eq!(failed.kind(), ErrorKind::Unavailable);
    }
    assert!(fleet.queues.is_empty());
    let mut empty = Fleet::new(vec![]);
    assert_eq!(empty.create_queue("orders"), Err(ApiError::NoLiveNode));
    assert!(empty.queues.is_empty());
}

#[test]
fn a_queue_is_made_on_a_live_node_only() {
    let mut fleet = Fleet::new(vec![
        record(1, "a", 1, true),
        record(2, "b", 2, false),
        record(3, "c", 3, true),
    ]);
    for i in 0..40 {
        assert_eq!(fleet.create_queue(&format!("q{}", i)), Ok(()));
    }
    assert_eq!(fleet.queues.len(), 40);
    assert!(fleet.queues.iter().all(|q| q.2 == 1 || q.2 == 3));
    let mut ids: Vec<u128> = fleet.queues.iter().map(|q| q.0).collect();
    ids.sort();
    ids.dedup();
    assert_eq!(ids.len(), 40);
}

#[test]
fn a_node_that_refuses_leaves_no_record() {
    let mut fleet = Fleet::new(vec![record(1, "a", 1, true)]);
    fleet.brokers[0].1.create_queue("orders").unwrap();
    assert_eq!(
        fleet.create_queue("orders"),
        Err(ApiError::Node(ErrorKind::Conflict))
    );
    assert!(fleet.queues.is_empty());
    fleet.registry.register(RegisteredMoM { connection: None, host: "a".to_string(), port: 1 });
    assert_eq!(fleet.create_queue("invoices"), Err(ApiError::NoConnection));
    assert!(fleet.queues.is_empty());
}

#[test]
fn from_queue_to_delivery_on_one_live_node() {
    let mut fleet = Fleet::new(vec![record(1, "127.0.0.1", 50051, true)]);
    assert_eq!(fleet.create_queue("q1"), Ok(()));
    let (host, port) = fixed_node();
    let reply = fleet.call(&host, port, |broker| {
        broker.create_channel("q1", Some("t".to_string()))
    });
    let info = connection_info(reply, host.clone(), port).unwrap();
    assert_eq!((info.host.as_str(), info.port), ("127.0.0.1", 50051));
    let listed = settle(fleet.call(&host, port, |broker| Ok(broker.list_channels())));
    assert_eq!(listed, Ok(vec![info.id.clone()]));
    let broker = &mut fleet.brokers[0].1;
    assert_eq!(broker.push_to_channel(&info.id, b"no".to_vec(), "u".to_string()), Ok(()));
    let mut stream = broker.subscribe_to_channel(&info.id).unwrap();
    assert!(stream.drain(10).is_empty());
    assert_eq!(broker.push_to_channel(&info.id, b"yes".to_vec(), "t".to_string()), Ok(()));
    let got = stream.drain(10);
    assert_eq!(got.len(), 1);
    assert_eq!(got[0].content, b"yes".to_vec());
    assert_eq!(got[0].topic, "t");
    let deleted = settle(fleet.call(&host, port, |broker| broker.delete_channel(&info.id)));
    assert_eq!(deleted, Err(ApiError::Node(ErrorKind::NotFound)));
    let gone = settle(fleet.call(&host, port, |broker| broker.delete_queue("q1")));
    assert_eq!(gone, Ok(()));
    let again = settle(fleet.call(&host, port, |broker| broker.delete_queue("q1")));
    assert_eq!(again, Err(ApiError::Node(ErrorKind::NotFound)));
    let nowhere = settle(fleet.call("10.0.0.1", 1, |broker| broker.delete_queue("q1")));
    assert_eq!(nowhere, Err(ApiError::NodeNotFound));
}
