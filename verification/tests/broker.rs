use rmom::error::{BrokerError, ErrorKind};
use rmom::queue::{ChannelReceiver, Delivery, DEFAULT_CAPACITY};
use rmom::stream_server::StreamServer;

fn server_with(queues: &[&str]) -> StreamServer {
    let mut server = StreamServer::new("127.0.0.1".to_string(), 50051);
    for label in queues {
        server.create_queue(label).unwrap();
    }
    server
}

fn failure(result: Result<ChannelReceiver, BrokerError>) -> BrokerError {
    match result {
        Ok(_) => panic!("a subscription was handed out"),
        Err(error) => error,
    }
}

#[test]
fn new_server_keeps_its_address_and_holds_nothing() {
    let server = StreamServer::new("10.0.0.7".to_string(), 6000);
    assert_eq!(server.host(), "10.0.0.7");
    assert_eq!(server.port(), 6000);
    assert!(server.list_channels().is_empty());
}

#[test]
fn creating_a_queue_twice_is_a_conflict() {
    let mut server = server_with(&[]);
    assert_eq!(server.create_queue("orders"), Ok(()));
    assert_eq!(server.create_queue("orders"), Err(BrokerError::QueueExists));
    assert_eq!(BrokerError::QueueExists.kind(), ErrorKind::Conflict);
    assert_eq!(server.create_queue("invoices"), Ok(()));
}

#[test]
fn deleting_an_unknown_queue_is_not_found() {
    let mut server = server_with(&["orders"]);
    assert_eq!(server.delete_queue("invoices"), Err(BrokerError::UnknownQueue));
    assert_eq!(server.delete_queue("orders"), Ok(()));
    assert_eq!(server.delete_queue("orders"), Err(BrokerError::UnknownQueue));
    assert_eq!(server.create_queue("orders"), Ok(()));
}

#[test]
fn a_channel_needs_its_queue() {
    let mut server = server_with(&["orders"]);
    assert_eq!(
        server.create_channel("invoices", None),
        Err(BrokerError::UnknownQueue)
    );
    assert!(server.list_channels().is_empty());
}

#[test]
fn a_channel_id_is_a_uuid_in_canonical_text() {
    let mut server = server_with(&["orders"]);
    let id = server.create_channel("orders", None).unwrap();
    assert_eq!(id.len(), 36);
    let parsed = uuid::Uuid::parse_str(&id).unwrap();
    assert_eq!(parsed.to_string(), id);
    assert_eq!(server.list_channels(), vec![id]);
}

#[test]
fn channel_ids_differ() {
    let mut server = server_with(&["orders"]);
    let mut ids = Vec::new();
    for _ in 0..50 {
        ids.push(server.create_channel("orders", None).unwrap());
    }
    let mut listed = server.list_channels();
    listed.sort();
    ids.sort();
    ids.dedup();
    assert_eq!(ids.len(), 50);
    assert_eq!(listed, ids);
}

#[test]
fn a_ticket_is_consumed_by_the_first_subscribe() {
    let mut server = server_with(&["orders"]);
    let id = server.create_channel("orders", Some("t".to_string())).unwrap();
    let first = server.subscribe_to_channel(&id).unwrap();
    assert_eq!(first.topic, Some("t".to_string()));
    assert_eq!(
        failure(server.subscribe_to_channel(&id)),
        BrokerError::UnknownChannel
    );
    assert_eq!(
        failure(server.subscribe_to_channel(&id)),
        BrokerError::UnknownChannel
    );
    assert_eq!(BrokerError::UnknownChannel.kind(), ErrorKind::NotFound);
    assert!(server.list_channels().is_empty());
}

#[test]
fn a_malformed_channel_id_is_rejected() {
    let mut server = server_with(&["orders"]);
    let id = server.create_channel("orders", None).unwrap();
    assert_eq!(
        failure(server.subscribe_to_channel("not-a-uuid")),
        BrokerError::MalformedChannelId
    );
    assert_eq!(
        server.delete_channel("12345"),
        Err(BrokerError::MalformedChannelId)
    );
    assert_eq!(
        server.push_to_channel("", vec![1], "t".to_string()),
        Err(BrokerError::MalformedChannelId)
    );
    assert_eq!(
        BrokerError::MalformedChannelId.kind(),
        ErrorKind::InvalidArgument
    );
    assert_eq!(server.list_channels(), vec![id]);
}

#[test]
fn an_unknown_channel_id_is_not_found() {
    let mut server = server_with(&["orders"]);
    let unknown = "67e55044-10b1-426f-9247-bb680e5fe0c8";
    assert_eq!(
        failure(server.subscribe_to_channel(unknown)),
        BrokerError::UnknownChannel
    );
    assert_eq!(
        server.delete_channel(unknown),
        Err(BrokerError::UnknownChannel)
    );
    assert_eq!(
        server.push_to_channel(unknown, vec![1], "t".to_string()),
        Err(BrokerError::UnknownChannel)
    );
}

#[test]
fn a_deleted_channel_cannot_be_subscribed() {
    let mut server = server_with(&["orders"]);
    let kept = server.create_channel("orders", None).unwrap();
    let gone = server.create_channel("orders", None).unwrap();
    assert_eq!(server.delete_channel(&gone), Ok(()));
    assert_eq!(server.delete_channel(&gone), Err(BrokerError::UnknownChannel));
    assert_eq!(
        failure(server.subscribe_to_channel(&gone)),
        BrokerError::UnknownChannel
    );
    assert_eq!(server.list_channels(), vec![kept.clone()]);
    assert!(server.subscribe_to_channel(&kept).is_ok());
}

#[test]
fn a_streaming_channel_cannot_be_deleted_and_still_takes_pushes() {
    let mut server = server_with(&["orders"]);
    let id = server.create_channel("orders", None).unwrap();
    let mut stream = server.subscribe_to_channel(&id).unwrap();
    assert_eq!(server.delete_channel(&id), Err(BrokerError::UnknownChannel));
    assert_eq!(server.push_to_channel(&id, vec![7], "t".to_string()), Ok(()));
    let got = stream.drain(10);
    assert_eq!(got.len(), 1);
    assert_eq!(got[0].content, vec![7]);
}

#[test]
fn a_filtered_channel_gets_its_topic_only() {
    let mut server = server_with(&["q1"]);
    let id = server.create_channel("q1", Some("t".to_string())).unwrap();
    assert_eq!(server.push_to_channel(&id, b"first".to_vec(), "u".to_string()), Ok(()));
    assert_eq!(server.push_to_channel(&id, b"second".to_vec(), "t".to_string()), Ok(()));
    let mut stream = server.subscribe_to_channel(&id).unwrap();
    match stream.try_next() {
        Delivery::Skipped => {}
        other => panic!("the first envelope was not left out: {:?}", other),
    }
    match stream.try_next() {
        Delivery::Ready(message) => {
            assert_eq!(message.content, b"second".to_vec());
            assert_eq!(message.topic, "t");
            assert!(uuid::Uuid::parse_str(&message.id).is_ok());
        }
        other => panic!("the second envelope was not handed on: {:?}", other),
    }
    match stream.try_next() {
        Delivery::Pending => {}
        other => panic!("something else was waiting: {:?}", other),
    }
}

#[test]
fn a_channel_without_topic_gets_every_envelope_in_order() {
    let mut server = server_with(&["q1"]);
    let id = server.create_channel("q1", None).unwrap();
    for (content, topic) in [(1u8, "a"), (2, "b"), (3, ""), (4, "a")] {
        assert_eq!(
            server.push_to_channel(&id, vec![content], topic.to_string()),
            Ok(())
        );
    }
    let mut stream = server.subscribe_to_channel(&id).unwrap();
    let got = stream.drain(100);
    let contents: Vec<u8> = got.iter().map(|m| m.content[0]).collect();
    let topics: Vec<&str> = got.iter().map(|m| m.topic.as_str()).collect();
    assert_eq!(contents, vec![1, 2, 3, 4]);
    assert_eq!(topics, vec!["a", "b", "", "a"]);
}

#[test]
fn what_was_published_before_the_channel_is_not_delivered() {
    let mut server = server_with(&["q1"]);
    let publisher = server.create_channel("q1", None).unwrap();
    assert_eq!(server.push_to_channel(&publisher, vec![1], "t".to_string()), Ok(()));
    let late = server.create_channel("q1", None).unwrap();
    assert_eq!(server.push_to_channel(&publisher, vec![2], "t".to_string()), Ok(()));
    let mut early_stream = server.subscribe_to_channel(&publisher).unwrap();
    let mut late_stream = server.subscribe_to_channel(&late).unwrap();
    let early: Vec<u8> = early_stream.drain(10).iter().map(|m| m.content[0]).collect();
    let later: Vec<u8> = late_stream.drain(10).iter().map(|m| m.content[0]).collect();
    assert_eq!(early, vec![1, 2]);
    assert_eq!(later, vec![2]);
}

#[test]
fn every_channel_of_a_queue_gets_its_own_copy() {
    let mut server = server_with(&["q1", "q2"]);
    let a = server.create_channel("q1", None).unwrap();
    let b = server.create_channel("q1", Some("t".to_string())).unwrap();
    let other = server.create_channel("q2", None).unwrap();
    assert_eq!(server.push_to_channel(&a, vec![9], "t".to_string()), Ok(()));
    let mut sa = server.subscribe_to_channel(&a).unwrap();
    let mut sb = server.subscribe_to_channel(&b).unwrap();
    let mut so = server.subscribe_to_channel(&other).unwrap();
    assert_eq!(sa.drain(10).len(), 1);
    assert_eq!(sb.drain(10).len(), 1);
    assert_eq!(so.drain(10).len(), 0);
}

#[test]
fn a_push_goes_to_the_engine_of_the_channels_queue() {
    let mut server = server_with(&["q1", "q2"]);
    let in_q1 = server.create_channel("q1", None).unwrap();
    let also_q1 = server.create_channel("q1", None).unwrap();
    let in_q2 = server.create_channel("q2", None).unwrap();
    assert_eq!(server.push_to_channel(&in_q1, vec![1], "t".to_string()), Ok(()));
    assert_eq!(server.push_to_channel(&in_q2, vec![2], "t".to_string()), Ok(()));
    let engine = server.engine_for(&also_q1).unwrap();
    assert_eq!(engine.capacity(), DEFAULT_CAPACITY);
    assert_eq!(
        engine.broadcast(rmom::message::Message::stamped(9, vec![3], "t".to_string())),
        Ok(())
    );
    let mut s1 = server.subscribe_to_channel(&in_q1).unwrap();
    let mut s1b = server.subscribe_to_channel(&also_q1).unwrap();
    let mut s2 = server.subscribe_to_channel(&in_q2).unwrap();
    let got1: Vec<u8> = s1.drain(10).iter().map(|m| m.content[0]).collect();
    let got1b: Vec<u8> = s1b.drain(10).iter().map(|m| m.content[0]).collect();
    let got2: Vec<u8> = s2.drain(10).iter().map(|m| m.content[0]).collect();
    assert_eq!(got1, vec![1, 3]);
    assert_eq!(got1b, vec![1, 3]);
    assert_eq!(got2, vec![2]);
}

#[test]
fn no_engine_for_a_channel_that_is_not_known() {
    let mut server = server_with(&["q1"]);
    let id = server.create_channel("q1", None).unwrap();
    assert_eq!(
        server.engine_for("not-a-uuid").err(),
        Some(BrokerError::MalformedChannelId)
    );
    assert_eq!(
        server.engine_for("67e55044-10b1-426f-9247-bb680e5fe0c8").err(),
        Some(BrokerError::UnknownChannel)
    );
    assert!(server.engine_for(&id).is_ok());
    assert_eq!(server.delete_channel(&id), Ok(()));
    assert_eq!(server.engine_for(&id).err(), Some(BrokerError::UnknownChannel));
}

#[test]
fn the_address_stays_whatever_is_requested() {
    let mut server = StreamServer::new("10.0.0.7".to_string(), 6000);
    server.create_queue("q1").unwrap();
    let id = server.create_channel("q1", None).unwrap();
    let other = server.create_channel("q1", None).unwrap();
    let _stream = server.subscribe_to_channel(&id).unwrap();
    server.delete_channel(&other).unwrap();
    server.delete_queue("q1").unwrap();
    assert_eq!(server.host(), "10.0.0.7");
    assert_eq!(server.port(), 6000);
}

#[test]
fn an_overflowing_channel_loses_the_oldest_envelopes() {
    let mut server = server_with(&["q1"]);
    let id = server.create_channel("q1", None).unwrap();
    let sent = DEFAULT_CAPACITY + 50;
    for i in 0..sent {
        assert_eq!(
            server.push_to_channel(&id, vec![(i % 256) as u8], "t".to_string()),
            Ok(())
        );
    }
    let mut stream = server.subscribe_to_channel(&id).unwrap();
    match stream.try_next() {
        Delivery::Lagged(lost) => assert_eq!(lost, 50),
        other => panic!("the loss was not reported: {:?}", other),
    }
    let got = stream.drain(1000);
    assert_eq!(got.len(), DEFAULT_CAPACITY);
    assert_eq!(got[0].content, vec![50]);
    assert_eq!(got[DEFAULT_CAPACITY - 1].content, vec![((sent - 1) % 256) as u8]);
}

#[test]
fn a_push_without_subscribers_succeeds() {
    let mut server = server_with(&["q1"]);
    let id = server.create_channel("q1", None).unwrap();
    let stream = server.subscribe_to_channel(&id).unwrap();
    drop(stream);
    assert_eq!(server.push_to_channel(&id, vec![1], "t".to_string()), Ok(()));
    assert_eq!(server.push_to_channel(&id, vec![2], "t".to_string()), Ok(()));
}

#[test]
fn deleting_a_queue_invalidates_its_tickets() {
    let mut server = server_with(&["q1", "q2"]);
    let reserved = server.create_channel("q1", None).unwrap();
    let streaming = server.create_channel("q1", None).unwrap();
    let elsewhere = server.create_channel("q2", None).unwrap();
    let mut stream = server.subscribe_to_channel(&streaming).unwrap();
    assert_eq!(server.push_to_channel(&streaming, vec![5], "t".to_string()), Ok(()));
    assert_eq!(server.delete_queue("q1"), Ok(()));
    assert_eq!(
        failure(server.subscribe_to_channel(&reserved)),
        BrokerError::UnknownChannel
    );
    assert_eq!(
        server.push_to_channel(&streaming, vec![6], "t".to_string()),
        Err(BrokerError::UnknownChannel)
    );
    assert_eq!(server.list_channels(), vec![elsewhere.clone()]);
    match stream.try_next() {
        Delivery::Ready(message) => assert_eq!(message.content, vec![5]),
        other => panic!("what was queued was lost: {:?}", other),
    }
    match stream.try_next() {
        Delivery::Closed => {}
        other => panic!("the stream did not end: {:?}", other),
    }
    assert!(stream.drain(10).is_empty());
    assert!(server.subscribe_to_channel(&elsewhere).is_ok());
}

#[test]
fn a_queue_made_anew_does_not_bring_old_channels_back() {
    let mut server = server_with(&["q1"]);
    let id = server.create_channel("q1", None).unwrap();
    assert_eq!(server.delete_queue("q1"), Ok(()));
    assert_eq!(server.create_queue("q1"), Ok(()));
    assert_eq!(
        failure(server.subscribe_to_channel(&id)),
        BrokerError::UnknownChannel
    );
    assert!(server.list_channels().is_empty());
}

#[test]
fn drain_stops_at_its_limit() {
    let mut server = server_with(&["q1"]);
    let id = server.create_channel("q1", None).unwrap();
    for i in 0..5u8 {
        server.push_to_channel(&id, vec![i], "t".to_string()).unwrap();
    }
    let mut stream = server.subscribe_to_channel(&id).unwrap();
    let first: Vec<u8> = stream.drain(2).iter().map(|m| m.content[0]).collect();
    let none = stream.drain(0);
    let rest: Vec<u8> = stream.drain(10).iter().map(|m| m.content[0]).collect();
    assert_eq!(first, vec![0, 1]);
    assert!(none.is_empty());
    assert_eq!(rest, vec![2, 3, 4]);
}
