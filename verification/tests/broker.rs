use boundwire::broker::{count, Broker, BrokerCommand};
use boundwire::broker_state::ConnectionId;
use boundwire::channel::record::Handles;
use boundwire::message::{ServerMessage, PUBLISH, SUBSCRIBE};
use boundwire::protocol::{Limits, Topic};
use bytes::Bytes;
use tokio::sync::mpsc::{channel, Receiver};
use tokio_util::sync::CancellationToken;

fn topic(name: &str) -> Topic {
    Topic::parse(name.as_bytes(), &Limits::default()).unwrap()
}

fn register(
    broker: &mut Broker,
    id: u64,
    request_id: u32,
    capacity: usize,
) -> (Receiver<ServerMessage>, CancellationToken) {
    let (outgoing, incoming) = channel(capacity);
    let force_close = CancellationToken::new();
    broker.handle(BrokerCommand::Register {
        id: ConnectionId(id),
        request_id,
        handles: Handles::new(outgoing, force_close.clone()),
    });
    (incoming, force_close)
}

fn subscribe(broker: &mut Broker, id: u64, request_id: u32, name: &str) {
    broker.handle(BrokerCommand::Subscribe {
        id: ConnectionId(id),
        request_id,
        topic: topic(name),
    });
}

fn publish(broker: &mut Broker, id: u64, request_id: u32, name: &str, payload: &'static [u8]) {
    broker.handle(BrokerCommand::Publish {
        id: ConnectionId(id),
        request_id,
        topic: topic(name),
        payload: Bytes::from_static(payload),
    });
}

fn ready(request_id: u32, connection_id: u64) -> ServerMessage {
    ServerMessage::Ready { request_id, connection_id }
}

fn subscribed(request_id: u32) -> ServerMessage {
    ServerMessage::Ack {
        request_id,
        acknowledged_kind: SUBSCRIBE,
        event_id: 0,
        matched: 0,
        enqueued: 0,
        evicted: 0,
    }
}

fn published(
    request_id: u32,
    event_id: u64,
    matched: u16,
    enqueued: u16,
    evicted: u16,
) -> ServerMessage {
    ServerMessage::Ack {
        request_id,
        acknowledged_kind: PUBLISH,
        event_id,
        matched,
        enqueued,
        evicted,
    }
}

fn event(event_id: u64, name: &str, payload: &'static [u8]) -> ServerMessage {
    ServerMessage::Event {
        event_id,
        topic: topic(name),
        payload: Bytes::from_static(payload),
    }
}

#[test]
fn evicts_only_the_full_subscriber() {
    let mut broker = Broker::new();

    let (mut slow_rx, slow_force) = register(&mut broker, 1, 1, 1);
    assert!(matches!(slow_rx.try_recv(), Ok(ServerMessage::Ready { .. })));
    subscribe(&mut broker, 1, 2, "blocks");
    assert!(matches!(slow_rx.try_recv(), Ok(ServerMessage::Ack { .. })));

    let (mut fast_rx, fast_force) = register(&mut broker, 2, 3, 8);
    fast_rx.try_recv().unwrap();
    subscribe(&mut broker, 2, 4, "blocks");
    fast_rx.try_recv().unwrap();

    let (mut publisher_rx, _publisher_force) = register(&mut broker, 3, 5, 8);
    publisher_rx.try_recv().unwrap();

    publish(&mut broker, 3, 6, "blocks", b"first");
    assert!(matches!(fast_rx.try_recv(), Ok(ServerMessage::Event { .. })));
    publisher_rx.try_recv().unwrap();

    publish(&mut broker, 3, 7, "blocks", b"second");
    assert!(matches!(fast_rx.try_recv(), Ok(ServerMessage::Event { .. })));
    let ack = publisher_rx.try_recv().unwrap();
    assert!(matches!(ack, ServerMessage::Ack { evicted: 1, .. }));
    assert!(slow_force.is_cancelled());
    assert!(!fast_force.is_cancelled());

    publish(&mut broker, 3, 8, "blocks", b"third");
    fast_rx.try_recv().unwrap();
    let ack = publisher_rx.try_recv().unwrap();
    assert!(matches!(
        ack,
        ServerMessage::Ack {
            matched: 1,
            enqueued: 1,
            evicted: 0,
            ..
        }
    ));
}

#[test]
fn every_command_is_answered_in_turn() {
    let mut broker = Broker::new();
    let (mut inbox, force_close) = register(&mut broker, 7, 11, 8);
    subscribe(&mut broker, 7, 12, "a");
    publish(&mut broker, 7, 13, "a", b"one");
    publish(&mut broker, 7, 14, "b", b"two");
    publish(&mut broker, 7, 15, "a", b"three");

    assert_eq!(inbox.try_recv(), Ok(ready(11, 7)));
    assert_eq!(inbox.try_recv(), Ok(subscribed(12)));
    // The event comes before its acknowledgement.
    assert_eq!(inbox.try_recv(), Ok(event(1, "a", b"one")));
    assert_eq!(inbox.try_recv(), Ok(published(13, 1, 1, 1, 0)));
    assert_eq!(inbox.try_recv(), Ok(published(14, 2, 0, 0, 0)));
    assert_eq!(inbox.try_recv(), Ok(event(3, "a", b"three")));
    assert_eq!(inbox.try_recv(), Ok(published(15, 3, 1, 1, 0)));
    assert!(inbox.try_recv().is_err());
    assert!(!force_close.is_cancelled());
}

#[test]
fn events_reach_the_followers_of_their_topic_only() {
    let mut broker = Broker::new();
    let (mut first, _) = register(&mut broker, 1, 1, 8);
    let (mut second, _) = register(&mut broker, 2, 1, 8);
    subscribe(&mut broker, 1, 2, "a");
    subscribe(&mut broker, 2, 2, "b");
    publish(&mut broker, 1, 3, "b", b"x");

    assert_eq!(first.try_recv(), Ok(ready(1, 1)));
    assert_eq!(first.try_recv(), Ok(subscribed(2)));
    assert_eq!(first.try_recv(), Ok(published(3, 1, 1, 1, 0)));
    assert!(first.try_recv().is_err());
    assert_eq!(second.try_recv(), Ok(ready(1, 2)));
    assert_eq!(second.try_recv(), Ok(subscribed(2)));
    assert_eq!(second.try_recv(), Ok(event(1, "b", b"x")));
    assert!(second.try_recv().is_err());
}

#[test]
fn subscribing_twice_brings_events_once() {
    let mut broker = Broker::new();
    let (mut inbox, _) = register(&mut broker, 1, 1, 8);
    subscribe(&mut broker, 1, 2, "a");
    subscribe(&mut broker, 1, 3, "a");
    assert_eq!(broker.recipients(&topic("a")), vec![1]);
    publish(&mut broker, 1, 4, "a", b"x");

    assert_eq!(inbox.try_recv(), Ok(ready(1, 1)));
    assert_eq!(inbox.try_recv(), Ok(subscribed(2)));
    assert_eq!(inbox.try_recv(), Ok(subscribed(3)));
    assert_eq!(inbox.try_recv(), Ok(event(1, "a", b"x")));
    assert_eq!(inbox.try_recv(), Ok(published(4, 1, 1, 1, 0)));
}

#[test]
fn removed_connections_get_nothing() {
    let mut broker = Broker::new();
    let (mut gone, force_close) = register(&mut broker, 1, 1, 8);
    subscribe(&mut broker, 1, 2, "a");
    broker.handle(BrokerCommand::Remove { id: ConnectionId(1) });
    broker.handle(BrokerCommand::Remove { id: ConnectionId(1) });
    assert!(broker.recipients(&topic("a")).is_empty());

    let (mut publisher, _) = register(&mut broker, 2, 1, 8);
    publish(&mut broker, 2, 2, "a", b"x");
    assert_eq!(publisher.try_recv(), Ok(ready(1, 2)));
    assert_eq!(publisher.try_recv(), Ok(published(2, 1, 0, 0, 0)));
    assert_eq!(gone.try_recv(), Ok(ready(1, 1)));
    assert_eq!(gone.try_recv(), Ok(subscribed(2)));
    assert!(gone.try_recv().is_err());
    assert!(!force_close.is_cancelled());
}

#[test]
fn unregistered_connections_are_ignored() {
    let mut broker = Broker::new();
    subscribe(&mut broker, 9, 1, "a");
    assert!(broker.recipients(&topic("a")).is_empty());
    // A publication takes a number even if nobody can be told of it.
    publish(&mut broker, 9, 2, "a", b"x");
    let (mut inbox, _) = register(&mut broker, 1, 1, 8);
    publish(&mut broker, 1, 2, "a", b"y");
    assert_eq!(inbox.try_recv(), Ok(ready(1, 1)));
    assert_eq!(inbox.try_recv(), Ok(published(2, 2, 0, 0, 0)));
}

#[test]
fn registering_again_closes_the_predecessor() {
    let mut broker = Broker::new();
    let (mut old_inbox, old_force) = register(&mut broker, 1, 1, 8);
    subscribe(&mut broker, 1, 2, "a");
    let (mut inbox, force_close) = register(&mut broker, 1, 3, 8);
    assert!(old_force.is_cancelled());
    assert!(!force_close.is_cancelled());
    assert_eq!(inbox.try_recv(), Ok(ready(3, 1)));
    assert!(broker.recipients(&topic("a")).is_empty());

    // What was left unread for the predecessor is all that it gets.
    assert_eq!(old_inbox.try_recv(), Ok(ready(1, 1)));
    assert_eq!(old_inbox.try_recv(), Ok(subscribed(2)));
    subscribe(&mut broker, 1, 4, "b");
    assert!(old_inbox.try_recv().is_err());
    assert_eq!(inbox.try_recv(), Ok(subscribed(4)));
}

#[test]
fn closed_queues_are_evicted_without_a_forced_close() {
    let mut broker = Broker::new();
    let (inbox, force_close) = register(&mut broker, 1, 1, 8);
    subscribe(&mut broker, 1, 2, "a");
    drop(inbox);
    let (mut publisher, _) = register(&mut broker, 2, 1, 8);
    publish(&mut broker, 2, 2, "a", b"x");
    assert_eq!(publisher.try_recv(), Ok(ready(1, 2)));
    assert_eq!(publisher.try_recv(), Ok(published(2, 1, 1, 0, 1)));
    assert!(!force_close.is_cancelled());
    assert!(broker.recipients(&topic("a")).is_empty());
}

#[test]
fn an_unread_answer_costs_the_connection() {
    let mut broker = Broker::new();
    let (_inbox, force_close) = register(&mut broker, 1, 1, 1);
    // The queue still holds the ready message, so the acknowledgement finds no room.
    subscribe(&mut broker, 1, 2, "a");
    assert!(force_close.is_cancelled());
    assert!(broker.recipients(&topic("a")).is_empty());
}

#[test]
fn unreachable_followers_are_dropped_and_counted() {
    let mut broker = Broker::new();
    let (mut reading, reading_force) = register(&mut broker, 1, 1, 8);
    let (full, full_force) = register(&mut broker, 2, 1, 2);
    let (closed, closed_force) = register(&mut broker, 3, 1, 8);
    let (mut elsewhere, _) = register(&mut broker, 4, 1, 8);
    for id in 1..=3 {
        subscribe(&mut broker, id, 2, "a");
    }
    subscribe(&mut broker, 4, 2, "b");
    drop(closed);
    publish(&mut broker, 4, 3, "a", b"x");

    assert_eq!(elsewhere.try_recv(), Ok(ready(1, 4)));
    assert_eq!(elsewhere.try_recv(), Ok(subscribed(2)));
    assert_eq!(elsewhere.try_recv(), Ok(published(3, 1, 3, 1, 2)));
    assert_eq!(reading.try_recv(), Ok(ready(1, 1)));
    assert_eq!(reading.try_recv(), Ok(subscribed(2)));
    assert_eq!(reading.try_recv(), Ok(event(1, "a", b"x")));
    assert!(reading.try_recv().is_err());
    assert!(full_force.is_cancelled());
    assert!(!reading_force.is_cancelled());
    assert!(!closed_force.is_cancelled());
    assert_eq!(full.len(), 2);
    assert_eq!(broker.recipients(&topic("a")), vec![1]);
    assert_eq!(broker.recipients(&topic("b")), vec![4]);
}

#[test]
fn event_numbers_start_at_one_and_go_up() {
    let mut broker = Broker::new();
    let (mut inbox, _) = register(&mut broker, 1, 1, 8);
    assert_eq!(inbox.try_recv(), Ok(ready(1, 1)));
    for number in 1..=5 {
        publish(&mut broker, 1, 2, "a", b"x");
        assert_eq!(inbox.try_recv(), Ok(published(2, number, 0, 0, 0)));
    }
}

#[test]
fn counts_are_cut_off_at_the_largest() {
    assert_eq!(count(0), 0);
    assert_eq!(count(65535), 65535);
    assert_eq!(count(65536), 65535);
    assert_eq!(count(usize::MAX), 65535);
}
