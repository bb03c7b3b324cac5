use boundwire::broker::{Broker, BrokerCommand};
use boundwire::broker_state::ConnectionId;
use boundwire::channel::record::Handles;
use boundwire::client;
use boundwire::codec::decode_server_message;
use boundwire::connection::{refuse, Connection, ConnectionEvent, Step, HANDSHAKE_TIMEOUT_SECS};
use boundwire::message::{
    ClientMessage, ErrorCode, ReceivedMessage, ServerMessage, HELLO, PUBLISH, SUBSCRIBE,
};
use boundwire::protocol::{ClientId, Limits, Topic, VERSION};
use boundwire::server::{Server, ServerEvent, ServerStep};
use bytes::{BufMut, Bytes, BytesMut};
use tokio::sync::mpsc::{channel, Receiver};
use tokio::sync::OwnedSemaphorePermit;
use tokio_util::codec::{Decoder, LengthDelimitedCodec};
use tokio_util::sync::CancellationToken;

struct Relay {
    limits: Limits,
    broker: Broker,
    server: Server<String>,
}

struct Client {
    id: ConnectionId,
    connection: Connection,
    outbound: Receiver<ServerMessage>,
    force_close: CancellationToken,
    permit: Option<OwnedSemaphorePermit>,
}

impl Client {
    fn is_open(&self) -> bool {
        self.permit.is_some()
    }

    fn is_told_to_close(&self) -> bool {
        self.force_close.is_cancelled()
    }
}

impl Relay {
    fn start(limits: Limits) -> Self {
        let server = match Server::new(&limits) {
            Ok(server) => server,
            Err(error) => panic!("{}", error.describe()),
        };
        Relay { limits, broker: Broker::new(), server }
    }

    fn accept(&mut self) -> Option<Client> {
        let (id, permit) = match self.server.handle(ServerEvent::Accepted) {
            ServerStep::Serve { id, permit } => (id, permit),
            ServerStep::Reject { .. } => return None,
            _ => panic!("a new connection is served or rejected"),
        };
        let (outgoing, outbound) = channel(self.limits.outbound_queue);
        let force_close = CancellationToken::new();
        Some(Client {
            id,
            connection: Connection::new(id, Handles::new(outgoing, force_close.clone())),
            outbound,
            force_close,
            permit: Some(permit),
        })
    }

    fn connect(&mut self, name: &[u8]) -> Client {
        let mut client = self.accept().unwrap();
        self.send(&mut client, hello(1, name));
        assert!(matches!(
            self.receive(&mut client),
            Some(ReceivedMessage::Ready { request_id: 1, .. })
        ));
        client
    }

    fn happen(&mut self, client: &mut Client, event: ConnectionEvent) -> Option<Bytes> {
        match client.connection.handle(event, &self.limits) {
            Step::Wait => None,
            Step::Write(frame) => Some(frame),
            Step::Remove { id } => {
                self.broker.handle(BrokerCommand::Remove { id });
                client.permit = None;
                None
            }
            Step::Register { id, request_id, handles } => {
                self.ask(client, BrokerCommand::Register { id, request_id, handles })
            }
            Step::Subscribe { id, request_id, topic } => {
                self.ask(client, BrokerCommand::Subscribe { id, request_id, topic })
            }
            Step::Publish { id, request_id, topic, payload } => {
                self.ask(client, BrokerCommand::Publish { id, request_id, topic, payload })
            }
        }
    }

    fn ask(&mut self, client: &mut Client, command: BrokerCommand) -> Option<Bytes> {
        self.broker.handle(command);
        self.happen(client, ConnectionEvent::Answered { ok: true })
    }

    fn send(&mut self, client: &mut Client, frame: Bytes) {
        assert!(client.is_open());
        let frame = BytesMut::from(&frame[..]);
        let written = self.happen(client, ConnectionEvent::Incoming(Some(frame)));
        assert!(written.is_none());
    }

    fn receive_frame(&mut self, client: &mut Client) -> Option<BytesMut> {
        let message = client.outbound.try_recv().ok()?;
        let written = self.happen(client, ConnectionEvent::Outbound(Some(message)));
        let written = written.expect("the frame was written");
        assert!(self.happen(client, ConnectionEvent::Written { ok: true }).is_none());
        Some(BytesMut::from(&written[..]))
    }

    fn receive(&mut self, client: &mut Client) -> Option<ReceivedMessage> {
        let frame = self.receive_frame(client)?;
        Some(decode_server_message(frame, &self.limits).unwrap())
    }
}

fn codec(limits: &Limits) -> LengthDelimitedCodec {
    LengthDelimitedCodec::builder().max_frame_length(limits.max_frame_len).new_codec()
}

fn hello(request_id: u32, name: &[u8]) -> Bytes {
    named_frame(HELLO, request_id, name, &[])
}

fn subscribe(request_id: u32, topic: &[u8]) -> Bytes {
    named_frame(SUBSCRIBE, request_id, topic, &[])
}

fn publish(request_id: u32, topic: &[u8], payload: &[u8]) -> Bytes {
    named_frame(PUBLISH, request_id, topic, payload)
}

fn named_frame(kind: u8, request_id: u32, name: &[u8], payload: &[u8]) -> Bytes {
    let mut frame = BytesMut::with_capacity(7 + name.len() + payload.len());
    frame.put_u8(VERSION);
    frame.put_u8(kind);
    frame.put_u32(request_id);
    frame.put_u8(name.len() as u8);
    frame.extend_from_slice(name);
    frame.extend_from_slice(payload);
    frame.freeze()
}

fn outer_frame(inner: &Bytes) -> Bytes {
    let mut frame = BytesMut::with_capacity(4 + inner.len());
    frame.put_u32(inner.len() as u32);
    frame.extend_from_slice(inner);
    frame.freeze()
}

#[test]
fn accepts_fragmented_and_coalesced_frames() {
    let limits = Limits::default();
    let mut relay = Relay::start(limits.clone());
    let mut client = relay.accept().unwrap();
    let mut codec = codec(&limits);
    let mut stream = BytesMut::new();

    let hello = outer_frame(&hello(1, b"combined"));
    stream.extend_from_slice(&hello[..2]);
    assert!(codec.decode(&mut stream).unwrap().is_none());
    stream.extend_from_slice(&hello[2..]);
    let frame = codec.decode(&mut stream).unwrap().unwrap();
    relay.send(&mut client, frame.freeze());
    let ready = relay.receive(&mut client).unwrap();
    assert!(matches!(ready, ReceivedMessage::Ready { request_id: 1, .. }));

    stream.extend_from_slice(&outer_frame(&subscribe(2, b"blocks")));
    stream.extend_from_slice(&outer_frame(&publish(3, b"blocks", b"block-100")));
    while let Some(frame) = codec.decode(&mut stream).unwrap() {
        relay.send(&mut client, frame.freeze());
    }

    assert!(matches!(
        relay.receive(&mut client),
        Some(ReceivedMessage::Ack { request_id: 2, .. })
    ));
    assert!(matches!(
        relay.receive(&mut client),
        Some(ReceivedMessage::Event { ref payload, .. }) if payload.as_ref() == b"block-100"
    ));
    assert!(matches!(
        relay.receive(&mut client),
        Some(ReceivedMessage::Ack { request_id: 3, .. })
    ));
}

#[test]
fn oversized_frame_closes_only_its_connection() {
    let limits = Limits::default();
    let mut relay = Relay::start(limits.clone());
    let mut good = relay.connect(b"good");
    let mut bad = relay.accept().unwrap();

    let mut stream = BytesMut::new();
    stream.put_u32((limits.max_frame_len + 1) as u32);
    assert!(codec(&limits).decode(&mut stream).is_err());
    relay.happen(&mut bad, ConnectionEvent::Incoming(None));
    assert!(!bad.is_open());

    relay.send(&mut good, subscribe(2, b"still-alive"));
    assert!(matches!(
        relay.receive(&mut good),
        Some(ReceivedMessage::Ack { request_id: 2, .. })
    ));
}

#[test]
fn rejects_commands_until_hello_arrives() {
    let mut relay = Relay::start(Limits::default());
    let mut client = relay.accept().unwrap();

    relay.send(&mut client, publish(1, b"blocks", b"too-early"));
    assert!(matches!(
        relay.receive(&mut client),
        Some(ReceivedMessage::Error {
            request_id: 1,
            code: 1,
            ..
        })
    ));

    relay.send(&mut client, hello(2, b"late-hello"));
    assert!(matches!(
        relay.receive(&mut client),
        Some(ReceivedMessage::Ready { request_id: 2, .. })
    ));
}

#[test]
fn repeated_hello_is_rejected_without_closing_connection() {
    let mut relay = Relay::start(Limits::default());
    let mut client = relay.connect(b"original");

    relay.send(&mut client, hello(2, b"replacement"));
    assert!(matches!(
        relay.receive(&mut client),
        Some(ReceivedMessage::Error {
            request_id: 2,
            code: 2,
            ..
        })
    ));

    relay.send(&mut client, subscribe(3, b"still-active"));
    assert!(matches!(
        relay.receive(&mut client),
        Some(ReceivedMessage::Ack { request_id: 3, .. })
    ));
}

#[test]
fn silent_connection_releases_its_slot() {
    let mut relay = Relay::start(Limits { max_connections: 1, ..Limits::default() });
    let mut silent = relay.accept().unwrap();
    assert!(silent.connection.is_silent());
    assert!(HANDSHAKE_TIMEOUT_SECS <= 7);
    assert!(relay.accept().is_none());

    relay.happen(&mut silent, ConnectionEvent::HandshakeDeadline);
    assert!(!silent.is_open());

    let client = relay.connect(b"after-timeout");
    assert!(client.is_open());
}

#[test]
fn active_connection_survives_handshake_deadline() {
    let mut relay = Relay::start(Limits::default());
    let mut client = relay.connect(b"active");

    assert!(HANDSHAKE_TIMEOUT_SECS * 1000 <= 5_100);
    assert!(!client.connection.is_silent());
    relay.happen(&mut client, ConnectionEvent::HandshakeDeadline);
    assert!(client.is_open());
    relay.send(&mut client, subscribe(2, b"still-active"));
    assert!(matches!(
        relay.receive(&mut client),
        Some(ReceivedMessage::Ack { request_id: 2, .. })
    ));
}

#[test]
fn slow_socket_does_not_block_fast_subscriber() {
    let limits = Limits { outbound_queue: 2, max_connections: 8, ..Limits::default() };
    let mut relay = Relay::start(limits.clone());
    let mut slow = relay.connect(b"slow");
    let mut fast = relay.connect(b"fast");
    let mut publisher = relay.connect(b"publisher");

    relay.send(&mut slow, subscribe(2, b"blocks"));
    assert!(matches!(relay.receive(&mut slow), Some(ReceivedMessage::Ack { .. })));
    relay.send(&mut fast, subscribe(2, b"blocks"));
    assert!(matches!(relay.receive(&mut fast), Some(ReceivedMessage::Ack { .. })));

    let large_payload = vec![7_u8; limits.max_payload_len];
    let mut eviction_seen = false;
    for request_id in 10..=2_058 {
        relay.send(&mut publisher, publish(request_id, b"blocks", &large_payload));
        let Some(ReceivedMessage::Ack { matched, enqueued, evicted, .. }) =
            relay.receive(&mut publisher)
        else {
            panic!("publisher expected ACK");
        };
        assert!(enqueued <= matched);
        assert!(matches!(relay.receive(&mut fast), Some(ReceivedMessage::Event { .. })));
        if evicted == 1 {
            eviction_seen = true;
            break;
        }
    }
    assert!(eviction_seen, "the non-reading socket never created queue pressure");
    assert!(slow.is_told_to_close());
    relay.happen(&mut slow, ConnectionEvent::ForceClose);
    assert!(!slow.is_open());

    relay.send(&mut publisher, publish(3_000, b"blocks", b"final-marker"));
    assert!(matches!(
        relay.receive(&mut publisher),
        Some(ReceivedMessage::Ack {
            matched: 1,
            enqueued: 1,
            evicted: 0,
            ..
        })
    ));
    let Some(ReceivedMessage::Event { topic, payload, .. }) = relay.receive(&mut fast) else {
        panic!("fast subscriber missed marker");
    };
    assert_eq!(topic.as_str(), "blocks");
    assert_eq!(payload, Bytes::from_static(b"final-marker"));
}

#[test]
fn subscriber_receives_published_payload() {
    let mut relay = Relay::start(Limits::default());

    let mut subscriber = relay.accept().unwrap();
    let exchange = client::subscribe("blocks");
    relay.send(&mut subscriber, exchange.hello().unwrap());
    let ready = relay.receive_frame(&mut subscriber).unwrap();
    let (command, pending) = exchange.ready(client::Arrival::Frame(ready)).unwrap();
    relay.send(&mut subscriber, command);
    let ack = relay.receive_frame(&mut subscriber).unwrap();
    let Ok(client::Outcome::Subscribed(subscription)) =
        pending.conclude(client::Arrival::Frame(ack))
    else {
        panic!("the subscription was not acknowledged");
    };

    let mut publisher = relay.accept().unwrap();
    let exchange = client::publish("blocks", Bytes::from_static(b"block-100"));
    relay.send(&mut publisher, exchange.hello().unwrap());
    let ready = relay.receive_frame(&mut publisher).unwrap();
    let (command, pending) = exchange.ready(client::Arrival::Frame(ready)).unwrap();
    relay.send(&mut publisher, command);
    let ack = relay.receive_frame(&mut publisher).unwrap();
    let Ok(client::Outcome::Published(receipt)) = pending.conclude(client::Arrival::Frame(ack))
    else {
        panic!("the publication was not acknowledged");
    };

    let frame = relay.receive_frame(&mut subscriber);
    let event = subscription.next_event(frame).unwrap().expect("event");

    assert_eq!(receipt.matched, 1);
    assert_eq!(receipt.enqueued, 1);
    assert_eq!(event.event_id, receipt.event_id);
    assert_eq!(event.topic, "blocks");
    assert_eq!(event.payload, Bytes::from_static(b"block-100"));
}

#[test]
fn malformed_frames_close_the_connection() {
    let mut relay = Relay::start(Limits::default());
    let mut client = relay.connect(b"sloppy");
    relay.send(&mut client, Bytes::from_static(b"\x01\x02\x00\x00\x00\x01\x01 "));
    assert!(!client.is_open());
    assert!(relay.receive(&mut client).is_none());
}

#[test]
fn connections_close_when_their_peers_are_gone() {
    let mut relay = Relay::start(Limits::default());
    for ending in [
        ConnectionEvent::Shutdown,
        ConnectionEvent::ForceClose,
        ConnectionEvent::Outbound(None),
        ConnectionEvent::Incoming(None),
        ConnectionEvent::Written { ok: false },
        ConnectionEvent::Answered { ok: false },
    ] {
        let mut client = relay.connect(b"somebody");
        relay.happen(&mut client, ending);
        assert!(!client.is_open());
    }
}

#[test]
fn messages_that_do_not_fit_close_the_connection() {
    let limits =
        Limits { max_frame_len: 16, max_payload_len: 0, max_name_len: 1, ..Limits::default() };
    let mut relay = Relay::start(limits);
    let mut client = relay.connect(b"x");
    relay.send(&mut client, subscribe(2, b"t"));
    let message = client.outbound.try_recv().unwrap();
    assert!(matches!(message, ServerMessage::Ack { .. }));
    relay.happen(&mut client, ConnectionEvent::Outbound(Some(message)));
    assert!(!client.is_open());
}

#[test]
fn an_unread_refusal_closes_the_connection() {
    let mut relay = Relay::start(Limits { outbound_queue: 2, ..Limits::default() });
    let mut client = relay.accept().unwrap();
    relay.send(&mut client, subscribe(1, b"t"));
    relay.send(&mut client, subscribe(2, b"t"));
    assert!(client.is_open());
    assert!(!client.is_told_to_close());
    relay.send(&mut client, subscribe(3, b"t"));
    assert!(!client.is_open());
    assert!(client.is_told_to_close());
}

#[test]
fn refusals_depend_on_the_phase() {
    let limits = Limits::default();
    let hello = ClientMessage::Hello {
        request_id: 1,
        client_id: ClientId::parse(b"me", &limits).unwrap(),
    };
    let subscribe = ClientMessage::Subscribe {
        request_id: 1,
        topic: Topic::parse(b"t", &limits).unwrap(),
    };
    assert_eq!(refuse(false, &hello), None);
    assert_eq!(refuse(true, &hello), Some((ErrorCode::AlreadyActive, "HELLO is only valid once")));
    assert_eq!(
        refuse(false, &subscribe),
        Some((ErrorCode::ExpectedHello, "send HELLO before other commands"))
    );
    assert_eq!(refuse(true, &subscribe), None);
}

#[test]
fn an_introduction_stops_the_handshake_clock() {
    let mut relay = Relay::start(Limits::default());
    let mut client = relay.accept().unwrap();
    assert!(client.connection.is_silent());
    let frame = BytesMut::from(&hello(1, b"me")[..]);
    let step = client.connection.handle(ConnectionEvent::Incoming(Some(frame)), &relay.limits);
    assert!(matches!(step, Step::Register { request_id: 1, .. }));
    assert!(!client.connection.is_silent());
    relay.happen(&mut client, ConnectionEvent::HandshakeDeadline);
    assert!(client.is_open());
}

#[test]
fn a_connection_is_entered_and_removed_once() {
    let limits = Limits::default();
    let (outgoing, _outbound) = channel(8);
    let mut connection =
        Connection::new(ConnectionId(4), Handles::new(outgoing, CancellationToken::new()));
    let events = vec![
        ConnectionEvent::Incoming(Some(BytesMut::from(&subscribe(1, b"early")[..]))),
        ConnectionEvent::Incoming(Some(BytesMut::from(&hello(2, b"me")[..]))),
        ConnectionEvent::Answered { ok: true },
        ConnectionEvent::Incoming(Some(BytesMut::from(&hello(3, b"again")[..]))),
        ConnectionEvent::Incoming(Some(BytesMut::from(&subscribe(4, b"blocks")[..]))),
        ConnectionEvent::Answered { ok: true },
        ConnectionEvent::Incoming(Some(BytesMut::from(&publish(5, b"blocks", b"x")[..]))),
        ConnectionEvent::Answered { ok: true },
        ConnectionEvent::Incoming(None),
        ConnectionEvent::Incoming(Some(BytesMut::from(&hello(6, b"late")[..]))),
        ConnectionEvent::Shutdown,
    ];
    let mut steps = Vec::new();
    for event in events {
        match connection.handle(event, &limits) {
            Step::Wait => {}
            Step::Remove { id } => steps.push(format!("remove {}", id.0)),
            Step::Write(_) => steps.push("write".to_owned()),
            Step::Register { id, request_id, .. } => {
                steps.push(format!("register {} {request_id}", id.0))
            }
            Step::Subscribe { id, request_id, topic } => {
                steps.push(format!("subscribe {} {request_id} {}", id.0, topic.as_str()))
            }
            Step::Publish { id, request_id, topic, payload } => steps.push(format!(
                "publish {} {request_id} {} {payload:?}",
                id.0,
                topic.as_str()
            )),
        }
    }
    assert_eq!(
        steps,
        vec![
            "register 4 2",
            "subscribe 4 4 blocks",
            "publish 4 5 blocks b\"x\"",
            "remove 4",
        ]
    );
}

#[test]
fn no_more_are_served_than_there_are_places() {
    let mut relay = Relay::start(Limits { max_connections: 3, ..Limits::default() });
    let mut open = Vec::new();
    for _ in 0..5 {
        open.extend(relay.accept());
    }
    assert_eq!(open.len(), 3);
    let mut first = open.remove(0);
    relay.happen(&mut first, ConnectionEvent::Incoming(None));
    open.extend(relay.accept());
    open.extend(relay.accept());
    assert_eq!(open.len(), 3);
    assert_eq!(open.iter().map(|client| client.id.0).collect::<Vec<_>>(), vec![2, 3, 4]);
    let report = relay.server.finish(None).unwrap();
    assert_eq!(report.accepted_connections, 4);
    assert_eq!(report.rejected_connections, 3);
}

#[test]
fn a_connection_registers_with_its_own_queue_and_token() {
    let limits = Limits::default();
    let (outgoing, mut outbound) = channel(8);
    let force_close = CancellationToken::new();
    let mut connection =
        Connection::new(ConnectionId(4), Handles::new(outgoing, force_close.clone()));
    let frame = BytesMut::from(&hello(2, b"me")[..]);
    let step = connection.handle(ConnectionEvent::Incoming(Some(frame)), &limits);
    let Step::Register { id, request_id, handles } = step else {
        panic!("an introduction asks the broker to enter the connection");
    };

    let mut broker = Broker::new();
    broker.handle(BrokerCommand::Register { id, request_id, handles });
    assert_eq!(
        outbound.try_recv(),
        Ok(ServerMessage::Ready { request_id: 2, connection_id: 4 })
    );
    assert!(!force_close.is_cancelled());
    let (other, _inbox) = channel(8);
    broker.handle(BrokerCommand::Register {
        id,
        request_id: 3,
        handles: Handles::new(other, CancellationToken::new()),
    });
    assert!(force_close.is_cancelled());
}

#[test]
fn requests_before_the_broker_s_answer_close_the_connection() {
    let limits = Limits::default();
    for early in [hello(3, b"again"), subscribe(3, b"blocks")] {
        let (outgoing, mut outbound) = channel(8);
        let mut connection =
            Connection::new(ConnectionId(4), Handles::new(outgoing, CancellationToken::new()));
        let introduction = BytesMut::from(&hello(2, b"me")[..]);
        connection.handle(ConnectionEvent::Incoming(Some(introduction)), &limits);
        let early = BytesMut::from(&early[..]);
        let step = connection.handle(ConnectionEvent::Incoming(Some(early)), &limits);
        assert!(matches!(step, Step::Remove { id: ConnectionId(4) }));
        assert!(outbound.try_recv().is_err());
    }
}
