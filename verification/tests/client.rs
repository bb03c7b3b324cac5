use boundwire::client::{
    introduce, invalid_data, invalid_input, parse_topic, publish, receive, send, subscribe,
    unexpected, Arrival, ClientError, Event, Outcome, Pending, PublishReceipt, Subscription,
};
use boundwire::codec::{decode_client_message, encode_server_message};
use boundwire::message::{
    ClientMessage, ErrorCode, ReceivedMessage, ServerMessage, PUBLISH, SUBSCRIBE,
};
use boundwire::protocol::{ClientId, Limits, ProtocolError, Topic};
use bytes::{Bytes, BytesMut};

fn arrival(message: &ServerMessage) -> Arrival {
    Arrival::Frame(frame(message))
}

fn frame(message: &ServerMessage) -> BytesMut {
    let encoded = encode_server_message(message, &Limits::default()).unwrap();
    BytesMut::from(&encoded[..])
}

fn ready(request_id: u32) -> ServerMessage {
    ServerMessage::Ready { request_id, connection_id: 5 }
}

fn ack(request_id: u32, acknowledged_kind: u8) -> ServerMessage {
    ServerMessage::Ack {
        request_id,
        acknowledged_kind,
        event_id: 8,
        matched: 3,
        enqueued: 2,
        evicted: 1,
    }
}

fn refusal() -> ServerMessage {
    ServerMessage::Error {
        request_id: 2,
        code: ErrorCode::EventIdExhausted,
        detail: "event ID space is exhausted",
    }
}

fn rejected() -> ClientError {
    ClientError::Rejected {
        request_id: 2,
        code: 3,
        detail: "event ID space is exhausted".to_owned(),
    }
}

fn decode(frame: &Bytes) -> ClientMessage {
    decode_client_message(BytesMut::from(&frame[..]), &Limits::default()).unwrap()
}

fn subscription() -> Subscription {
    match Pending::Subscribe.conclude(arrival(&ack(2, SUBSCRIBE))) {
        Ok(Outcome::Subscribed(subscription)) => subscription,
        _ => panic!("the subscription was acknowledged"),
    }
}

fn failure(result: Result<Outcome, ClientError>) -> ClientError {
    match result {
        Err(error) => error,
        Ok(_) => panic!("the exchange was not meant to come to anything"),
    }
}

#[test]
fn exchanges_begin_with_an_introduction() {
    let limits = Limits::default();
    let publisher = publish("blocks", Bytes::from_static(b"block-100"));
    assert_eq!(
        publisher.hello(),
        Ok(Bytes::from_static(b"\x01\x01\x00\x00\x00\x01\x13boundwire-publisher"))
    );
    let subscriber = subscribe("blocks");
    assert_eq!(
        subscriber.hello(),
        Ok(Bytes::from_static(b"\x01\x01\x00\x00\x00\x01\x14boundwire-subscriber"))
    );
    assert_eq!(
        decode(&publisher.hello().unwrap()),
        ClientMessage::Hello {
            request_id: 1,
            client_id: ClientId::parse(b"boundwire-publisher", &limits).unwrap(),
        }
    );
}

#[test]
fn a_ready_server_is_sent_the_command() {
    let limits = Limits::default();
    let topic = Topic::parse(b"blocks", &limits).unwrap();
    let exchange = publish("blocks", Bytes::from_static(b"block-100"));
    let (command, pending) = exchange.ready(arrival(&ready(1))).unwrap();
    assert_eq!(pending, Pending::Publish);
    assert_eq!(&command[..], b"\x01\x04\x00\x00\x00\x02\x06blocksblock-100");
    assert_eq!(
        decode(&command),
        ClientMessage::Publish {
            request_id: 2,
            topic: topic.clone(),
            payload: Bytes::from_static(b"block-100"),
        }
    );

    let (command, pending) = subscribe("blocks").ready(arrival(&ready(1))).unwrap();
    assert_eq!(pending, Pending::Subscribe);
    assert_eq!(decode(&command), ClientMessage::Subscribe { request_id: 2, topic });
}

#[test]
fn other_answers_than_ready_end_the_exchange() {
    assert_eq!(subscribe("a").ready(Arrival::TimedOut), Err(ClientError::TimedOut));
    assert_eq!(subscribe("a").ready(Arrival::Closed), Err(ClientError::ServerClosed));
    assert_eq!(subscribe("a").ready(arrival(&refusal())), Err(rejected()));
    assert_eq!(
        subscribe("a").ready(arrival(&ready(2))),
        Err(ClientError::Unexpected {
            expected: "ready response",
            received: ReceivedMessage::Ready { request_id: 2, connection_id: 5 },
        })
    );
    assert_eq!(
        subscribe("a").ready(Arrival::Frame(BytesMut::from(&b"\x01"[..]))),
        Err(ClientError::InvalidData(ProtocolError::FrameTooShort))
    );
}

#[test]
fn bad_topics_and_payloads_are_reported_once_the_server_is_ready() {
    assert_eq!(
        subscribe("two words").ready(arrival(&ready(1))),
        Err(ClientError::InvalidInput(ProtocolError::InvalidTopic))
    );
    assert_eq!(
        subscribe("caf\u{e9}").ready(arrival(&ready(1))),
        Err(ClientError::InvalidInput(ProtocolError::InvalidTopic))
    );
    assert_eq!(
        publish("", Bytes::new()).ready(arrival(&ready(1))),
        Err(ClientError::InvalidInput(ProtocolError::InvalidTopic))
    );
    assert_eq!(
        publish("a", Bytes::from(vec![0; 12289])).ready(arrival(&ready(1))),
        Err(ClientError::InvalidInput(ProtocolError::PayloadTooLarge))
    );
    assert!(publish("a", Bytes::from(vec![0; 12288])).ready(arrival(&ready(1))).is_ok());
}

#[test]
fn publishers_get_the_acknowledged_counts() {
    match Pending::Publish.conclude(arrival(&ack(2, PUBLISH))) {
        Ok(Outcome::Published(receipt)) => assert_eq!(
            receipt,
            PublishReceipt { event_id: 8, matched: 3, enqueued: 2, evicted: 1 }
        ),
        _ => panic!("the publication was acknowledged"),
    }
}

#[test]
fn other_answers_than_the_acknowledgement_end_the_exchange() {
    for wrong in [ack(2, SUBSCRIBE), ack(1, PUBLISH)] {
        let error = failure(Pending::Publish.conclude(arrival(&wrong)));
        assert!(matches!(
            error,
            ClientError::Unexpected { expected: "publish acknowledgement", .. }
        ));
    }
    for wrong in [ack(2, PUBLISH), ack(3, SUBSCRIBE), ready(2)] {
        let error = failure(Pending::Subscribe.conclude(arrival(&wrong)));
        assert!(matches!(
            error,
            ClientError::Unexpected { expected: "subscription acknowledgement", .. }
        ));
    }
    assert_eq!(failure(Pending::Publish.conclude(arrival(&refusal()))), rejected());
    assert_eq!(failure(Pending::Publish.conclude(Arrival::TimedOut)), ClientError::TimedOut);
    assert_eq!(failure(Pending::Subscribe.conclude(Arrival::Closed)), ClientError::ServerClosed);
}

#[test]
fn subscribers_read_events() {
    let limits = Limits::default();
    let event = ServerMessage::Event {
        event_id: 4,
        topic: Topic::parse(b"blocks", &limits).unwrap(),
        payload: Bytes::from_static(b"block-100"),
    };
    assert_eq!(
        subscription().next_event(Some(frame(&event))),
        Ok(Some(Event {
            event_id: 4,
            topic: "blocks".to_owned(),
            payload: Bytes::from_static(b"block-100"),
        }))
    );
    assert_eq!(subscription().next_event(None), Ok(None));
}

#[test]
fn subscribers_take_nothing_but_events() {
    // An error is not taken for the answer to a request here.
    assert_eq!(
        subscription().next_event(Some(frame(&refusal()))),
        Err(ClientError::Unexpected {
            expected: "event",
            received: ReceivedMessage::Error {
                request_id: 2,
                code: 3,
                detail: "event ID space is exhausted".to_owned(),
            },
        })
    );
    assert_eq!(
        subscription().next_event(Some(BytesMut::from(&b"\x02\x83\x00\x00\x00\x00"[..]))),
        Err(ClientError::InvalidData(ProtocolError::UnknownVersion(2)))
    );
}

#[test]
fn requests_and_introductions_keep_to_the_limits() {
    let limits = Limits::default();
    assert_eq!(
        introduce("a client", &limits),
        Err(ClientError::InvalidInput(ProtocolError::InvalidClientId))
    );
    assert_eq!(
        introduce("me", &limits),
        Ok(Bytes::from_static(b"\x01\x01\x00\x00\x00\x01\x02me"))
    );
    let narrow = Limits { max_frame_len: 8, ..Limits::default() };
    assert_eq!(
        introduce("me", &narrow),
        Err(ClientError::InvalidInput(ProtocolError::EncodedFrameTooLarge))
    );
    let unnumbered = ClientMessage::Subscribe {
        request_id: 0,
        topic: parse_topic("t", &limits).unwrap(),
    };
    assert_eq!(
        send(&unnumbered, &limits),
        Err(ClientError::InvalidInput(ProtocolError::ZeroRequestId))
    );
    assert_eq!(
        parse_topic("a+b", &limits),
        Err(ClientError::InvalidInput(ProtocolError::InvalidTopic))
    );
    assert_eq!(
        receive(arrival(&ready(1)), &limits),
        Ok(ReceivedMessage::Ready { request_id: 1, connection_id: 5 })
    );
}

#[test]
fn client_errors_say_what_went_wrong() {
    assert_eq!(
        invalid_input(ProtocolError::InvalidTopic).describe(""),
        "topic is empty, too long, or contains invalid bytes"
    );
    assert_eq!(
        invalid_data(ProtocolError::UnknownKind(0x84)).describe(""),
        "unknown message kind 0x84"
    );
    assert_eq!(ClientError::TimedOut.describe(""), "server response timed out");
    assert_eq!(ClientError::ServerClosed.describe(""), "server closed");
    assert_eq!(
        rejected().describe(""),
        "server rejected request 2 with code 3: event ID space is exhausted"
    );
    let message = ReceivedMessage::Ready { request_id: 2, connection_id: 5 };
    let printed = format!("{message:?}");
    assert_eq!(
        unexpected("event", message).describe(&printed),
        "expected event, received Ready { request_id: 2, connection_id: 5 }"
    );
}
