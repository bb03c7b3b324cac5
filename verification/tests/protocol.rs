use boundwire::codec::{
    decode_client_message, decode_server_message, encode_client_message, encode_server_message,
    require_request_id, server_frame_len,
};
use boundwire::message::{
    ClientMessage, ErrorCode, ReceivedMessage, ServerMessage, PUBLISH, SUBSCRIBE,
};
use boundwire::protocol::{ClientId, Limits, ProtocolError, Topic, HEADER_LEN, VERSION};
use boundwire::text::{write_decimal, write_hexadecimal};
use bytes::{BufMut, Bytes, BytesMut};

fn frame(bytes: &[u8]) -> BytesMut {
    BytesMut::from(bytes)
}

fn topic(name: &str) -> Topic {
    Topic::parse(name.as_bytes(), &Limits::default()).unwrap()
}

fn client_id(name: &str) -> ClientId {
    ClientId::parse(name.as_bytes(), &Limits::default()).unwrap()
}

fn decode_client(bytes: &[u8]) -> Result<ClientMessage, ProtocolError> {
    decode_client_message(frame(bytes), &Limits::default())
}

fn decode_server(bytes: &[u8]) -> Result<ReceivedMessage, ProtocolError> {
    decode_server_message(frame(bytes), &Limits::default())
}

fn defect(limits: Limits) -> String {
    match limits.validate() {
        Err(ProtocolError::InvalidLimits(detail)) => detail.to_owned(),
        other => panic!("unexpected result: {other:?}"),
    }
}

#[test]
fn decodes_publish_at_payload_limit() {
    let limits = Limits::default();
    let mut frame = BytesMut::new();
    frame.put_u8(VERSION);
    frame.put_u8(PUBLISH);
    frame.put_u32(7);
    frame.put_u8(6);
    frame.extend_from_slice(b"blocks");
    frame.resize(HEADER_LEN + 1 + 6 + limits.max_payload_len, 9);

    let decoded = decode_client_message(frame, &limits).unwrap();

    assert!(matches!(
        decoded,
        ClientMessage::Publish {
            request_id: 7,
            payload,
            ..
        } if payload.len() == limits.max_payload_len
    ));
}

#[test]
fn rejects_trailing_hello_bytes() {
    let limits = Limits::default();
    let mut frame = BytesMut::from(&b"\x01\x01\x00\x00\x00\x01\x01ax"[..]);

    assert_eq!(
        decode_client_message(frame.split(), &limits),
        Err(ProtocolError::TrailingBytes)
    );
}

#[test]
fn validates_limit_relationships() {
    let limits = Limits {
        max_frame_len: HEADER_LEN + 1 + 64 + 12 * 1024,
        ..Limits::default()
    };

    assert!(matches!(
        limits.validate(),
        Err(ProtocolError::InvalidLimits(_))
    ));
}

#[test]
fn rejects_single_slot_outbound_queue() {
    let limits = Limits {
        outbound_queue: 1,
        ..Limits::default()
    };

    assert!(matches!(
        limits.validate(),
        Err(ProtocolError::InvalidLimits(_))
    ));
}

#[test]
fn default_limits_are_valid() {
    let limits = Limits::default();
    assert_eq!(limits.max_frame_len, 16384);
    assert_eq!(limits.max_payload_len, 12288);
    assert_eq!(limits.max_name_len, 64);
    assert_eq!(limits.broker_queue, 128);
    assert_eq!(limits.outbound_queue, 32);
    assert_eq!(limits.max_connections, 64);
    assert_eq!(limits.validate(), Ok(()));
    assert_eq!(limits.clone().validate(), Ok(()));
}

#[test]
fn each_limit_rule_has_its_own_text() {
    let nonzero = "broker queue and connection limits must be nonzero";
    assert_eq!(defect(Limits { broker_queue: 0, ..Limits::default() }), nonzero);
    assert_eq!(defect(Limits { max_connections: 0, ..Limits::default() }), nonzero);
    assert_eq!(
        defect(Limits { outbound_queue: 0, ..Limits::default() }),
        "outbound queue must hold an event and its acknowledgement"
    );
    let name = "name limit must fit in one byte";
    assert_eq!(defect(Limits { max_name_len: 0, ..Limits::default() }), name);
    assert_eq!(defect(Limits { max_name_len: 256, ..Limits::default() }), name);
    let event = "a maximum event must fit in one frame";
    assert_eq!(defect(Limits { max_payload_len: 16306, ..Limits::default() }), event);
    assert_eq!(defect(Limits { max_payload_len: usize::MAX, ..Limits::default() }), event);
    assert_eq!(
        defect(Limits { max_connections: 65536, ..Limits::default() }),
        "connection limit must fit in acknowledgement counts"
    );
    assert_eq!(
        defect(Limits { max_frame_len: u32::MAX as usize + 1, ..Limits::default() }),
        "frame limit must fit in the four-byte length prefix"
    );
}

#[test]
fn a_maximum_event_just_fits() {
    let limits = Limits { max_payload_len: 16305, ..Limits::default() };
    assert_eq!(limits.validate(), Ok(()));

    let name = "t".repeat(64);
    let event = ServerMessage::Event {
        event_id: u64::MAX,
        topic: topic(&name),
        payload: Bytes::from(vec![3; 16305]),
    };
    let encoded = encode_server_message(&event, &limits).unwrap();
    assert_eq!(encoded.len(), limits.max_frame_len);
    assert_eq!(server_frame_len(&event), Some(limits.max_frame_len));
    assert!(matches!(
        decode_server_message(frame(&encoded), &limits),
        Ok(ReceivedMessage::Event { event_id: u64::MAX, payload, .. }) if payload.len() == 16305
    ));
}

#[test]
fn topics_hold_letters_digits_and_four_marks() {
    let limits = Limits::default();
    assert_eq!(topic("AZaz09._-/").as_str(), "AZaz09._-/");
    assert_eq!(topic("blocks").into_string(), "blocks");
    for refused in [&b""[..], b"a b", b"a+b", b"a:b", b"a@b", b"a[b", b"a`b", b"a{b", b"\xc3\xa9"] {
        assert_eq!(Topic::parse(refused, &limits), Err(ProtocolError::InvalidTopic));
    }
    assert!(Topic::parse(&[b'x'; 64], &limits).is_ok());
    assert_eq!(Topic::parse(&[b'x'; 65], &limits), Err(ProtocolError::InvalidTopic));
}

#[test]
fn client_ids_hold_printable_ascii() {
    let limits = Limits::default();
    assert_eq!(client_id("!~").as_bytes(), b"!~");
    for refused in [&b""[..], b"a b", b"\x7f", b"\x80", b"\n"] {
        assert_eq!(ClientId::parse(refused, &limits), Err(ProtocolError::InvalidClientId));
    }
    assert!(ClientId::parse(&[b'x'; 64], &limits).is_ok());
    assert_eq!(ClientId::parse(&[b'x'; 65], &limits), Err(ProtocolError::InvalidClientId));
}

#[test]
fn client_messages_have_these_bytes() {
    let limits = Limits::default();
    let hello = ClientMessage::Hello { request_id: 0x01020304, client_id: client_id("me") };
    assert_eq!(
        encode_client_message(&hello, &limits),
        Ok(Bytes::from_static(b"\x01\x01\x01\x02\x03\x04\x02me"))
    );
    let subscribe = ClientMessage::Subscribe { request_id: 2, topic: topic("a/b") };
    assert_eq!(
        encode_client_message(&subscribe, &limits),
        Ok(Bytes::from_static(b"\x01\x02\x00\x00\x00\x02\x03a/b"))
    );
    let publish = ClientMessage::Publish {
        request_id: 3,
        topic: topic("t"),
        payload: Bytes::from_static(b"\x00xyz"),
    };
    assert_eq!(
        encode_client_message(&publish, &limits),
        Ok(Bytes::from_static(b"\x01\x04\x00\x00\x00\x03\x01t\x00xyz"))
    );
    assert_eq!(hello.request_id(), 0x01020304);
    assert_eq!(subscribe.request_id(), 2);
    assert_eq!(publish.request_id(), 3);
}

#[test]
fn client_messages_come_back() {
    let limits = Limits::default();
    let messages = vec![
        ClientMessage::Hello { request_id: 9, client_id: client_id("somebody") },
        ClientMessage::Subscribe { request_id: u32::MAX, topic: topic("blocks") },
        ClientMessage::Publish {
            request_id: 1,
            topic: topic("blocks"),
            payload: Bytes::from_static(b"block-100"),
        },
        ClientMessage::Publish { request_id: 1, topic: topic("b"), payload: Bytes::new() },
    ];
    for message in messages {
        let encoded = encode_client_message(&message, &limits).unwrap();
        assert_eq!(decode_client(&encoded), Ok(message));
    }
}

#[test]
fn client_frames_are_written_as_they_were_read() {
    let limits = Limits::default();
    for bytes in [
        &b"\x01\x01\x00\x00\x00\x07\x01a"[..],
        b"\x01\x02\x00\x00\x01\x00\x02ab",
        b"\x01\x04\x00\x00\x00\x07\x01aPAYLOAD",
    ] {
        let message = decode_client(bytes).unwrap();
        assert_eq!(&encode_client_message(&message, &limits).unwrap()[..], bytes);
    }
}

#[test]
fn broken_client_frames_are_refused() {
    assert_eq!(decode_client(b""), Err(ProtocolError::FrameTooShort));
    assert_eq!(decode_client(b"\x01\x01\x00\x00\x00"), Err(ProtocolError::FrameTooShort));
    assert_eq!(
        decode_client(b"\x02\x01\x00\x00\x00\x01\x01a"),
        Err(ProtocolError::UnknownVersion(2))
    );
    assert_eq!(decode_client(b"\x01\x01\x00\x00\x00\x00\x01a"), Err(ProtocolError::ZeroRequestId));
    assert_eq!(
        decode_client(b"\x01\x03\x00\x00\x00\x01\x01a"),
        Err(ProtocolError::UnknownKind(3))
    );
    // The version is looked at before the request ID, and the request ID before the kind.
    assert_eq!(
        decode_client(b"\x00\x03\x00\x00\x00\x00"),
        Err(ProtocolError::UnknownVersion(0))
    );
    assert_eq!(decode_client(b"\x01\x03\x00\x00\x00\x00"), Err(ProtocolError::ZeroRequestId));
    assert_eq!(decode_client(b"\x01\x02\x00\x00\x00\x01"), Err(ProtocolError::TruncatedField));
    assert_eq!(
        decode_client(b"\x01\x02\x00\x00\x00\x01\x03ab"),
        Err(ProtocolError::TruncatedField)
    );
    let mut long = b"\x01\x02\x00\x00\x00\x01\x41".to_vec();
    long.resize(7 + 65, b'a');
    assert_eq!(decode_client(&long), Err(ProtocolError::TruncatedField));
    assert_eq!(decode_client(b"\x01\x01\x00\x00\x00\x01\x00"), Err(ProtocolError::InvalidClientId));
    assert_eq!(decode_client(b"\x01\x02\x00\x00\x00\x01\x01 "), Err(ProtocolError::InvalidTopic));
    assert_eq!(decode_client(b"\x01\x04\x00\x00\x00\x01\x00x"), Err(ProtocolError::InvalidTopic));
    assert_eq!(
        decode_client(b"\x01\x02\x00\x00\x00\x01\x01ab"),
        Err(ProtocolError::TrailingBytes)
    );
    let mut large = b"\x01\x04\x00\x00\x00\x01\x01a".to_vec();
    large.resize(8 + 12289, 0);
    assert_eq!(decode_client(&large), Err(ProtocolError::PayloadTooLarge));
}

#[test]
fn client_messages_that_break_a_rule_are_not_written() {
    let limits = Limits::default();
    let unnumbered = ClientMessage::Hello { request_id: 0, client_id: client_id("me") };
    assert_eq!(encode_client_message(&unnumbered, &limits), Err(ProtocolError::ZeroRequestId));
    let large = ClientMessage::Publish {
        request_id: 0,
        topic: topic("t"),
        payload: Bytes::from(vec![0; 12289]),
    };
    assert_eq!(encode_client_message(&large, &limits), Err(ProtocolError::PayloadTooLarge));
    let narrow = Limits { max_frame_len: 7, ..Limits::default() };
    let subscribe = ClientMessage::Subscribe { request_id: 1, topic: topic("t") };
    assert_eq!(
        encode_client_message(&subscribe, &narrow),
        Err(ProtocolError::EncodedFrameTooLarge)
    );
}

#[test]
fn server_messages_have_these_bytes() {
    let limits = Limits::default();
    let ready = ServerMessage::Ready { request_id: 1, connection_id: 0x0102030405060708 };
    assert_eq!(
        encode_server_message(&ready, &limits),
        Ok(Bytes::from_static(b"\x01\x81\x00\x00\x00\x01\x01\x02\x03\x04\x05\x06\x07\x08"))
    );
    let ack = ServerMessage::Ack {
        request_id: 2,
        acknowledged_kind: SUBSCRIBE,
        event_id: 258,
        matched: 3,
        enqueued: 0x0102,
        evicted: u16::MAX,
    };
    assert_eq!(
        encode_server_message(&ack, &limits),
        Ok(Bytes::from_static(
            b"\x01\x82\x00\x00\x00\x02\x02\x00\x00\x00\x00\x00\x00\x01\x02\x00\x03\x01\x02\xff\xff"
        ))
    );
    let event = ServerMessage::Event {
        event_id: 5,
        topic: topic("tt"),
        payload: Bytes::from_static(b"hi"),
    };
    assert_eq!(
        encode_server_message(&event, &limits),
        Ok(Bytes::from_static(
            b"\x01\x83\x00\x00\x00\x00\x00\x00\x00\x00\x00\x00\x00\x05\x02tthi"
        ))
    );
    let error = ServerMessage::Error {
        request_id: 4,
        code: ErrorCode::EventIdExhausted,
        detail: "no",
    };
    assert_eq!(
        encode_server_message(&error, &limits),
        Ok(Bytes::from_static(b"\x01\x85\x00\x00\x00\x04\x00\x03\x00\x02no"))
    );
    assert_eq!(server_frame_len(&ready), Some(14));
    assert_eq!(server_frame_len(&ack), Some(21));
    assert_eq!(server_frame_len(&event), Some(19));
    assert_eq!(server_frame_len(&error), Some(12));
}

#[test]
fn server_messages_come_back() {
    let limits = Limits::default();
    let ready = ServerMessage::Ready { request_id: 1, connection_id: 77 };
    let ack = ServerMessage::Ack {
        request_id: 2,
        acknowledged_kind: PUBLISH,
        event_id: u64::MAX,
        matched: 3,
        enqueued: 2,
        evicted: 1,
    };
    let event = ServerMessage::Event {
        event_id: 9,
        topic: topic("blocks"),
        payload: Bytes::from_static(b"block-100"),
    };
    let error = ServerMessage::Error {
        request_id: 3,
        code: ErrorCode::AlreadyActive,
        detail: "caf\u{e9}",
    };
    let expected = vec![
        ReceivedMessage::Ready { request_id: 1, connection_id: 77 },
        ReceivedMessage::Ack {
            request_id: 2,
            acknowledged_kind: PUBLISH,
            event_id: u64::MAX,
            matched: 3,
            enqueued: 2,
            evicted: 1,
        },
        ReceivedMessage::Event {
            event_id: 9,
            topic: topic("blocks"),
            payload: Bytes::from_static(b"block-100"),
        },
        ReceivedMessage::Error { request_id: 3, code: 2, detail: "caf\u{e9}".to_owned() },
    ];
    for (message, received) in vec![ready, ack, event, error].into_iter().zip(expected) {
        let encoded = encode_server_message(&message, &limits).unwrap();
        assert_eq!(server_frame_len(&message), Some(encoded.len()));
        assert_eq!(decode_server(&encoded), Ok(received));
        assert_eq!(message.clone(), message);
    }
}

#[test]
fn broken_server_frames_are_refused() {
    assert_eq!(decode_server(b"\x01\x81\x00\x00\x00"), Err(ProtocolError::FrameTooShort));
    assert_eq!(
        decode_server(b"\x07\x81\x00\x00\x00\x01"),
        Err(ProtocolError::UnknownVersion(7))
    );
    assert_eq!(decode_server(b"\x01\x84\x00\x00\x00\x01"), Err(ProtocolError::UnknownKind(0x84)));
    assert_eq!(
        decode_server(b"\x01\x81\x00\x00\x00\x00\x00\x00\x00\x00\x00\x00\x00\x01"),
        Err(ProtocolError::UnexpectedRequestId)
    );
    assert_eq!(
        decode_server(b"\x01\x83\x00\x00\x00\x01\x00\x00\x00\x00\x00\x00\x00\x01\x01t"),
        Err(ProtocolError::UnexpectedRequestId)
    );
    assert_eq!(
        decode_server(b"\x01\x81\x00\x00\x00\x01\x00\x00\x00\x00\x00\x00\x00"),
        Err(ProtocolError::TruncatedField)
    );
    assert_eq!(
        decode_server(b"\x01\x81\x00\x00\x00\x01\x00\x00\x00\x00\x00\x00\x00\x01\x00"),
        Err(ProtocolError::TrailingBytes)
    );
    assert_eq!(
        decode_server(
            b"\x01\x82\x00\x00\x00\x01\x04\x00\x00\x00\x00\x00\x00\x00\x01\x00\x01\x00\x01\x00"
        ),
        Err(ProtocolError::TruncatedField)
    );
    assert_eq!(
        decode_server(b"\x01\x83\x00\x00\x00\x00\x00\x00\x00\x00\x00\x00\x00"),
        Err(ProtocolError::TruncatedField)
    );
    assert_eq!(
        decode_server(b"\x01\x83\x00\x00\x00\x00\x00\x00\x00\x00\x00\x00\x00\x01\x01 "),
        Err(ProtocolError::InvalidTopic)
    );
    let mut large = b"\x01\x83\x00\x00\x00\x00\x00\x00\x00\x00\x00\x00\x00\x01\x01t".to_vec();
    large.resize(16 + 12289, 0);
    assert_eq!(decode_server(&large), Err(ProtocolError::PayloadTooLarge));
    assert_eq!(
        decode_server(b"\x01\x85\x00\x00\x00\x01\x00\x01\x00\x03no"),
        Err(ProtocolError::TruncatedField)
    );
    assert_eq!(
        decode_server(b"\x01\x85\x00\x00\x00\x01\x00\x01\x00\x01\xff"),
        Err(ProtocolError::InvalidUtf8)
    );
    assert_eq!(
        decode_server(b"\x01\x85\x00\x00\x00\x01\x00\x01\x00\x01no"),
        Err(ProtocolError::TrailingBytes)
    );
}

#[test]
fn server_messages_that_break_a_rule_are_not_written() {
    let limits = Limits::default();
    let large = ServerMessage::Event {
        event_id: 1,
        topic: topic("t"),
        payload: Bytes::from(vec![0; 12289]),
    };
    assert_eq!(encode_server_message(&large, &limits), Err(ProtocolError::PayloadTooLarge));
    // The narrowest valid limits leave room for a ready message and none for an acknowledgement.
    let narrow =
        Limits { max_frame_len: 16, max_payload_len: 0, max_name_len: 1, ..Limits::default() };
    assert_eq!(narrow.validate(), Ok(()));
    let ready = ServerMessage::Ready { request_id: 1, connection_id: 1 };
    assert!(encode_server_message(&ready, &narrow).is_ok());
    let ack = ServerMessage::Ack {
        request_id: 1,
        acknowledged_kind: SUBSCRIBE,
        event_id: 0,
        matched: 0,
        enqueued: 0,
        evicted: 0,
    };
    assert_eq!(encode_server_message(&ack, &narrow), Err(ProtocolError::EncodedFrameTooLarge));
}

#[test]
fn request_ids_are_required_or_forbidden() {
    assert_eq!(require_request_id(1, true), Ok(()));
    assert_eq!(require_request_id(0, false), Ok(()));
    assert_eq!(require_request_id(0, true), Err(ProtocolError::UnexpectedRequestId));
    assert_eq!(require_request_id(1, false), Err(ProtocolError::UnexpectedRequestId));
}

#[test]
fn error_codes_are_numbered() {
    assert_eq!(ErrorCode::ExpectedHello.as_u16(), 1);
    assert_eq!(ErrorCode::AlreadyActive.as_u16(), 2);
    assert_eq!(ErrorCode::EventIdExhausted.as_u16(), 3);
}

#[test]
fn errors_say_what_is_wrong() {
    let texts = vec![
        (ProtocolError::InvalidLimits("why"), "invalid limits: why"),
        (ProtocolError::FrameTooShort, "frame is shorter than the common header"),
        (ProtocolError::UnknownVersion(207), "unsupported protocol version 207"),
        (ProtocolError::UnknownKind(0x0c), "unknown message kind 0x0c"),
        (ProtocolError::UnknownKind(0xfe), "unknown message kind 0xfe"),
        (ProtocolError::ZeroRequestId, "client request ID must be nonzero"),
        (ProtocolError::TruncatedField, "frame ends inside a declared field"),
        (ProtocolError::TrailingBytes, "frame contains unexpected trailing bytes"),
        (
            ProtocolError::InvalidClientId,
            "client ID is empty, too long, or contains invalid bytes",
        ),
        (ProtocolError::InvalidTopic, "topic is empty, too long, or contains invalid bytes"),
        (ProtocolError::PayloadTooLarge, "publish payload exceeds the configured limit"),
        (
            ProtocolError::EncodedFrameTooLarge,
            "server message exceeds the configured frame limit",
        ),
        (
            ProtocolError::UnexpectedRequestId,
            "message contains an unexpected request ID",
        ),
        (ProtocolError::InvalidUtf8, "message contains invalid UTF-8"),
    ];
    for (error, text) in texts {
        assert_eq!(error.describe(), text);
    }
}

#[test]
fn numbers_are_written_like_the_standard_library_writes_them() {
    for value in [0, 7, 9, 10, 99, 100, 65535, 4294967295, u64::MAX] {
        assert_eq!(write_decimal(value), format!("{value}"));
    }
    for value in 0..=u8::MAX {
        assert_eq!(write_hexadecimal(value), format!("{value:#04x}"));
    }
}
