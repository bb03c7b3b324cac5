//! What holds of encoding and decoding together.

use crate::codec;
use crate::message;
use crate::names;
use crate::protocol::{Limits, HEADER_LEN, VERSION};
use crate::wire;
use vstd::prelude::*;
use vstd::utf8::*;

verus! {

/// The names in a message are ones that the limits allow and that one length byte can measure.
pub open spec fn client_names_fit(frame: message::ClientFrame, limits: Limits) -> bool {
    match frame {
        message::ClientFrame::Hello { client_id, .. } => {
            &&& is_ascii_chars(client_id)
            &&& names::is_client_id(names::octets(client_id), limits.max_name_len as nat)
            &&& client_id.len() <= u8::MAX
        },
        message::ClientFrame::Subscribe { topic, .. } => topic_fits(topic, limits),
        message::ClientFrame::Publish { topic, .. } => topic_fits(topic, limits),
    }
}

/// The topic is one that the limits allow and that one length byte can measure.
pub open spec fn topic_fits(topic: Seq<char>, limits: Limits) -> bool {
    &&& is_ascii_chars(topic)
    &&& names::is_topic(names::octets(topic), limits.max_name_len as nat)
    &&& topic.len() <= u8::MAX
}

/// The message is one that a server has cause to send: an answer names the request that it
/// answers, a topic is one that the limits allow, and the length of a detail fits in its field.
pub open spec fn server_fields_fit(frame: message::ServerFrame, limits: Limits) -> bool {
    match frame {
        message::ServerFrame::Ready { request_id, .. } => request_id != 0,
        message::ServerFrame::Ack { request_id, .. } => request_id != 0,
        message::ServerFrame::Event { topic, .. } => topic_fits(topic, limits),
        message::ServerFrame::Error { request_id, detail, .. } => request_id != 0 && encode_utf8(
            detail,
        ).len() <= u16::MAX,
    }
}

proof fn header_reads_back(kind: u8, request_id: u32, body: Seq<u8>)
    ensures
        (message::header(kind, request_id) + body).len() == HEADER_LEN + body.len(),
        (message::header(kind, request_id) + body)[0] == VERSION,
        (message::header(kind, request_id) + body)[1] == kind,
        codec::header_request_id(message::header(kind, request_id) + body) == request_id,
        (message::header(kind, request_id) + body).skip(HEADER_LEN as int) == body,
{
    let frame = message::header(kind, request_id) + body;
    wire::be_bytes_len(request_id as nat, 4);
    wire::byte_range_of_integers();
    wire::be_uint_of_be_bytes(request_id as nat, 4);
    assert(frame.subrange(2, 6) =~= wire::be_bytes(request_id as nat, 4));
    assert(frame.skip(6) =~= body);
}

proof fn named_field_reads_back(name: Seq<char>, rest: Seq<u8>, max_len: nat)
    requires
        is_ascii_chars(name),
        name.len() <= max_len,
        name.len() <= u8::MAX,
    ensures
        codec::starts_with_name(message::named_field(name) + rest, max_len),
        codec::leading_name(message::named_field(name) + rest) == names::octets(name),
        codec::after_name(message::named_field(name) + rest) == rest,
        names::characters(names::octets(name)) == name,
{
    let body = message::named_field(name) + rest;
    names::ascii_text_is_octets(name);
    reveal_with_fuel(wire::be_bytes, 2);
    assert(wire::be_bytes(name.len(), 1) =~= seq![name.len() as u8]);
    assert(body[0] == name.len());
    assert(codec::leading_name(body) =~= names::octets(name));
    assert(codec::after_name(body) =~= rest);
}

/// Decoding the frame of a client message gives the message back.
pub proof fn client_message_round_trip(frame: message::ClientFrame, limits: Limits)
    requires
        codec::write_client_frame(frame, limits) is Ok,
        client_names_fit(frame, limits),
    ensures
        codec::read_client_frame(codec::write_client_frame(frame, limits)->Ok_0, limits) == Ok::<
            message::ClientFrame,
            crate::protocol::ProtocolError,
        >(frame),
{
    match frame {
        message::ClientFrame::Hello { request_id, client_id } => {
            let body = message::named_field(client_id);
            header_reads_back(message::HELLO, request_id, body);
            named_field_reads_back(client_id, Seq::empty(), limits.max_name_len as nat);
            assert(body + Seq::<u8>::empty() =~= body);
        },
        message::ClientFrame::Subscribe { request_id, topic } => {
            let body = message::named_field(topic);
            header_reads_back(message::SUBSCRIBE, request_id, body);
            named_field_reads_back(topic, Seq::empty(), limits.max_name_len as nat);
            assert(body + Seq::<u8>::empty() =~= body);
        },
        message::ClientFrame::Publish { request_id, topic, payload } => {
            let body = message::named_field(topic) + payload;
            header_reads_back(message::PUBLISH, request_id, body);
            named_field_reads_back(topic, payload, limits.max_name_len as nat);
            assert(frame.bytes() =~= message::header(message::PUBLISH, request_id) + body);
        },
    }
}

proof fn header_is_canonical(frame: Seq<u8>)
    requires
        frame.len() >= HEADER_LEN,
        frame[0] == VERSION,
    ensures
        frame == message::header(frame[1], codec::header_request_id(frame)) + frame.skip(
            HEADER_LEN as int,
        ),
{
    let id = frame.subrange(2, 6);
    wire::be_bytes_of_be_uint(id);
    wire::be_uint_in_range(id);
    wire::byte_range_of_integers();
    assert(wire::be_bytes(codec::header_request_id(frame) as nat, 4) == id);
    assert(frame =~= message::header(frame[1], codec::header_request_id(frame)) + frame.skip(6));
}

proof fn named_field_is_canonical(body: Seq<u8>, max_len: nat)
    requires
        codec::starts_with_name(body, max_len),
        forall|i: int|
            0 <= i < codec::leading_name(body).len() ==> #[trigger] codec::leading_name(body)[i]
                < 0x80,
    ensures
        body == message::named_field(names::characters(codec::leading_name(body)))
            + codec::after_name(body),
{
    let name = codec::leading_name(body);
    names::ascii_bytes_are_utf8(name);
    reveal_with_fuel(wire::be_bytes, 2);
    assert(wire::be_bytes(name.len(), 1) =~= seq![body[0]]);
    assert(body =~= message::named_field(names::characters(name)) + codec::after_name(body));
}

/// A frame that a client message is read from is the frame that the message is written to: no
/// two frames mean the same message.
pub proof fn client_frame_is_canonical(frame: Seq<u8>, limits: Limits)
    requires
        codec::read_client_frame(frame, limits) is Ok,
    ensures
        codec::read_client_frame(frame, limits)->Ok_0.bytes() == frame,
{
    let body = frame.skip(6);
    header_is_canonical(frame);
    named_field_is_canonical(body, limits.max_name_len as nat);
    assert(codec::read_client_frame(frame, limits)->Ok_0.bytes() =~= frame);
}

/// Decoding the frame of a server message gives the message back.
pub proof fn server_message_round_trip(frame: message::ServerFrame, limits: Limits)
    requires
        codec::write_server_frame(frame, limits) is Ok,
        server_fields_fit(frame, limits),
    ensures
        codec::read_server_frame(codec::write_server_frame(frame, limits)->Ok_0, limits) == Ok::<
            message::ServerFrame,
            crate::protocol::ProtocolError,
        >(frame),
{
    wire::byte_range_of_integers();
    match frame {
        message::ServerFrame::Ready { request_id, connection_id } => {
            let body = wire::be_bytes(connection_id as nat, 8);
            header_reads_back(message::READY, request_id, body);
            wire::be_bytes_len(connection_id as nat, 8);
            wire::be_uint_of_be_bytes(connection_id as nat, 8);
        },
        message::ServerFrame::Ack {
            request_id,
            acknowledged_kind,
            event_id,
            matched,
            enqueued,
            evicted,
        } => {
            let body = seq![acknowledged_kind] + wire::be_bytes(event_id as nat, 8)
                + wire::be_bytes(matched as nat, 2) + wire::be_bytes(enqueued as nat, 2)
                + wire::be_bytes(evicted as nat, 2);
            header_reads_back(message::ACK, request_id, body);
            wire::be_bytes_len(event_id as nat, 8);
            wire::be_bytes_len(matched as nat, 2);
            wire::be_bytes_len(enqueued as nat, 2);
            wire::be_bytes_len(evicted as nat, 2);
            wire::be_uint_of_be_bytes(event_id as nat, 8);
            wire::be_uint_of_be_bytes(matched as nat, 2);
            wire::be_uint_of_be_bytes(enqueued as nat, 2);
            wire::be_uint_of_be_bytes(evicted as nat, 2);
            assert(frame.bytes() =~= message::header(message::ACK, request_id) + body);
            assert(body.subrange(1, 9) =~= wire::be_bytes(event_id as nat, 8));
            assert(body.subrange(9, 11) =~= wire::be_bytes(matched as nat, 2));
            assert(body.subrange(11, 13) =~= wire::be_bytes(enqueued as nat, 2));
            assert(body.subrange(13, 15) =~= wire::be_bytes(evicted as nat, 2));
        },
        message::ServerFrame::Event { event_id, topic, payload } => {
            let named = message::named_field(topic) + payload;
            let body = wire::be_bytes(event_id as nat, 8) + named;
            header_reads_back(message::EVENT, 0, body);
            named_field_reads_back(topic, payload, limits.max_name_len as nat);
            wire::be_bytes_len(event_id as nat, 8);
            wire::be_uint_of_be_bytes(event_id as nat, 8);
            assert(frame.bytes() =~= message::header(message::EVENT, 0) + body);
            assert(body.take(8) =~= wire::be_bytes(event_id as nat, 8));
            assert(body.skip(8) =~= named);
        },
        message::ServerFrame::Error { request_id, code, detail } => {
            let text = encode_utf8(detail);
            let body = wire::be_bytes(code as nat, 2) + wire::be_bytes(text.len(), 2) + text;
            header_reads_back(message::ERROR, request_id, body);
            wire::be_bytes_len(code as nat, 2);
            wire::be_bytes_len(text.len(), 2);
            wire::be_uint_of_be_bytes(code as nat, 2);
            wire::be_uint_of_be_bytes(text.len(), 2);
            encode_utf8_valid_utf8(detail);
            encode_utf8_decode_utf8(detail);
            assert(frame.bytes() =~= message::header(message::ERROR, request_id) + body);
            assert(body.take(2) =~= wire::be_bytes(code as nat, 2));
            assert(body.subrange(2, 4) =~= wire::be_bytes(text.len(), 2));
            assert(body.subrange(4, (4 + text.len()) as int) =~= text);
        },
    }
}

proof fn field_is_canonical(bytes: Seq<u8>, from: int, to: int)
    requires
        0 <= from <= to <= bytes.len(),
    ensures
        wire::be_bytes(wire::be_uint(bytes.subrange(from, to)), (to - from) as nat)
            == bytes.subrange(from, to),
        wire::be_uint(bytes.subrange(from, to)) < wire::byte_range((to - from) as nat),
{
    wire::be_bytes_of_be_uint(bytes.subrange(from, to));
    wire::be_uint_in_range(bytes.subrange(from, to));
}

/// A frame that a server message is read from is the frame that the message is written to: no
/// two frames mean the same message.
pub proof fn server_frame_is_canonical(frame: Seq<u8>, limits: Limits)
    requires
        codec::read_server_frame(frame, limits) is Ok,
    ensures
        codec::read_server_frame(frame, limits)->Ok_0.bytes() == frame,
{
    let body = frame.skip(6);
    let meaning = codec::read_server_frame(frame, limits)->Ok_0;
    header_is_canonical(frame);
    wire::byte_range_of_integers();
    match meaning {
        message::ServerFrame::Ready { .. } => {
            field_is_canonical(body, 0, 8);
            assert(body.subrange(0, 8) =~= body);
        },
        message::ServerFrame::Ack { .. } => {
            field_is_canonical(body, 1, 9);
            field_is_canonical(body, 9, 11);
            field_is_canonical(body, 11, 13);
            field_is_canonical(body, 13, 15);
            assert(meaning.bytes() =~= frame);
        },
        message::ServerFrame::Event { .. } => {
            field_is_canonical(body, 0, 8);
            assert(body.subrange(0, 8) =~= body.take(8));
            named_field_is_canonical(body.skip(8), limits.max_name_len as nat);
            assert(meaning.bytes() =~= frame);
        },
        message::ServerFrame::Error { .. } => {
            field_is_canonical(body, 0, 2);
            assert(body.subrange(0, 2) =~= body.take(2));
            field_is_canonical(body, 2, 4);
            let detail_len: int = wire::be_uint(body.subrange(2, 4)) as int;
            decode_utf8_encode_utf8(body.subrange(4, 4 + detail_len));
            assert(meaning.bytes() =~= frame);
        },
    }
}

/// Under valid limits every event whose topic and payload are within them can be sent.
pub proof fn events_within_limits_fit(
    event_id: u64,
    topic: Seq<char>,
    payload: Seq<u8>,
    limits: Limits,
)
    requires
        limits.defect() is None,
        is_ascii_chars(topic),
        names::is_topic(names::octets(topic), limits.max_name_len as nat),
        payload.len() <= limits.max_payload_len,
    ensures
        ({
            let frame = message::ServerFrame::Event { event_id, topic, payload };
            &&& codec::write_server_frame(frame, limits) is Ok
            &&& codec::read_server_frame(frame.bytes(), limits) == Ok::<
                message::ServerFrame,
                crate::protocol::ProtocolError,
            >(frame)
        }),
{
    let frame = message::ServerFrame::Event { event_id, topic, payload };
    wire::be_bytes_len(0, 4);
    wire::be_bytes_len(event_id as nat, 8);
    wire::be_bytes_len(topic.len(), 1);
    assert(topic.len() == names::octets(topic).len());
    server_message_round_trip(frame, limits);
}

/// Under valid limits every client message with a request ID, with names and payload within the
/// limits, can be sent, and arrives as it was.
pub proof fn requests_within_limits_fit(frame: message::ClientFrame, limits: Limits)
    requires
        limits.defect() is None,
        frame.request_id() != 0,
        client_names_fit(frame, limits),
        !codec::client_payload_too_large(frame, limits),
    ensures
        codec::write_client_frame(frame, limits) is Ok,
        codec::read_client_frame(frame.bytes(), limits) == Ok::<
            message::ClientFrame,
            crate::protocol::ProtocolError,
        >(frame),
{
    wire::be_bytes_len(frame.request_id() as nat, 4);
    match frame {
        message::ClientFrame::Hello { client_id, .. } => {
            wire::be_bytes_len(client_id.len(), 1);
            assert(client_id.len() == names::octets(client_id).len());
        },
        message::ClientFrame::Subscribe { topic, .. } => {
            wire::be_bytes_len(topic.len(), 1);
            assert(topic.len() == names::octets(topic).len());
        },
        message::ClientFrame::Publish { topic, .. } => {
            wire::be_bytes_len(topic.len(), 1);
            assert(topic.len() == names::octets(topic).len());
        },
    }
    client_message_round_trip(frame, limits);
}

/// Under valid limits a connection can always be told that it is ready. It can be sent an
/// acknowledgement if and only if a frame may hold one.
pub proof fn answers_fit(ready: message::ServerFrame, ack: message::ServerFrame, limits: Limits)
    requires
        limits.defect() is None,
        ready is Ready,
        ack is Ack,
    ensures
        codec::write_server_frame(ready, limits) == Ok::<
            Seq<u8>,
            crate::protocol::ProtocolError,
        >(ready.bytes()),
        codec::write_server_frame(ack, limits) is Ok <==> HEADER_LEN + 15 <= limits.max_frame_len,
{
    if let message::ServerFrame::Ready { request_id, connection_id } = ready {
        wire::be_bytes_len(request_id as nat, 4);
        wire::be_bytes_len(connection_id as nat, 8);
    }
    if let message::ServerFrame::Ack { request_id, event_id, matched, enqueued, evicted, .. } =
        ack {
        wire::be_bytes_len(request_id as nat, 4);
        wire::be_bytes_len(event_id as nat, 8);
        wire::be_bytes_len(matched as nat, 2);
        wire::be_bytes_len(enqueued as nat, 2);
        wire::be_bytes_len(evicted as nat, 2);
    }
}

} // verus!
