//! What each message looks like on the wire, byte by byte, and what the mathematical values hold.

use crate::message::{self, ClientMessage, ErrorCode, ReceivedMessage, ServerMessage};
use crate::wire;
use vstd::prelude::*;
use vstd::utf8::*;

verus! {

/// The two bytes of a number, high byte first.
pub open spec fn two_bytes(value: nat) -> Seq<u8> {
    seq![(value / 0x100 % 0x100) as u8, (value % 0x100) as u8]
}

/// The four bytes of a number, high byte first.
pub open spec fn four_bytes(value: nat) -> Seq<u8> {
    two_bytes(value / 0x1_0000) + two_bytes(value)
}

/// The eight bytes of a number, high byte first.
pub open spec fn eight_bytes(value: nat) -> Seq<u8> {
    four_bytes(value / 0x1_0000_0000) + four_bytes(value)
}

/// Numbers go onto the wire with the high byte first.
pub proof fn numbers_are_big_endian(value: nat)
    ensures
        wire::be_bytes(value, 1) == seq![(value % 0x100) as u8],
        wire::be_bytes(value, 2) == two_bytes(value),
        wire::be_bytes(value, 4) == four_bytes(value),
        wire::be_bytes(value, 8) == eight_bytes(value),
{
    reveal_with_fuel(wire::be_bytes, 9);
    assert(wire::be_bytes(value, 1) =~= seq![(value % 0x100) as u8]);
    assert(wire::be_bytes(value, 2) =~= two_bytes(value));
    assert(value / 256 / 256 == value / 0x1_0000);
    assert(value / 0x1_0000 / 256 == value / 256 / 256 / 256);
    assert(wire::be_bytes(value, 4) =~= four_bytes(value));
    let high = value / 0x1_0000_0000;
    assert(high == value / 256 / 256 / 256 / 256);
    assert(wire::be_bytes(value, 8) =~= wire::be_bytes(high, 4) + wire::be_bytes(value, 4));
    assert(high / 256 / 256 == high / 0x1_0000);
    assert(wire::be_bytes(high, 4) =~= four_bytes(high));
}

/// Bytes off the wire are read as numbers with the high byte first.
pub proof fn numbers_are_read_big_endian(a: u8, b: u8, c: u8, d: u8)
    ensures
        wire::be_uint(seq![a]) == a,
        wire::be_uint(seq![a, b]) == a * 0x100 + b,
        wire::be_uint(seq![a, b, c, d]) == a * 0x100_0000 + b * 0x1_0000 + c * 0x100 + d,
{
    reveal_with_fuel(wire::be_uint, 5);
    assert(seq![a].drop_last() =~= Seq::empty());
    assert(seq![a, b].drop_last() =~= seq![a]);
    assert(seq![a, b, c].drop_last() =~= seq![a, b]);
    assert(seq![a, b, c, d].drop_last() =~= seq![a, b, c]);
}

/// Every message from a client is the version, the kind, the request number, the length of a name,
/// the name and, for a publication, the payload, with nothing left out and nothing added.
pub proof fn client_frames_are_laid_out(frame: message::ClientFrame)
    ensures
        match frame {
            message::ClientFrame::Hello { request_id, client_id } => frame.bytes() == seq![1u8, 1u8]
                + four_bytes(request_id as nat) + seq![(client_id.len() % 0x100) as u8] + Seq::new(
                client_id.len(),
                |i: int| client_id[i] as u8,
            ),
            message::ClientFrame::Subscribe { request_id, topic } => frame.bytes() == seq![1u8, 2u8]
                + four_bytes(request_id as nat) + seq![(topic.len() % 0x100) as u8] + Seq::new(
                topic.len(),
                |i: int| topic[i] as u8,
            ),
            message::ClientFrame::Publish { request_id, topic, payload } => frame.bytes() == seq![
                1u8,
                4u8,
            ] + four_bytes(request_id as nat) + seq![(topic.len() % 0x100) as u8] + Seq::new(
                topic.len(),
                |i: int| topic[i] as u8,
            ) + payload,
        },
        match frame {
            message::ClientFrame::Hello { request_id, .. } => frame.request_id() == request_id,
            message::ClientFrame::Subscribe { request_id, .. } => frame.request_id() == request_id,
            message::ClientFrame::Publish { request_id, .. } => frame.request_id() == request_id,
        },
{
    numbers_are_big_endian(frame.request_id() as nat);
    match frame {
        message::ClientFrame::Hello { request_id, client_id } => {
            numbers_are_big_endian(client_id.len());
            assert(frame.bytes() =~= seq![1u8, 1u8] + four_bytes(request_id as nat) + seq![
                (client_id.len() % 0x100) as u8,
            ] + Seq::new(client_id.len(), |i: int| client_id[i] as u8));
        },
        message::ClientFrame::Subscribe { request_id, topic } => {
            numbers_are_big_endian(topic.len());
            assert(frame.bytes() =~= seq![1u8, 2u8] + four_bytes(request_id as nat) + seq![
                (topic.len() % 0x100) as u8,
            ] + Seq::new(topic.len(), |i: int| topic[i] as u8));
        },
        message::ClientFrame::Publish { request_id, topic, payload } => {
            numbers_are_big_endian(topic.len());
            assert(frame.bytes() =~= seq![1u8, 4u8] + four_bytes(request_id as nat) + seq![
                (topic.len() % 0x100) as u8,
            ] + Seq::new(topic.len(), |i: int| topic[i] as u8) + payload);
        },
    }
}

/// Every message from the server is the version, the kind, the request number that it answers, or
/// zero for an event, and its fields in this order, with nothing left out and nothing added.
pub proof fn server_frames_are_laid_out(frame: message::ServerFrame)
    ensures
        match frame {
            message::ServerFrame::Ready { request_id, connection_id } => frame.bytes() == seq![
                1u8,
                0x81u8,
            ] + four_bytes(request_id as nat) + eight_bytes(connection_id as nat),
            message::ServerFrame::Ack {
                request_id,
                acknowledged_kind,
                event_id,
                matched,
                enqueued,
                evicted,
            } => frame.bytes() == seq![1u8, 0x82u8] + four_bytes(request_id as nat) + seq![
                acknowledged_kind,
            ] + eight_bytes(event_id as nat) + two_bytes(matched as nat) + two_bytes(
                enqueued as nat,
            ) + two_bytes(evicted as nat),
            message::ServerFrame::Event { event_id, topic, payload } => frame.bytes() == seq![
                1u8,
                0x83u8,
                0u8,
                0u8,
                0u8,
                0u8,
            ] + eight_bytes(event_id as nat) + seq![(topic.len() % 0x100) as u8] + Seq::new(
                topic.len(),
                |i: int| topic[i] as u8,
            ) + payload,
            message::ServerFrame::Error { request_id, code, detail } => frame.bytes() == seq![
                1u8,
                0x85u8,
            ] + four_bytes(request_id as nat) + two_bytes(code as nat) + two_bytes(
                encode_utf8(detail).len(),
            ) + encode_utf8(detail),
        },
{
    match frame {
        message::ServerFrame::Ready { request_id, connection_id } => {
            numbers_are_big_endian(request_id as nat);
            numbers_are_big_endian(connection_id as nat);
        },
        message::ServerFrame::Ack { request_id, event_id, matched, enqueued, evicted, .. } => {
            numbers_are_big_endian(request_id as nat);
            numbers_are_big_endian(event_id as nat);
            numbers_are_big_endian(matched as nat);
            numbers_are_big_endian(enqueued as nat);
            numbers_are_big_endian(evicted as nat);
        },
        message::ServerFrame::Event { event_id, topic, payload } => {
            numbers_are_big_endian(0);
            numbers_are_big_endian(event_id as nat);
            numbers_are_big_endian(topic.len());
            assert(frame.bytes() =~= seq![1u8, 0x83u8, 0u8, 0u8, 0u8, 0u8] + eight_bytes(
                event_id as nat,
            ) + seq![(topic.len() % 0x100) as u8] + Seq::new(
                topic.len(),
                |i: int| topic[i] as u8,
            ) + payload);
        },
        message::ServerFrame::Error { request_id, code, detail } => {
            numbers_are_big_endian(request_id as nat);
            numbers_are_big_endian(code as nat);
            numbers_are_big_endian(encode_utf8(detail).len());
        },
    }
}

/// The codes of errors are 1, 2 and 3.
pub proof fn error_codes_are_numbered(code: ErrorCode)
    ensures
        code is ExpectedHello ==> code.number() == 1,
        code is AlreadyActive ==> code.number() == 2,
        code is EventIdExhausted ==> code.number() == 3,
{
}

/// The mathematical value of a message from a client holds every field of the message as it is.
pub proof fn client_messages_are_seen_whole(message: ClientMessage)
    ensures
        match message {
            ClientMessage::Hello { request_id, client_id } => message@ == (
            message::ClientFrame::Hello { request_id, client_id: client_id@ }),
            ClientMessage::Subscribe { request_id, topic } => message@ == (
            message::ClientFrame::Subscribe { request_id, topic: topic@ }),
            ClientMessage::Publish { request_id, topic, payload } => message@ == (
            message::ClientFrame::Publish {
                request_id,
                topic: topic@,
                payload: wire::bytes_of(payload),
            }),
        },
{
}

/// The mathematical value of a message from the server holds every field of the message as it is.
pub proof fn server_messages_are_seen_whole(message: ServerMessage)
    ensures
        match message {
            ServerMessage::Ready { request_id, connection_id } => message@ == (
            message::ServerFrame::Ready { request_id, connection_id }),
            ServerMessage::Ack {
                request_id,
                acknowledged_kind,
                event_id,
                matched,
                enqueued,
                evicted,
            } => message@ == (message::ServerFrame::Ack {
                request_id,
                acknowledged_kind,
                event_id,
                matched,
                enqueued,
                evicted,
            }),
            ServerMessage::Event { event_id, topic, payload } => message@ == (
            message::ServerFrame::Event {
                event_id,
                topic: topic@,
                payload: wire::bytes_of(payload),
            }),
            ServerMessage::Error { request_id, code, detail } => message@ == (
            message::ServerFrame::Error {
                request_id,
                code: match code {
                    ErrorCode::ExpectedHello => 1,
                    ErrorCode::AlreadyActive => 2,
                    ErrorCode::EventIdExhausted => 3,
                },
                detail: detail@,
            }),
        },
{
}

/// The mathematical value of a received message holds every field of the message as it is.
pub proof fn received_messages_are_seen_whole(message: ReceivedMessage)
    ensures
        match message {
            ReceivedMessage::Ready { request_id, connection_id } => message@ == (
            message::ServerFrame::Ready { request_id, connection_id }),
            ReceivedMessage::Ack {
                request_id,
                acknowledged_kind,
                event_id,
                matched,
                enqueued,
                evicted,
            } => message@ == (message::ServerFrame::Ack {
                request_id,
                acknowledged_kind,
                event_id,
                matched,
                enqueued,
                evicted,
            }),
            ReceivedMessage::Event { event_id, topic, payload } => message@ == (
            message::ServerFrame::Event {
                event_id,
                topic: topic@,
                payload: wire::bytes_of(payload),
            }),
            ReceivedMessage::Error { request_id, code, detail } => message@ == (
            message::ServerFrame::Error { request_id, code, detail: detail@ }),
        },
{
}

} // verus!
