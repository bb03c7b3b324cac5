//! Encoding messages to frames and decoding frames to messages.

use crate::message::{
    ClientMessage, ReceivedMessage, ServerMessage, ACK, ERROR, EVENT, HELLO, PUBLISH, READY,
    SUBSCRIBE,
};
use crate::message;
use crate::names;
use crate::protocol::{ClientId, Limits, ProtocolError, Topic, HEADER_LEN, VERSION};
use crate::wire;
use bytes::{Bytes, BytesMut};
use vstd::prelude::*;
use vstd::slice::*;
use vstd::utf8::*;

verus! {

/// The request ID in the header of a frame.
pub open spec fn header_request_id(frame: Seq<u8>) -> u32 {
    wire::be_uint(frame.subrange(2, 6)) as u32
}

/// `body` starts with a name of at most `max_len` bytes after the name's length.
pub open spec fn starts_with_name(body: Seq<u8>, max_len: nat) -> bool {
    &&& body.len() >= 1
    &&& body[0] <= max_len
    &&& body.len() >= 1 + body[0]
}

/// The name that `body` starts with.
pub open spec fn leading_name(body: Seq<u8>) -> Seq<u8> {
    body.subrange(1, 1 + body[0])
}

/// What follows the name that `body` starts with.
pub open spec fn after_name(body: Seq<u8>) -> Seq<u8> {
    body.skip(1 + body[0])
}

/// What a frame from a client means: the message, or the first rule that the frame breaks.
pub open spec fn read_client_frame(frame: Seq<u8>, limits: Limits) -> Result<
    message::ClientFrame,
    ProtocolError,
> {
    let request_id = header_request_id(frame);
    let body = frame.skip(HEADER_LEN as int);
    let name = leading_name(body);
    let rest = after_name(body);
    let max_name_len = limits.max_name_len as nat;
    if frame.len() < HEADER_LEN {
        Err(ProtocolError::FrameTooShort)
    } else if frame[0] != VERSION {
        Err(ProtocolError::UnknownVersion(frame[0]))
    } else if request_id == 0 {
        Err(ProtocolError::ZeroRequestId)
    } else if frame[1] != HELLO && frame[1] != SUBSCRIBE && frame[1] != PUBLISH {
        Err(ProtocolError::UnknownKind(frame[1]))
    } else if !starts_with_name(body, max_name_len) {
        Err(ProtocolError::TruncatedField)
    } else if frame[1] == HELLO && !names::is_client_id(name, max_name_len) {
        Err(ProtocolError::InvalidClientId)
    } else if frame[1] != HELLO && !names::is_topic(name, max_name_len) {
        Err(ProtocolError::InvalidTopic)
    } else if frame[1] == PUBLISH && rest.len() > limits.max_payload_len {
        Err(ProtocolError::PayloadTooLarge)
    } else if frame[1] != PUBLISH && rest.len() > 0 {
        Err(ProtocolError::TrailingBytes)
    } else if frame[1] == HELLO {
        Ok(message::ClientFrame::Hello { request_id, client_id: names::characters(name) })
    } else if frame[1] == SUBSCRIBE {
        Ok(message::ClientFrame::Subscribe { request_id, topic: names::characters(name) })
    } else {
        Ok(
            message::ClientFrame::Publish {
                request_id,
                topic: names::characters(name),
                payload: rest,
            },
        )
    }
}

/// What a frame from the server means: the message, or the first rule that the frame breaks.
pub open spec fn read_server_frame(frame: Seq<u8>, limits: Limits) -> Result<
    message::ServerFrame,
    ProtocolError,
> {
    let request_id = header_request_id(frame);
    let body = frame.skip(HEADER_LEN as int);
    if frame.len() < HEADER_LEN {
        Err(ProtocolError::FrameTooShort)
    } else if frame[0] != VERSION {
        Err(ProtocolError::UnknownVersion(frame[0]))
    } else if frame[1] != READY && frame[1] != ACK && frame[1] != EVENT && frame[1] != ERROR {
        Err(ProtocolError::UnknownKind(frame[1]))
    } else if (request_id != 0) == (frame[1] == EVENT) {
        Err(ProtocolError::UnexpectedRequestId)
    } else if frame[1] == READY {
        read_ready(request_id, body)
    } else if frame[1] == ACK {
        read_ack(request_id, body)
    } else if frame[1] == EVENT {
        read_event(body, limits)
    } else {
        read_error(request_id, body)
    }
}

/// What follows the header of a ready message.
pub open spec fn read_ready(request_id: u32, body: Seq<u8>) -> Result<
    message::ServerFrame,
    ProtocolError,
> {
    if body.len() < 8 {
        Err(ProtocolError::TruncatedField)
    } else if body.len() > 8 {
        Err(ProtocolError::TrailingBytes)
    } else {
        Ok(
            message::ServerFrame::Ready { request_id, connection_id: wire::be_uint(body) as u64 },
        )
    }
}

/// What follows the header of an acknowledgement.
pub open spec fn read_ack(request_id: u32, body: Seq<u8>) -> Result<
    message::ServerFrame,
    ProtocolError,
> {
    if body.len() < 15 {
        Err(ProtocolError::TruncatedField)
    } else if body.len() > 15 {
        Err(ProtocolError::TrailingBytes)
    } else {
        Ok(
            message::ServerFrame::Ack {
                request_id,
                acknowledged_kind: body[0],
                event_id: wire::be_uint(body.subrange(1, 9)) as u64,
                matched: wire::be_uint(body.subrange(9, 11)) as u16,
                enqueued: wire::be_uint(body.subrange(11, 13)) as u16,
                evicted: wire::be_uint(body.subrange(13, 15)) as u16,
            },
        )
    }
}

/// What follows the header of an event.
pub open spec fn read_event(body: Seq<u8>, limits: Limits) -> Result<
    message::ServerFrame,
    ProtocolError,
> {
    let named = body.skip(8);
    let topic = leading_name(named);
    let payload = after_name(named);
    if body.len() < 8 || !starts_with_name(named, limits.max_name_len as nat) {
        Err(ProtocolError::TruncatedField)
    } else if !names::is_topic(topic, limits.max_name_len as nat) {
        Err(ProtocolError::InvalidTopic)
    } else if payload.len() > limits.max_payload_len {
        Err(ProtocolError::PayloadTooLarge)
    } else {
        Ok(
            message::ServerFrame::Event {
                event_id: wire::be_uint(body.take(8)) as u64,
                topic: names::characters(topic),
                payload,
            },
        )
    }
}

/// What follows the header of an error.
pub open spec fn read_error(request_id: u32, body: Seq<u8>) -> Result<
    message::ServerFrame,
    ProtocolError,
> {
    let detail_len: int = wire::be_uint(body.subrange(2, 4)) as int;
    let detail = body.subrange(4, 4 + detail_len);
    if body.len() < 4 || body.len() < 4 + detail_len {
        Err(ProtocolError::TruncatedField)
    } else if !valid_utf8(detail) {
        Err(ProtocolError::InvalidUtf8)
    } else if body.len() > 4 + detail_len {
        Err(ProtocolError::TrailingBytes)
    } else {
        Ok(
            message::ServerFrame::Error {
                request_id,
                code: wire::be_uint(body.take(2)) as u16,
                detail: decode_utf8(detail),
            },
        )
    }
}

/// Takes a name that starts with its length off the front of `bytes`.
fn take_named_field(bytes: &mut Bytes, limits: &Limits) -> (result: Result<Bytes, ProtocolError>)
    ensures
        match result {
            Ok(name) => {
                &&& starts_with_name(wire::bytes_of(*old(bytes)), limits.max_name_len as nat)
                &&& wire::bytes_of(name) == leading_name(wire::bytes_of(*old(bytes)))
                &&& wire::bytes_of(*final(bytes)) == after_name(wire::bytes_of(*old(bytes)))
            },
            Err(error) => {
                &&& !starts_with_name(wire::bytes_of(*old(bytes)), limits.max_name_len as nat)
                &&& error == ProtocolError::TruncatedField
            },
        },
{
    let ghost body = wire::bytes_of(*bytes);
    if bytes.len() == 0 {
        return Err(ProtocolError::TruncatedField);
    }
    let length: usize = wire::get_u8(bytes) as usize;
    if length > limits.max_name_len || bytes.len() < length {
        return Err(ProtocolError::TruncatedField);
    }
    let name = bytes.split_to(length);
    assert(body.skip(1).take(length as int) =~= leading_name(body));
    assert(body.skip(1).skip(length as int) =~= after_name(body));
    Ok(name)
}

/// Refuses a frame that goes on where it should end.
fn require_empty(bytes: &Bytes) -> (result: Result<(), ProtocolError>)
    ensures
        result == if wire::bytes_of(*bytes).len() > 0 {
            Err::<(), ProtocolError>(ProtocolError::TrailingBytes)
        } else {
            Ok(())
        },
{
    if bytes.len() > 0 {
        Err(ProtocolError::TrailingBytes)
    } else {
        Ok(())
    }
}

/// Refuses a frame that ends before a field of `length` bytes does.
fn require_remaining(bytes: &Bytes, length: usize) -> (result: Result<(), ProtocolError>)
    ensures
        result == if wire::bytes_of(*bytes).len() < length {
            Err::<(), ProtocolError>(ProtocolError::TruncatedField)
        } else {
            Ok(())
        },
{
    if bytes.len() < length {
        Err(ProtocolError::TruncatedField)
    } else {
        Ok(())
    }
}

/// Refuses a request ID where there should be none, and a missing one where there should be one.
pub fn require_request_id(request_id: u32, present: bool) -> (result: Result<(), ProtocolError>)
    ensures
        result == if (request_id != 0) == present {
            Ok(())
        } else {
            Err::<(), ProtocolError>(ProtocolError::UnexpectedRequestId)
        },
{
    if (request_id != 0) == present {
        Ok(())
    } else {
        Err(ProtocolError::UnexpectedRequestId)
    }
}

/// Reads one frame that a client sent.
pub fn decode_client_message(frame: BytesMut, limits: &Limits) -> (result: Result<
    ClientMessage,
    ProtocolError,
>)
    ensures
        match read_client_frame(wire::bytes_mut_of(frame), *limits) {
            Ok(meaning) => result matches Ok(message) && message@ == meaning,
            Err(error) => result == Err::<ClientMessage, ProtocolError>(error),
        },
{
    let ghost input = wire::bytes_mut_of(frame);
    if frame.len() < HEADER_LEN {
        return Err(ProtocolError::FrameTooShort);
    }
    let mut bytes = frame.freeze();
    let version: u8 = wire::get_u8(&mut bytes);
    if version != VERSION {
        return Err(ProtocolError::UnknownVersion(version));
    }
    let kind: u8 = wire::get_u8(&mut bytes);
    assert(input.skip(1)[0] == input[1]);
    let request_id: u32 = wire::get_u32(&mut bytes);
    assert(input.skip(1).skip(1).take(4) =~= input.subrange(2, 6));
    assert(input.skip(1).skip(1).skip(4) =~= input.skip(6));
    if request_id == 0 {
        return Err(ProtocolError::ZeroRequestId);
    }
    if kind != HELLO && kind != SUBSCRIBE && kind != PUBLISH {
        return Err(ProtocolError::UnknownKind(kind));
    }
    let value = take_named_field(&mut bytes, limits)?;
    if kind == HELLO {
        let client_id = ClientId::parse(wire::as_slice(&value), limits)?;
        require_empty(&bytes)?;
        return Ok(ClientMessage::Hello { request_id, client_id });
    }
    let topic = Topic::parse(wire::as_slice(&value), limits)?;
    if kind == SUBSCRIBE {
        require_empty(&bytes)?;
        Ok(ClientMessage::Subscribe { request_id, topic })
    } else {
        if bytes.len() > limits.max_payload_len {
            return Err(ProtocolError::PayloadTooLarge);
        }
        Ok(ClientMessage::Publish { request_id, topic, payload: bytes })
    }
}

/// Reads one frame that the server sent.
pub fn decode_server_message(frame: BytesMut, limits: &Limits) -> (result: Result<
    ReceivedMessage,
    ProtocolError,
>)
    ensures
        match read_server_frame(wire::bytes_mut_of(frame), *limits) {
            Ok(meaning) => result matches Ok(message) && message@ == meaning,
            Err(error) => result == Err::<ReceivedMessage, ProtocolError>(error),
        },
{
    let ghost input = wire::bytes_mut_of(frame);
    if frame.len() < HEADER_LEN {
        return Err(ProtocolError::FrameTooShort);
    }
    let mut bytes = frame.freeze();
    let version: u8 = wire::get_u8(&mut bytes);
    if version != VERSION {
        return Err(ProtocolError::UnknownVersion(version));
    }
    let kind: u8 = wire::get_u8(&mut bytes);
    assert(input.skip(1)[0] == input[1]);
    let request_id: u32 = wire::get_u32(&mut bytes);
    assert(input.skip(1).skip(1).take(4) =~= input.subrange(2, 6));
    assert(input.skip(1).skip(1).skip(4) =~= input.skip(6));
    let ghost body = input.skip(6);

    if kind == READY {
        require_request_id(request_id, true)?;
        require_remaining(&bytes, 8)?;
        let connection_id: u64 = wire::get_u64(&mut bytes);
        require_empty(&bytes)?;
        assert(body.take(8) =~= body);
        Ok(ReceivedMessage::Ready { request_id, connection_id })
    } else if kind == ACK {
        require_request_id(request_id, true)?;
        require_remaining(&bytes, 15)?;
        let acknowledged_kind: u8 = wire::get_u8(&mut bytes);
        let event_id: u64 = wire::get_u64(&mut bytes);
        let matched: u16 = wire::get_u16(&mut bytes);
        let enqueued: u16 = wire::get_u16(&mut bytes);
        let evicted: u16 = wire::get_u16(&mut bytes);
        proof {
            let after_id = body.skip(1).skip(8);
            assert(body.skip(1).take(8) =~= body.subrange(1, 9));
            assert(after_id.take(2) =~= body.subrange(9, 11));
            assert(after_id.skip(2).take(2) =~= body.subrange(11, 13));
            assert(after_id.skip(2).skip(2).take(2) =~= body.subrange(13, 15));
        }
        require_empty(&bytes)?;
        Ok(
            ReceivedMessage::Ack {
                request_id,
                acknowledged_kind,
                event_id,
                matched,
                enqueued,
                evicted,
            },
        )
    } else if kind == EVENT {
        require_request_id(request_id, false)?;
        require_remaining(&bytes, 8)?;
        let event_id: u64 = wire::get_u64(&mut bytes);
        let name = take_named_field(&mut bytes, limits)?;
        let topic = Topic::parse(wire::as_slice(&name), limits)?;
        if bytes.len() > limits.max_payload_len {
            return Err(ProtocolError::PayloadTooLarge);
        }
        Ok(ReceivedMessage::Event { event_id, topic, payload: bytes })
    } else if kind == ERROR {
        require_request_id(request_id, true)?;
        require_remaining(&bytes, 4)?;
        let code: u16 = wire::get_u16(&mut bytes);
        let detail_len: usize = wire::get_u16(&mut bytes) as usize;
        assert(body.skip(2).take(2) =~= body.subrange(2, 4));
        require_remaining(&bytes, detail_len)?;
        let detail_bytes = bytes.split_to(detail_len);
        assert(body.skip(2).skip(2).take(detail_len as int) =~= body.subrange(4, 4 + detail_len));
        let detail: String = match String::from_utf8(slice_to_vec(wire::as_slice(&detail_bytes))) {
            Ok(detail) => detail,
            Err(_) => return Err(ProtocolError::InvalidUtf8),
        };
        require_empty(&bytes)?;
        Ok(ReceivedMessage::Error { request_id, code, detail })
    } else {
        Err(ProtocolError::UnknownKind(kind))
    }
}

/// The frame that a client sends for a message, or the first rule that the message breaks.
pub open spec fn write_client_frame(frame: message::ClientFrame, limits: Limits) -> Result<
    Seq<u8>,
    ProtocolError,
> {
    if client_payload_too_large(frame, limits) {
        Err(ProtocolError::PayloadTooLarge)
    } else if frame.request_id() == 0 {
        Err(ProtocolError::ZeroRequestId)
    } else if frame.bytes().len() > limits.max_frame_len {
        Err(ProtocolError::EncodedFrameTooLarge)
    } else {
        Ok(frame.bytes())
    }
}

/// The message carries a payload, and the payload is over the limit.
pub open spec fn client_payload_too_large(frame: message::ClientFrame, limits: Limits) -> bool {
    frame matches message::ClientFrame::Publish { payload, .. } && payload.len()
        > limits.max_payload_len
}

/// The frame that the server sends for a message, or the first rule that the message breaks.
pub open spec fn write_server_frame(frame: message::ServerFrame, limits: Limits) -> Result<
    Seq<u8>,
    ProtocolError,
> {
    if server_payload_too_large(frame, limits) {
        Err(ProtocolError::PayloadTooLarge)
    } else if frame.bytes().len() > limits.max_frame_len {
        Err(ProtocolError::EncodedFrameTooLarge)
    } else {
        Ok(frame.bytes())
    }
}

/// The message carries a payload, and the payload is over the limit.
pub open spec fn server_payload_too_large(frame: message::ServerFrame, limits: Limits) -> bool {
    frame matches message::ServerFrame::Event { payload, .. } && payload.len()
        > limits.max_payload_len
}

/// Starts a frame with its header.
fn put_header(frame: &mut BytesMut, kind: u8, request_id: u32)
    requires
        wire::bytes_mut_of(*old(frame)).len() == 0,
    ensures
        wire::bytes_mut_of(*final(frame)) == message::header(kind, request_id),
        wire::bytes_mut_of(*final(frame)).len() == HEADER_LEN,
{
    let ghost before = wire::bytes_mut_of(*frame);
    wire::put_u8(frame, VERSION);
    wire::put_u8(frame, kind);
    wire::put_u32(frame, request_id);
    proof {
        wire::be_bytes_len(request_id as nat, 4);
        assert(before.push(VERSION).push(kind) =~= seq![VERSION, kind]);
    }
}

/// Appends a name after its length. The length goes into one byte, which keeps its low bits.
fn put_named_field(frame: &mut BytesMut, value: &[u8])
    requires
        wire::bytes_mut_of(*old(frame)).len() + 1 + value@.len() <= isize::MAX,
    ensures
        wire::bytes_mut_of(*final(frame)) == wire::bytes_mut_of(*old(frame)) + wire::be_bytes(
            value@.len(),
            1,
        ) + value@,
        wire::bytes_mut_of(*final(frame)).len() == wire::bytes_mut_of(*old(frame)).len() + 1
            + value@.len(),
{
    let ghost before = wire::bytes_mut_of(*frame);
    let len: usize = value.len();
    let low: u8 = #[verifier::truncate] (len as u8);
    assert(low == len % 256) by (bit_vector)
        requires
            low == len as u8,
    ;
    wire::put_u8(frame, low);
    frame.extend_from_slice(value);
    proof {
        reveal_with_fuel(wire::be_bytes, 2);
        assert(before.push(low) =~= before + wire::be_bytes(value@.len(), 1));
    }
}

/// Writes the frame of a message from a client.
pub fn encode_client_message(message: &ClientMessage, limits: &Limits) -> (result: Result<
    Bytes,
    ProtocolError,
>)
    requires
        client_payload_too_large(message@, *limits) || message@.bytes().len() <= isize::MAX,
    ensures
        match write_client_frame(message@, *limits) {
            Ok(bytes) => result matches Ok(frame) && wire::bytes_of(frame) == bytes,
            Err(error) => result == Err::<Bytes, ProtocolError>(error),
        },
{
    let mut frame = BytesMut::new();
    proof {
        wire::be_bytes_len(message@.request_id() as nat, 4);
    }
    match message {
        ClientMessage::Hello { request_id, client_id } => {
            let name = client_id.as_bytes();
            proof {
                wire::be_bytes_len(name@.len(), 1);
            }
            put_header(&mut frame, HELLO, *request_id);
            put_named_field(&mut frame, name);
            assert(wire::bytes_mut_of(frame) =~= message@.bytes());
        },
        ClientMessage::Subscribe { request_id, topic } => {
            let name = topic.as_bytes();
            proof {
                wire::be_bytes_len(name@.len(), 1);
            }
            put_header(&mut frame, SUBSCRIBE, *request_id);
            put_named_field(&mut frame, name);
            assert(wire::bytes_mut_of(frame) =~= message@.bytes());
        },
        ClientMessage::Publish { request_id, topic, payload } => {
            if payload.len() > limits.max_payload_len {
                return Err(ProtocolError::PayloadTooLarge);
            }
            let name = topic.as_bytes();
            proof {
                wire::be_bytes_len(name@.len(), 1);
            }
            put_header(&mut frame, PUBLISH, *request_id);
            put_named_field(&mut frame, name);
            frame.extend_from_slice(wire::as_slice(payload));
            assert(wire::bytes_mut_of(frame) =~= message@.bytes());
        },
    }
    if message.request_id() == 0 {
        return Err(ProtocolError::ZeroRequestId);
    }
    if frame.len() > limits.max_frame_len {
        return Err(ProtocolError::EncodedFrameTooLarge);
    }
    Ok(frame.freeze())
}

/// The length of the frame of a message from the server, unless no buffer can hold the frame.
pub fn server_frame_len(message: &ServerMessage) -> (len: Option<usize>)
    ensures
        match len {
            Some(len) => len == message@.bytes().len() && len <= isize::MAX,
            None => message@.bytes().len() > isize::MAX,
        },
{
    let (fixed, name, rest): (usize, usize, usize) = match message {
        ServerMessage::Ready { request_id, connection_id } => {
            proof {
                wire::be_bytes_len(*request_id as nat, 4);
                wire::be_bytes_len(*connection_id as nat, 8);
            }
            (HEADER_LEN + 8, 0, 0)
        },
        ServerMessage::Ack { request_id, event_id, matched, enqueued, evicted, .. } => {
            proof {
                wire::be_bytes_len(*request_id as nat, 4);
                wire::be_bytes_len(*event_id as nat, 8);
                wire::be_bytes_len(*matched as nat, 2);
                wire::be_bytes_len(*enqueued as nat, 2);
                wire::be_bytes_len(*evicted as nat, 2);
            }
            (HEADER_LEN + 15, 0, 0)
        },
        ServerMessage::Event { event_id, topic, payload } => {
            let name = topic.as_bytes();
            proof {
                wire::be_bytes_len(0, 4);
                wire::be_bytes_len(*event_id as nat, 8);
                wire::be_bytes_len(name@.len(), 1);
            }
            (HEADER_LEN + 8 + 1, name.len(), payload.len())
        },
        ServerMessage::Error { request_id, code, detail } => {
            let text: &[u8] = detail.as_bytes();
            proof {
                wire::be_bytes_len(*request_id as nat, 4);
                wire::be_bytes_len(code.number() as nat, 2);
                wire::be_bytes_len(text@.len(), 2);
            }
            (HEADER_LEN + 4, 0, text.len())
        },
    };
    match fixed.checked_add(name) {
        Some(named) => match named.checked_add(rest) {
            Some(len) => {
                if len <= isize::MAX as usize {
                    Some(len)
                } else {
                    None
                }
            },
            None => None,
        },
        None => None,
    }
}

/// Writes the frame of a message from the server.
pub fn encode_server_message(message: &ServerMessage, limits: &Limits) -> (result: Result<
    Bytes,
    ProtocolError,
>)
    requires
        server_payload_too_large(message@, *limits) || message@.bytes().len() <= isize::MAX,
    ensures
        match write_server_frame(message@, *limits) {
            Ok(bytes) => result matches Ok(frame) && wire::bytes_of(frame) == bytes,
            Err(error) => result == Err::<Bytes, ProtocolError>(error),
        },
{
    let mut frame = BytesMut::new();
    match message {
        ServerMessage::Ready { request_id, connection_id } => {
            put_header(&mut frame, READY, *request_id);
            wire::put_u64(&mut frame, *connection_id);
            assert(wire::bytes_mut_of(frame) =~= message@.bytes());
        },
        ServerMessage::Ack {
            request_id,
            acknowledged_kind,
            event_id,
            matched,
            enqueued,
            evicted,
        } => {
            proof {
                wire::be_bytes_len(*event_id as nat, 8);
                wire::be_bytes_len(*matched as nat, 2);
                wire::be_bytes_len(*enqueued as nat, 2);
            }
            put_header(&mut frame, ACK, *request_id);
            wire::put_u8(&mut frame, *acknowledged_kind);
            wire::put_u64(&mut frame, *event_id);
            wire::put_u16(&mut frame, *matched);
            wire::put_u16(&mut frame, *enqueued);
            wire::put_u16(&mut frame, *evicted);
            assert(wire::bytes_mut_of(frame) =~= message@.bytes());
        },
        ServerMessage::Event { event_id, topic, payload } => {
            if payload.len() > limits.max_payload_len {
                return Err(ProtocolError::PayloadTooLarge);
            }
            let name = topic.as_bytes();
            proof {
                wire::be_bytes_len(0, 4);
                wire::be_bytes_len(*event_id as nat, 8);
                wire::be_bytes_len(name@.len(), 1);
            }
            put_header(&mut frame, EVENT, 0);
            wire::put_u64(&mut frame, *event_id);
            put_named_field(&mut frame, name);
            frame.extend_from_slice(wire::as_slice(payload));
            assert(wire::bytes_mut_of(frame) =~= message@.bytes());
        },
        ServerMessage::Error { request_id, code, detail } => {
            let text: &[u8] = detail.as_bytes();
            let len: usize = text.len();
            let low: u16 = #[verifier::truncate] (len as u16);
            proof {
                assert(low == len % 65536) by (bit_vector)
                    requires
                        low == len as u16,
                ;
                wire::be_bytes_len(*request_id as nat, 4);
                wire::be_bytes_len(code.number() as nat, 2);
                wire::be_bytes_len(low as nat, 2);
                wire::be_bytes_keeps_low_bytes(len as nat);
            }
            put_header(&mut frame, ERROR, *request_id);
            wire::put_u16(&mut frame, code.as_u16());
            wire::put_u16(&mut frame, low);
            frame.extend_from_slice(text);
            assert(wire::bytes_mut_of(frame) =~= message@.bytes());
        },
    }
    if frame.len() > limits.max_frame_len {
        return Err(ProtocolError::EncodedFrameTooLarge);
    }
    Ok(frame.freeze())
}

} // verus!
