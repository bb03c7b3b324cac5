//! The messages that clients and the server exchange, and what each looks like as bytes.

use crate::names;
use crate::protocol::{ClientId, Topic, VERSION};
use crate::wire;
use bytes::Bytes;
use vstd::prelude::*;
use vstd::utf8::*;

verus! {

pub const HELLO: u8 = 0x01;

pub const SUBSCRIBE: u8 = 0x02;

pub const PUBLISH: u8 = 0x04;

pub const READY: u8 = 0x81;

pub const ACK: u8 = 0x82;

pub const EVENT: u8 = 0x83;

pub const ERROR: u8 = 0x85;

/// A message from a client, as a mathematical value.
pub enum ClientFrame {
    Hello { request_id: u32, client_id: Seq<char> },
    Subscribe { request_id: u32, topic: Seq<char> },
    Publish { request_id: u32, topic: Seq<char>, payload: Seq<u8> },
}

/// A message from the server, as a mathematical value.
pub enum ServerFrame {
    Ready { request_id: u32, connection_id: u64 },
    Ack {
        request_id: u32,
        acknowledged_kind: u8,
        event_id: u64,
        matched: u16,
        enqueued: u16,
        evicted: u16,
    },
    Event { event_id: u64, topic: Seq<char>, payload: Seq<u8> },
    Error { request_id: u32, code: u16, detail: Seq<char> },
}

/// The common header of a frame.
pub open spec fn header(kind: u8, request_id: u32) -> Seq<u8> {
    seq![VERSION, kind] + wire::be_bytes(request_id as nat, 4)
}

/// A field that starts with its length in one byte.
pub open spec fn named_field(name: Seq<char>) -> Seq<u8> {
    wire::be_bytes(name.len(), 1) + names::octets(name)
}

impl ClientFrame {
    /// The request ID that the server answers with.
    pub open spec fn request_id(self) -> u32 {
        match self {
            ClientFrame::Hello { request_id, .. } => request_id,
            ClientFrame::Subscribe { request_id, .. } => request_id,
            ClientFrame::Publish { request_id, .. } => request_id,
        }
    }

    /// The bytes of the message.
    pub open spec fn bytes(self) -> Seq<u8> {
        match self {
            ClientFrame::Hello { request_id, client_id } => header(HELLO, request_id)
                + named_field(client_id),
            ClientFrame::Subscribe { request_id, topic } => header(SUBSCRIBE, request_id)
                + named_field(topic),
            ClientFrame::Publish { request_id, topic, payload } => header(PUBLISH, request_id)
                + named_field(topic) + payload,
        }
    }
}

impl ServerFrame {
    /// The bytes of the message.
    pub open spec fn bytes(self) -> Seq<u8> {
        match self {
            ServerFrame::Ready { request_id, connection_id } => header(READY, request_id)
                + wire::be_bytes(connection_id as nat, 8),
            ServerFrame::Ack {
                request_id,
                acknowledged_kind,
                event_id,
                matched,
                enqueued,
                evicted,
            } => header(ACK, request_id) + seq![acknowledged_kind] + wire::be_bytes(
                event_id as nat,
                8,
            ) + wire::be_bytes(matched as nat, 2) + wire::be_bytes(enqueued as nat, 2)
                + wire::be_bytes(evicted as nat, 2),
            ServerFrame::Event { event_id, topic, payload } => header(EVENT, 0) + wire::be_bytes(
                event_id as nat,
                8,
            ) + named_field(topic) + payload,
            ServerFrame::Error { request_id, code, detail } => header(ERROR, request_id)
                + wire::be_bytes(code as nat, 2) + wire::be_bytes(encode_utf8(detail).len(), 2)
                + encode_utf8(detail),
        }
    }
}

/// A message from a client.
#[derive(Debug, PartialEq)]
pub enum ClientMessage {
    Hello { request_id: u32, client_id: ClientId },
    Subscribe { request_id: u32, topic: Topic },
    Publish { request_id: u32, topic: Topic, payload: Bytes },
}

impl View for ClientMessage {
    type V = ClientFrame;

    open spec fn view(&self) -> ClientFrame {
        match *self {
            ClientMessage::Hello { request_id, client_id } => ClientFrame::Hello {
                request_id,
                client_id: client_id@,
            },
            ClientMessage::Subscribe { request_id, topic } => ClientFrame::Subscribe {
                request_id,
                topic: topic@,
            },
            ClientMessage::Publish { request_id, topic, payload } => ClientFrame::Publish {
                request_id,
                topic: topic@,
                payload: wire::bytes_of(payload),
            },
        }
    }
}

impl ClientMessage {
    /// The request ID that the server answers with.
    pub fn request_id(&self) -> (request_id: u32)
        ensures
            request_id == self@.request_id(),
    {
        match self {
            ClientMessage::Hello { request_id, .. } => *request_id,
            ClientMessage::Subscribe { request_id, .. } => *request_id,
            ClientMessage::Publish { request_id, .. } => *request_id,
        }
    }
}

/// Why the server refused a request.
#[derive(Clone, Copy, Debug, PartialEq, Eq)]
pub enum ErrorCode {
    ExpectedHello,
    AlreadyActive,
    EventIdExhausted,
}

impl ErrorCode {
    /// The code's number on the wire.
    pub open spec fn number(self) -> u16 {
        match self {
            ErrorCode::ExpectedHello => 1,
            ErrorCode::AlreadyActive => 2,
            ErrorCode::EventIdExhausted => 3,
        }
    }

    /// The code's number on the wire.
    pub fn as_u16(self) -> (number: u16)
        ensures
            number == self.number(),
    {
        match self {
            ErrorCode::ExpectedHello => 1,
            ErrorCode::AlreadyActive => 2,
            ErrorCode::EventIdExhausted => 3,
        }
    }
}

/// A message that the server sends.
#[derive(Debug, PartialEq)]
pub enum ServerMessage {
    Ready { request_id: u32, connection_id: u64 },
    Ack {
        request_id: u32,
        acknowledged_kind: u8,
        event_id: u64,
        matched: u16,
        enqueued: u16,
        evicted: u16,
    },
    Event { event_id: u64, topic: Topic, payload: Bytes },
    Error { request_id: u32, code: ErrorCode, detail: &'static str },
}

impl View for ServerMessage {
    type V = ServerFrame;

    open spec fn view(&self) -> ServerFrame {
        match *self {
            ServerMessage::Ready { request_id, connection_id } => ServerFrame::Ready {
                request_id,
                connection_id,
            },
            ServerMessage::Ack {
                request_id,
                acknowledged_kind,
                event_id,
                matched,
                enqueued,
                evicted,
            } => ServerFrame::Ack {
                request_id,
                acknowledged_kind,
                event_id,
                matched,
                enqueued,
                evicted,
            },
            ServerMessage::Event { event_id, topic, payload } => ServerFrame::Event {
                event_id,
                topic: topic@,
                payload: wire::bytes_of(payload),
            },
            ServerMessage::Error { request_id, code, detail } => ServerFrame::Error {
                request_id,
                code: code.number(),
                detail: detail@,
            },
        }
    }
}

impl Clone for ServerMessage {
    fn clone(&self) -> (copy: Self)
        ensures
            copy@ == self@,
    {
        match self {
            ServerMessage::Ready { request_id, connection_id } => ServerMessage::Ready {
                request_id: *request_id,
                connection_id: *connection_id,
            },
            ServerMessage::Ack {
                request_id,
                acknowledged_kind,
                event_id,
                matched,
                enqueued,
                evicted,
            } => ServerMessage::Ack {
                request_id: *request_id,
                acknowledged_kind: *acknowledged_kind,
                event_id: *event_id,
                matched: *matched,
                enqueued: *enqueued,
                evicted: *evicted,
            },
            ServerMessage::Event { event_id, topic, payload } => ServerMessage::Event {
                event_id: *event_id,
                topic: topic.clone(),
                payload: payload.clone(),
            },
            ServerMessage::Error { request_id, code, detail } => ServerMessage::Error {
                request_id: *request_id,
                code: *code,
                detail: *detail,
            },
        }
    }
}

/// A message from the server as a client receives it. An error keeps whatever code and detail
/// it came with.
#[derive(Debug, PartialEq)]
pub enum ReceivedMessage {
    Ready { request_id: u32, connection_id: u64 },
    Ack {
        request_id: u32,
        acknowledged_kind: u8,
        event_id: u64,
        matched: u16,
        enqueued: u16,
        evicted: u16,
    },
    Event { event_id: u64, topic: Topic, payload: Bytes },
    Error { request_id: u32, code: u16, detail: String },
}

impl View for ReceivedMessage {
    type V = ServerFrame;

    open spec fn view(&self) -> ServerFrame {
        match *self {
            ReceivedMessage::Ready { request_id, connection_id } => ServerFrame::Ready {
                request_id,
                connection_id,
            },
            ReceivedMessage::Ack {
                request_id,
                acknowledged_kind,
                event_id,
                matched,
                enqueued,
                evicted,
            } => ServerFrame::Ack {
                request_id,
                acknowledged_kind,
                event_id,
                matched,
                enqueued,
                evicted,
            },
            ReceivedMessage::Event { event_id, topic, payload } => ServerFrame::Event {
                event_id,
                topic: topic@,
                payload: wire::bytes_of(payload),
            },
            ReceivedMessage::Error { request_id, code, detail } => ServerFrame::Error {
                request_id,
                code,
                detail: detail@,
            },
        }
    }
}

} // verus!
