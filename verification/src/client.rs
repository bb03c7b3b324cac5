//! The client: what it asks of the server, and what it makes of the answers.

use crate::codec::{self, decode_server_message, encode_client_message};
use crate::codec_laws;
use crate::message::{self, ClientMessage, ReceivedMessage, PUBLISH, SUBSCRIBE};
use crate::names;
use crate::protocol::{ClientId, Limits, ProtocolError, Topic, HEADER_LEN};
use crate::text::{self, write_decimal};
use crate::wire;
use bytes::{Bytes, BytesMut};
use vstd::prelude::*;
use vstd::string::*;
use vstd::utf8::*;

verus! {

/// How many seconds the server has to answer.
pub const RESPONSE_TIMEOUT_SECS: u64 = 5;

/// The request ID of the introduction.
pub const HELLO_REQUEST_ID: u32 = 1;

/// The request ID of the command after it.
pub const COMMAND_REQUEST_ID: u32 = 2;

/// What the server did with a published event.
#[derive(Debug, PartialEq)]
pub struct PublishReceipt {
    pub event_id: u64,
    pub matched: u16,
    pub enqueued: u16,
    pub evicted: u16,
}

/// An event that a subscriber received.
#[derive(Debug, PartialEq)]
pub struct Event {
    pub event_id: u64,
    pub topic: String,
    pub payload: Bytes,
}

/// Why an exchange with the server failed.
#[derive(Debug, PartialEq)]
pub enum ClientError {
    /// The caller asked for something that cannot be sent.
    InvalidInput(ProtocolError),
    /// The server sent a frame that is not a message.
    InvalidData(ProtocolError),
    /// The server did not answer in time.
    TimedOut,
    /// The server closed the connection.
    ServerClosed,
    /// The server answered with an error.
    Rejected { request_id: u32, code: u16, detail: String },
    /// The server sent another message than the expected one.
    Unexpected { expected: &'static str, received: ReceivedMessage },
}

/// Why an exchange with the server failed, as a mathematical value.
pub enum Failure {
    InvalidInput(ProtocolError),
    InvalidData(ProtocolError),
    TimedOut,
    ServerClosed,
    Rejected { request_id: u32, code: u16, detail: Seq<char> },
    Unexpected { expected: Seq<char>, received: message::ServerFrame },
}

impl View for ClientError {
    type V = Failure;

    open spec fn view(&self) -> Failure {
        match *self {
            ClientError::InvalidInput(error) => Failure::InvalidInput(error),
            ClientError::InvalidData(error) => Failure::InvalidData(error),
            ClientError::TimedOut => Failure::TimedOut,
            ClientError::ServerClosed => Failure::ServerClosed,
            ClientError::Rejected { request_id, code, detail } => Failure::Rejected {
                request_id,
                code,
                detail: detail@,
            },
            ClientError::Unexpected { expected, received } => Failure::Unexpected {
                expected: expected@,
                received: received@,
            },
        }
    }
}

/// What came of waiting for an answer.
pub enum Arrival {
    /// The time was over.
    TimedOut,
    /// The connection ended.
    Closed,
    /// A frame arrived.
    Frame(BytesMut),
}

/// The answer that an arrival is.
pub open spec fn answer(arrival: Arrival, limits: Limits) -> Result<message::ServerFrame, Failure> {
    match arrival {
        Arrival::TimedOut => Err(Failure::TimedOut),
        Arrival::Closed => Err(Failure::ServerClosed),
        Arrival::Frame(frame) => match codec::read_server_frame(wire::bytes_mut_of(frame), limits) {
            Err(error) => Err(Failure::InvalidData(error)),
            Ok(message::ServerFrame::Error { request_id, code, detail }) => Err(
                Failure::Rejected { request_id, code, detail },
            ),
            Ok(received) => Ok(received),
        },
    }
}

/// An error on account of what the caller asked for.
pub fn invalid_input(error: ProtocolError) -> (failure: ClientError)
    ensures
        failure@ == Failure::InvalidInput(error),
{
    ClientError::InvalidInput(error)
}

/// An error on account of what the server sent.
pub fn invalid_data(error: ProtocolError) -> (failure: ClientError)
    ensures
        failure@ == Failure::InvalidData(error),
{
    ClientError::InvalidData(error)
}

/// An error on account of a message that was not the expected one.
pub fn unexpected(expected: &'static str, received: ReceivedMessage) -> (failure: ClientError)
    ensures
        failure@ == (Failure::Unexpected { expected: expected@, received: received@ }),
{
    ClientError::Unexpected { expected, received }
}

/// Reads a topic that the caller gave as text.
pub fn parse_topic(topic: &str, limits: &Limits) -> (result: Result<Topic, ClientError>)
    ensures
        if names::is_topic(encode_utf8(topic@), limits.max_name_len as nat) {
            &&& result matches Ok(parsed)
            &&& parsed@ == topic@
            &&& is_ascii_chars(topic@)
            &&& names::octets(topic@) == encode_utf8(topic@)
        } else {
            result matches Err(error) && error@ == Failure::InvalidInput(
                ProtocolError::InvalidTopic,
            )
        },
{
    let bytes = topic.as_bytes();
    match Topic::parse(bytes, limits) {
        Ok(parsed) => {
            proof {
                names::ascii_bytes_are_utf8(bytes@);
                encode_utf8_decode_utf8(topic@);
            }
            Ok(parsed)
        },
        Err(error) => Err(invalid_input(error)),
    }
}

/// The frame of a request, or why it cannot be sent.
pub open spec fn request_frame(request: message::ClientFrame, limits: Limits) -> Result<
    Seq<u8>,
    Failure,
> {
    match codec::write_client_frame(request, limits) {
        Ok(frame) => Ok(frame),
        Err(error) => Err(Failure::InvalidInput(error)),
    }
}

/// Writes the frame of a request.
pub fn send(request: &ClientMessage, limits: &Limits) -> (result: Result<Bytes, ClientError>)
    requires
        codec::client_payload_too_large(request@, *limits) || request@.bytes().len() <= isize::MAX,
    ensures
        match request_frame(request@, *limits) {
            Ok(bytes) => result matches Ok(frame) && wire::bytes_of(frame) == bytes,
            Err(failure) => result matches Err(error) && error@ == failure,
        },
{
    match encode_client_message(request, limits) {
        Ok(frame) => Ok(frame),
        Err(error) => Err(invalid_input(error)),
    }
}

/// Takes an arrival for the answer to a request.
pub fn receive(arrival: Arrival, limits: &Limits) -> (result: Result<ReceivedMessage, ClientError>)
    ensures
        match answer(arrival, *limits) {
            Ok(received) => result matches Ok(message) && message@ == received,
            Err(failure) => result matches Err(error) && error@ == failure,
        },
{
    let frame = match arrival {
        Arrival::TimedOut => return Err(ClientError::TimedOut),
        Arrival::Closed => return Err(ClientError::ServerClosed),
        Arrival::Frame(frame) => frame,
    };
    match decode_server_message(frame, limits) {
        Err(error) => Err(invalid_data(error)),
        Ok(ReceivedMessage::Error { request_id, code, detail }) => Err(
            ClientError::Rejected { request_id, code, detail },
        ),
        Ok(message) => Ok(message),
    }
}

/// The frame that a client introduces itself with, or why it cannot.
pub open spec fn introduction(client_id: Seq<char>, limits: Limits) -> Result<Seq<u8>, Failure> {
    if names::is_client_id(encode_utf8(client_id), limits.max_name_len as nat) {
        request_frame(
            message::ClientFrame::Hello { request_id: HELLO_REQUEST_ID, client_id },
            limits,
        )
    } else {
        Err(Failure::InvalidInput(ProtocolError::InvalidClientId))
    }
}

/// Writes the frame that a client introduces itself with.
pub fn introduce(client_id: &str, limits: &Limits) -> (result: Result<Bytes, ClientError>)
    requires
        names::is_client_id(encode_utf8(client_id@), limits.max_name_len as nat) ==> HEADER_LEN + 1
            + client_id@.len() <= isize::MAX,
    ensures
        match introduction(client_id@, *limits) {
            Ok(bytes) => result matches Ok(frame) && wire::bytes_of(frame) == bytes,
            Err(failure) => result matches Err(error) && error@ == failure,
        },
{
    let bytes = client_id.as_bytes();
    match ClientId::parse(bytes, limits) {
        Ok(parsed) => {
            proof {
                names::ascii_bytes_are_utf8(bytes@);
                encode_utf8_decode_utf8(client_id@);
                wire::be_bytes_len(HELLO_REQUEST_ID as nat, 4);
                wire::be_bytes_len(client_id@.len(), 1);
            }
            send(
                &ClientMessage::Hello { request_id: HELLO_REQUEST_ID, client_id: parsed },
                limits,
            )
        },
        Err(error) => Err(invalid_input(error)),
    }
}

/// What a client wants of the server.
enum Request {
    Publish { topic: String, payload: Bytes },
    Subscribe { topic: String },
}

/// What a client wants of the server, as a mathematical value.
pub enum Demand {
    Publish { topic: Seq<char>, payload: Seq<u8> },
    Subscribe { topic: Seq<char> },
}

impl Demand {
    /// The name that the client goes by.
    pub open spec fn client_id(self) -> Seq<char> {
        match self {
            Demand::Publish { .. } => "boundwire-publisher"@,
            Demand::Subscribe { .. } => "boundwire-subscriber"@,
        }
    }

    /// The topic that it is about.
    pub open spec fn topic(self) -> Seq<char> {
        match self {
            Demand::Publish { topic, .. } => topic,
            Demand::Subscribe { topic } => topic,
        }
    }

    /// Topic and payload are within the limits.
    pub open spec fn keeps_to(self, limits: Limits) -> bool {
        &&& names::is_topic(encode_utf8(self.topic()), limits.max_name_len as nat)
        &&& !codec::client_payload_too_large(self.command(), limits)
    }

    /// The message that asks for it.
    pub open spec fn command(self) -> message::ClientFrame {
        match self {
            Demand::Publish { topic, payload } => message::ClientFrame::Publish {
                request_id: COMMAND_REQUEST_ID,
                topic,
                payload,
            },
            Demand::Subscribe { topic } => message::ClientFrame::Subscribe {
                request_id: COMMAND_REQUEST_ID,
                topic,
            },
        }
    }

    /// The frame that asks for it, or why it cannot be asked for.
    pub open spec fn frame(self, limits: Limits) -> Result<Seq<u8>, Failure> {
        if names::is_topic(encode_utf8(self.topic()), limits.max_name_len as nat) {
            request_frame(self.command(), limits)
        } else {
            Err(Failure::InvalidInput(ProtocolError::InvalidTopic))
        }
    }

    /// The frame that follows what arrives after the introduction, or why none does.
    pub open spec fn after_introduction(self, arrival: Arrival, limits: Limits) -> Result<
        Seq<u8>,
        Failure,
    > {
        match answer(arrival, limits) {
            Err(failure) => Err(failure),
            Ok(received) => if answers_introduction(received) {
                self.frame(limits)
            } else {
                Err(Failure::Unexpected { expected: "ready response"@, received })
            },
        }
    }

    /// The exchange once the command has been sent.
    pub open spec fn pending(self) -> Pending {
        match self {
            Demand::Publish { .. } => Pending::Publish,
            Demand::Subscribe { .. } => Pending::Subscribe,
        }
    }
}

/// The message tells a client that its introduction was taken.
pub open spec fn answers_introduction(received: message::ServerFrame) -> bool {
    received matches message::ServerFrame::Ready { request_id, .. } && request_id
        == HELLO_REQUEST_ID
}

/// An exchange with the server that has yet to begin: first the introduction, then, once the
/// server is ready, the command.
pub struct Exchange {
    request: Request,
}

impl View for Exchange {
    type V = Demand;

    closed spec fn view(&self) -> Demand {
        match self.request {
            Request::Publish { topic, payload } => Demand::Publish {
                topic: topic@,
                payload: wire::bytes_of(payload),
            },
            Request::Subscribe { topic } => Demand::Subscribe { topic: topic@ },
        }
    }
}

/// An exchange that publishes an event.
pub fn publish(topic: &str, payload: Bytes) -> (exchange: Exchange)
    ensures
        exchange@ == (Demand::Publish { topic: topic@, payload: wire::bytes_of(payload) }),
{
    Exchange { request: Request::Publish { topic: topic.to_owned(), payload } }
}

/// An exchange that subscribes to a topic.
pub fn subscribe(topic: &str) -> (exchange: Exchange)
    ensures
        exchange@ == (Demand::Subscribe { topic: topic@ }),
{
    Exchange { request: Request::Subscribe { topic: topic.to_owned() } }
}

impl Exchange {
    /// The frame that the exchange begins with. There always is one.
    pub fn hello(&self) -> (result: Result<Bytes, ClientError>)
        ensures
            result matches Ok(frame) && introduction(self@.client_id(), Limits::standard())
                == Ok::<Seq<u8>, Failure>(wire::bytes_of(frame)),
    {
        let limits = Limits::default();
        proof {
            reveal_strlit("boundwire-publisher");
            reveal_strlit("boundwire-subscriber");
            introductions_are_understood(self@, limits);
        }
        match &self.request {
            Request::Publish { .. } => introduce("boundwire-publisher", &limits),
            Request::Subscribe { .. } => introduce("boundwire-subscriber", &limits),
        }
    }

    /// The frame that follows what arrived after the introduction, and the exchange as it then
    /// stands.
    pub fn ready(self, arrival: Arrival) -> (result: Result<(Bytes, Pending), ClientError>)
        ensures
            match self@.after_introduction(arrival, Limits::standard()) {
                Ok(bytes) => {
                    &&& result matches Ok(asked)
                    &&& wire::bytes_of(asked.0) == bytes
                    &&& asked.1 == self@.pending()
                },
                Err(failure) => result matches Err(error) && error@ == failure,
            },
    {
        let limits = Limits::default();
        match receive(arrival, &limits)? {
            ReceivedMessage::Ready { request_id, .. } if request_id == HELLO_REQUEST_ID => {},
            message => return Err(unexpected("ready response", message)),
        }
        let ghost demand = self@;
        proof {
            wire::be_bytes_len(COMMAND_REQUEST_ID as nat, 4);
            wire::be_bytes_len(demand.topic().len(), 1);
        }
        let (command, pending) = match self.request {
            Request::Publish { topic, payload } => {
                let topic = parse_topic(topic.as_str(), &limits)?;
                (
                    ClientMessage::Publish { request_id: COMMAND_REQUEST_ID, topic, payload },
                    Pending::Publish,
                )
            },
            Request::Subscribe { topic } => {
                let topic = parse_topic(topic.as_str(), &limits)?;
                (
                    ClientMessage::Subscribe { request_id: COMMAND_REQUEST_ID, topic },
                    Pending::Subscribe,
                )
            },
        };
        let frame = send(&command, &limits)?;
        Ok((frame, pending))
    }
}

/// An exchange whose command has been sent.
#[derive(Clone, Copy, Debug, PartialEq, Eq)]
pub enum Pending {
    Publish,
    Subscribe,
}

/// What an exchange comes to.
pub enum Outcome {
    Published(PublishReceipt),
    Subscribed(Subscription),
}

impl Pending {
    /// The kind of the command.
    pub open spec fn kind(self) -> u8 {
        match self {
            Pending::Publish => PUBLISH,
            Pending::Subscribe => SUBSCRIBE,
        }
    }

    /// The message tells the client that the command was done.
    pub open spec fn acknowledged_by(self, received: message::ServerFrame) -> bool {
        received matches message::ServerFrame::Ack { request_id, acknowledged_kind, .. }
            && request_id == COMMAND_REQUEST_ID && acknowledged_kind == self.kind()
    }

    /// The acknowledgement that arrived after the command, or why none did.
    pub open spec fn after_command(self, arrival: Arrival, limits: Limits) -> Result<
        message::ServerFrame,
        Failure,
    > {
        match answer(arrival, limits) {
            Err(failure) => Err(failure),
            Ok(received) => if self.acknowledged_by(received) {
                Ok(received)
            } else {
                Err(
                    Failure::Unexpected {
                        expected: match self {
                            Pending::Publish => "publish acknowledgement"@,
                            Pending::Subscribe => "subscription acknowledgement"@,
                        },
                        received,
                    },
                )
            },
        }
    }

    /// What the exchange comes to, by what arrived after the command.
    pub fn conclude(self, arrival: Arrival) -> (result: Result<Outcome, ClientError>)
        ensures
            match self.after_command(arrival, Limits::standard()) {
                Ok(received) => match self {
                    Pending::Publish => {
                        &&& result matches Ok(Outcome::Published(receipt))
                        &&& receipt_of(receipt, received)
                        &&& received matches message::ServerFrame::Ack {
                            event_id,
                            matched,
                            enqueued,
                            evicted,
                            ..
                        }
                        &&& receipt.event_id == event_id
                        &&& receipt.matched == matched
                        &&& receipt.enqueued == enqueued
                        &&& receipt.evicted == evicted
                    },
                    Pending::Subscribe => result matches Ok(Outcome::Subscribed(subscription))
                        && subscription@ == Limits::standard(),
                },
                Err(failure) => result matches Err(error) && error@ == failure,
            },
    {
        let limits = Limits::default();
        let received = receive(arrival, &limits)?;
        match self {
            Pending::Publish => match received {
                ReceivedMessage::Ack {
                    request_id,
                    acknowledged_kind,
                    event_id,
                    matched,
                    enqueued,
                    evicted,
                } if request_id == COMMAND_REQUEST_ID && acknowledged_kind == PUBLISH => Ok(
                    Outcome::Published(PublishReceipt { event_id, matched, enqueued, evicted }),
                ),
                message => Err(unexpected("publish acknowledgement", message)),
            },
            Pending::Subscribe => match received {
                ReceivedMessage::Ack {
                    request_id,
                    acknowledged_kind,
                    ..
                } if request_id == COMMAND_REQUEST_ID && acknowledged_kind == SUBSCRIBE => Ok(
                    Outcome::Subscribed(Subscription { limits }),
                ),
                message => Err(unexpected("subscription acknowledgement", message)),
            },
        }
    }
}

/// The receipt holds what the acknowledgement says.
pub open spec fn receipt_of(receipt: PublishReceipt, received: message::ServerFrame) -> bool {
    received matches message::ServerFrame::Ack { event_id, matched, enqueued, evicted, .. }
        && receipt == (PublishReceipt { event_id, matched, enqueued, evicted })
}

/// A subscription to a topic, within the limits that its events keep to.
pub struct Subscription {
    limits: Limits,
}

impl View for Subscription {
    type V = Limits;

    closed spec fn view(&self) -> Limits {
        self.limits
    }
}

impl View for Event {
    type V = message::ServerFrame;

    open spec fn view(&self) -> message::ServerFrame {
        message::ServerFrame::Event {
            event_id: self.event_id,
            topic: self.topic@,
            payload: wire::bytes_of(self.payload),
        }
    }
}

/// The event that a frame carries, or why it carries none.
pub open spec fn event_in(frame: Seq<u8>, limits: Limits) -> Result<message::ServerFrame, Failure> {
    match codec::read_server_frame(frame, limits) {
        Err(error) => Err(Failure::InvalidData(error)),
        Ok(received) => if received is Event {
            Ok(received)
        } else {
            Err(Failure::Unexpected { expected: "event"@, received })
        },
    }
}

impl Subscription {
    /// The next event, from the next frame, if the connection yielded one.
    pub fn next_event(&self, frame: Option<BytesMut>) -> (result: Result<
        Option<Event>,
        ClientError,
    >)
        ensures
            match frame {
                None => result == Ok::<Option<Event>, ClientError>(None),
                Some(frame) => match event_in(wire::bytes_mut_of(frame), self@) {
                    Ok(received) => result matches Ok(Some(event)) && event@ == received,
                    Err(failure) => result matches Err(error) && error@ == failure,
                },
            },
    {
        let frame = match frame {
            Some(frame) => frame,
            None => return Ok(None),
        };
        match decode_server_message(frame, &self.limits) {
            Err(error) => Err(invalid_data(error)),
            Ok(ReceivedMessage::Event { event_id, topic, payload }) => Ok(
                Some(Event { event_id, topic: topic.into_string(), payload }),
            ),
            Ok(message) => Err(unexpected("event", message)),
        }
    }
}

impl Failure {
    /// What the error says, where `printed` is the unexpected message in print.
    pub open spec fn text(self, printed: Seq<char>) -> Seq<char> {
        match self {
            Failure::InvalidInput(error) => error.text(),
            Failure::InvalidData(error) => error.text(),
            Failure::TimedOut => "server response timed out"@,
            Failure::ServerClosed => "server closed"@,
            Failure::Rejected { request_id, code, detail } => "server rejected request "@
                + text::decimal(request_id as nat) + " with code "@ + text::decimal(code as nat)
                + ": "@ + detail,
            Failure::Unexpected { expected, .. } => "expected "@ + expected + ", received "@
                + printed,
        }
    }
}

impl ClientError {
    /// What the error says, where `printed` is the unexpected message in print.
    pub fn describe(&self, printed: &str) -> (text: String)
        ensures
            text@ == self@.text(printed@),
    {
        match self {
            ClientError::InvalidInput(error) => error.describe(),
            ClientError::InvalidData(error) => error.describe(),
            ClientError::TimedOut => "server response timed out".to_owned(),
            ClientError::ServerClosed => "server closed".to_owned(),
            ClientError::Rejected { request_id, code, detail } => {
                let mut text: String = "server rejected request ".to_owned();
                text.append(write_decimal(*request_id as u64).as_str());
                text.append(" with code ");
                text.append(write_decimal(*code as u64).as_str());
                text.append(": ");
                text.append(detail.as_str());
                text
            },
            ClientError::Unexpected { expected, .. } => {
                let mut text: String = "expected ".to_owned();
                text.append(expected);
                text.append(", received ");
                text.append(printed);
                text
            },
        }
    }
}

/// A client can always introduce itself, and every server whose limits leave room for the name
/// understands the introduction.
pub proof fn introductions_are_understood(demand: Demand, server: Limits)
    requires
        server.defect() is None,
        demand.client_id().len() <= server.max_name_len,
    ensures
        introduction(demand.client_id(), Limits::standard()) is Ok,
        codec::read_client_frame(
            introduction(demand.client_id(), Limits::standard())->Ok_0,
            server,
        ) == Ok::<message::ClientFrame, ProtocolError>(
            message::ClientFrame::Hello {
                request_id: HELLO_REQUEST_ID,
                client_id: demand.client_id(),
            },
        ),
{
    let client_id = demand.client_id();
    let hello = message::ClientFrame::Hello { request_id: HELLO_REQUEST_ID, client_id };
    reveal_strlit("boundwire-publisher");
    reveal_strlit("boundwire-subscriber");
    assert(is_ascii_chars(client_id));
    names::ascii_text_is_octets(client_id);
    codec_laws::requests_within_limits_fit(hello, Limits::standard());
    codec_laws::requests_within_limits_fit(hello, server);
}

/// What is asked of a server that is ready is sent, and understood as it was meant, if topic and
/// payload are within the limits of the client and of the server.
pub proof fn demands_are_understood(
    demand: Demand,
    arrival: Arrival,
    connection_id: u64,
    server: Limits,
)
    requires
        server.defect() is None,
        demand.keeps_to(Limits::standard()),
        demand.keeps_to(server),
        arrival matches Arrival::Frame(frame) && wire::bytes_mut_of(frame)
            == (message::ServerFrame::Ready {
            request_id: HELLO_REQUEST_ID,
            connection_id,
        }).bytes(),
    ensures
        demand.after_introduction(arrival, Limits::standard()) is Ok,
        codec::read_client_frame(
            demand.after_introduction(arrival, Limits::standard())->Ok_0,
            server,
        ) == Ok::<message::ClientFrame, ProtocolError>(demand.command()),
{
    let ready = message::ServerFrame::Ready { request_id: HELLO_REQUEST_ID, connection_id };
    let topic = demand.topic();
    wire::be_bytes_len(HELLO_REQUEST_ID as nat, 4);
    wire::be_bytes_len(connection_id as nat, 8);
    codec_laws::server_message_round_trip(ready, Limits::standard());
    names::ascii_bytes_are_utf8(encode_utf8(topic));
    encode_utf8_decode_utf8(topic);
    codec_laws::requests_within_limits_fit(demand.command(), Limits::standard());
    codec_laws::requests_within_limits_fit(demand.command(), server);
}

/// A publisher is told what the server acknowledged.
pub proof fn receipts_tell_what_was_acknowledged(
    arrival: Arrival,
    event_id: u64,
    matched: u16,
    enqueued: u16,
    evicted: u16,
)
    requires
        arrival matches Arrival::Frame(frame) && wire::bytes_mut_of(frame)
            == (message::ServerFrame::Ack {
            request_id: COMMAND_REQUEST_ID,
            acknowledged_kind: PUBLISH,
            event_id,
            matched,
            enqueued,
            evicted,
        }).bytes(),
    ensures
        Pending::Publish.after_command(arrival, Limits::standard()) matches Ok(received)
            && receipt_of(PublishReceipt { event_id, matched, enqueued, evicted }, received),
{
    let ack = message::ServerFrame::Ack {
        request_id: COMMAND_REQUEST_ID,
        acknowledged_kind: PUBLISH,
        event_id,
        matched,
        enqueued,
        evicted,
    };
    wire::be_bytes_len(COMMAND_REQUEST_ID as nat, 4);
    wire::be_bytes_len(event_id as nat, 8);
    wire::be_bytes_len(matched as nat, 2);
    wire::be_bytes_len(enqueued as nat, 2);
    wire::be_bytes_len(evicted as nat, 2);
    codec_laws::server_message_round_trip(ack, Limits::standard());
}

/// A client that the server refuses is told the request, the code and the detail of the refusal.
pub proof fn refusals_are_told(
    arrival: Arrival,
    request_id: u32,
    code: u16,
    detail: Seq<char>,
    limits: Limits,
)
    requires
        request_id != 0,
        encode_utf8(detail).len() <= u16::MAX,
        arrival matches Arrival::Frame(frame) && wire::bytes_mut_of(frame)
            == (message::ServerFrame::Error { request_id, code, detail }).bytes(),
    ensures
        answer(arrival, limits) == Err::<message::ServerFrame, Failure>(
            Failure::Rejected { request_id, code, detail },
        ),
{
    let error = message::ServerFrame::Error { request_id, code, detail };
    let roomy = Limits { max_frame_len: usize::MAX, ..limits };
    wire::be_bytes_len(request_id as nat, 4);
    wire::be_bytes_len(code as nat, 2);
    wire::be_bytes_len(encode_utf8(detail).len(), 2);
    codec_laws::server_message_round_trip(error, roomy);
}

/// A subscriber reads every event that the server sends within the limits as it was sent.
pub proof fn events_are_read_as_sent(
    event_id: u64,
    topic: Seq<char>,
    payload: Seq<u8>,
    limits: Limits,
)
    requires
        limits.defect() is None,
        is_ascii_chars(topic),
        names::is_topic(names::octets(topic), limits.max_name_len as nat),
        payload.len() <= limits.max_payload_len,
    ensures
        event_in(
            (message::ServerFrame::Event { event_id, topic, payload }).bytes(),
            limits,
        ) == Ok::<message::ServerFrame, Failure>(
            message::ServerFrame::Event { event_id, topic, payload },
        ),
{
    codec_laws::events_within_limits_fit(event_id, topic, payload, limits);
}

} // verus!
