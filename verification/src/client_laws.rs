//! What a client sends, and what it makes of what arrives, told field by field.

use crate::client::{
    self, Arrival, ClientError, Demand, Event, Failure, Pending, PublishReceipt,
};
use crate::codec;
use crate::message::{ClientFrame, ServerFrame};
use crate::names;
use crate::protocol::{Limits, ProtocolError};
use crate::wire;
use vstd::prelude::*;
use vstd::utf8::*;

verus! {

/// Waiting in vain and a closed connection are failures of their own. A frame that is no message
/// fails for the reason that it is none, and an error is handed on with its request number, its
/// code and its detail. Every other message is an answer, as it is.
pub proof fn arrivals_are_answers_or_failures(arrival: Arrival, limits: Limits)
    ensures
        match arrival {
            Arrival::TimedOut => client::answer(arrival, limits) == Err::<ServerFrame, _>(
                Failure::TimedOut,
            ),
            Arrival::Closed => client::answer(arrival, limits) == Err::<ServerFrame, _>(
                Failure::ServerClosed,
            ),
            Arrival::Frame(frame) => match codec::read_server_frame(
                wire::bytes_mut_of(frame),
                limits,
            ) {
                Err(error) => client::answer(arrival, limits) == Err::<ServerFrame, _>(
                    Failure::InvalidData(error),
                ),
                Ok(received) => if received is Error {
                    client::answer(arrival, limits) == Err::<ServerFrame, _>(
                        Failure::Rejected {
                            request_id: received->Error_request_id,
                            code: received->Error_code,
                            detail: received->Error_detail,
                        },
                    )
                } else {
                    client::answer(arrival, limits) == Ok::<_, Failure>(received)
                },
            },
        },
{
}

/// A client introduces itself with the first request number and its name, if the name is a client
/// ID within the limits and the frame fits, and says what is wrong otherwise.
pub proof fn introductions_bear_the_name(client_id: Seq<char>, limits: Limits)
    ensures
        ({
            let hello = ClientFrame::Hello { request_id: 1, client_id };
            let result = client::introduction(client_id, limits);
            if !names::is_client_id(encode_utf8(client_id), limits.max_name_len as nat) {
                result == Err::<Seq<u8>, _>(Failure::InvalidInput(ProtocolError::InvalidClientId))
            } else if hello.bytes().len() > limits.max_frame_len {
                result == Err::<Seq<u8>, _>(
                    Failure::InvalidInput(ProtocolError::EncodedFrameTooLarge),
                )
            } else {
                result == Ok::<_, Failure>(hello.bytes())
            }
        }),
{
}

/// A publisher asks with the second request number for its topic and all of its payload to be
/// published, and a subscriber for its topic. The topic must be one, and the payload and the frame
/// must be within the limits; what is wrong first is what is said.
pub proof fn demands_bear_topic_and_payload(demand: Demand, limits: Limits)
    ensures
        match demand {
            Demand::Publish { topic, payload } => {
                let publish = ClientFrame::Publish { request_id: 2, topic, payload };
                let result = demand.frame(limits);
                if !names::is_topic(encode_utf8(topic), limits.max_name_len as nat) {
                    result == Err::<Seq<u8>, _>(Failure::InvalidInput(ProtocolError::InvalidTopic))
                } else if payload.len() > limits.max_payload_len {
                    result == Err::<Seq<u8>, _>(
                        Failure::InvalidInput(ProtocolError::PayloadTooLarge),
                    )
                } else if publish.bytes().len() > limits.max_frame_len {
                    result == Err::<Seq<u8>, _>(
                        Failure::InvalidInput(ProtocolError::EncodedFrameTooLarge),
                    )
                } else {
                    result == Ok::<_, Failure>(publish.bytes())
                }
            },
            Demand::Subscribe { topic } => {
                let subscribe = ClientFrame::Subscribe { request_id: 2, topic };
                let result = demand.frame(limits);
                if !names::is_topic(encode_utf8(topic), limits.max_name_len as nat) {
                    result == Err::<Seq<u8>, _>(Failure::InvalidInput(ProtocolError::InvalidTopic))
                } else if subscribe.bytes().len() > limits.max_frame_len {
                    result == Err::<Seq<u8>, _>(
                        Failure::InvalidInput(ProtocolError::EncodedFrameTooLarge),
                    )
                } else {
                    result == Ok::<_, Failure>(subscribe.bytes())
                }
            },
        },
        demand is Publish ==> demand.client_id() == "boundwire-publisher"@ && demand.pending()
            == Pending::Publish,
        demand is Subscribe ==> demand.client_id() == "boundwire-subscriber"@ && demand.pending()
            == Pending::Subscribe,
{
}

/// A request that is written is written as its bytes; one that cannot be written is the caller's
/// fault, for the reason that it cannot.
pub proof fn requests_fail_for_a_reason(request: ClientFrame, limits: Limits)
    ensures
        match codec::write_client_frame(request, limits) {
            Ok(bytes) => client::request_frame(request, limits) == Ok::<_, Failure>(bytes),
            Err(error) => client::request_frame(request, limits) == Err::<Seq<u8>, _>(
                Failure::InvalidInput(error),
            ),
        },
{
}

/// The command follows the introduction if and only if the server says that it is ready, to the
/// first request. Whatever else arrives ends the exchange, and is said.
pub proof fn the_command_waits_for_ready(demand: Demand, arrival: Arrival, limits: Limits)
    ensures
        ({
            let result = demand.after_introduction(arrival, limits);
            match client::answer(arrival, limits) {
                Err(failure) => result == Err::<Seq<u8>, _>(failure),
                Ok(received) => if received is Ready && received->Ready_request_id == 1 {
                    result == demand.frame(limits)
                } else {
                    result == Err::<Seq<u8>, _>(
                        Failure::Unexpected { expected: "ready response"@, received },
                    )
                },
            }
        }),
{
}

/// A command is done if and only if the server acknowledges it: its kind, to the second request.
/// Whatever else arrives ends the exchange, and is said.
pub proof fn commands_are_done_when_acknowledged(
    pending: Pending,
    arrival: Arrival,
    limits: Limits,
)
    ensures
        ({
            let result = pending.after_command(arrival, limits);
            let (kind, expected) = match pending {
                Pending::Publish => (4u8, "publish acknowledgement"@),
                Pending::Subscribe => (2u8, "subscription acknowledgement"@),
            };
            match client::answer(arrival, limits) {
                Err(failure) => result == Err::<ServerFrame, _>(failure),
                Ok(received) => if received is Ack && received->Ack_request_id == 2
                    && received->acknowledged_kind == kind {
                    result == Ok::<_, Failure>(received)
                } else {
                    result == Err::<ServerFrame, _>(Failure::Unexpected { expected, received })
                },
            }
        }),
{
}

/// A receipt is determined by the acknowledgement: it is the receipt of a message if and only if
/// the message is an acknowledgement and each field of the receipt is that of the acknowledgement.
pub proof fn receipts_are_determined(receipt: PublishReceipt, received: ServerFrame)
    ensures
        client::receipt_of(receipt, received) <==> {
            &&& received is Ack
            &&& receipt.event_id == received->Ack_event_id
            &&& receipt.matched == received->matched
            &&& receipt.enqueued == received->enqueued
            &&& receipt.evicted == received->evicted
        },
{
}

/// No two receipts are receipts of the same message.
pub proof fn receipts_are_unique(one: PublishReceipt, other: PublishReceipt, received: ServerFrame)
    requires
        client::receipt_of(one, received),
        client::receipt_of(other, received),
    ensures
        one == other,
{
}

/// A subscriber takes an event for what it is, a frame that is no message for a failure, and every
/// other message, an error too, for one that it did not expect.
pub proof fn subscribers_take_events(frame: Seq<u8>, limits: Limits)
    ensures
        match codec::read_server_frame(frame, limits) {
            Err(error) => client::event_in(frame, limits) == Err::<ServerFrame, _>(
                Failure::InvalidData(error),
            ),
            Ok(received) => if received is Event {
                client::event_in(frame, limits) == Ok::<_, Failure>(received)
            } else {
                client::event_in(frame, limits) == Err::<ServerFrame, _>(
                    Failure::Unexpected { expected: "event"@, received },
                )
            },
        },
{
}

/// The mathematical value of an event holds every field of the event as it is.
pub proof fn events_are_seen_whole(event: Event)
    ensures
        event@ == (ServerFrame::Event {
            event_id: event.event_id,
            topic: event.topic@,
            payload: wire::bytes_of(event.payload),
        }),
{
}

/// The mathematical value of an error holds every field of the error as it is.
pub proof fn errors_are_seen_whole(error: ClientError)
    ensures
        match error {
            ClientError::InvalidInput(cause) => error@ == Failure::InvalidInput(cause),
            ClientError::InvalidData(cause) => error@ == Failure::InvalidData(cause),
            ClientError::TimedOut => error@ == Failure::TimedOut,
            ClientError::ServerClosed => error@ == Failure::ServerClosed,
            ClientError::Rejected { request_id, code, detail } => error@ == (Failure::Rejected {
                request_id,
                code,
                detail: detail@,
            }),
            ClientError::Unexpected { expected, received } => error@ == (Failure::Unexpected {
                expected: expected@,
                received: received@,
            }),
        },
{
}

/// The server has five seconds to answer.
pub proof fn answers_are_awaited_for_five_seconds()
    ensures
        client::RESPONSE_TIMEOUT_SECS == 5,
{
}

/// What each error says.
pub proof fn client_errors_say(failure: Failure, printed: Seq<char>)
    ensures
        match failure {
            Failure::InvalidInput(error) => failure.text(printed) == error.text(),
            Failure::InvalidData(error) => failure.text(printed) == error.text(),
            Failure::TimedOut => failure.text(printed) == "server response timed out"@,
            Failure::ServerClosed => failure.text(printed) == "server closed"@,
            Failure::Rejected { request_id, code, detail } => failure.text(printed)
                == "server rejected request "@ + crate::text::decimal(request_id as nat)
                + " with code "@ + crate::text::decimal(code as nat) + ": "@ + detail,
            Failure::Unexpected { expected, .. } => failure.text(printed) == "expected "@ + expected
                + ", received "@ + printed,
        },
{
}

} // verus!
