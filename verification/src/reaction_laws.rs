//! What a connection does about each thing that can happen to it, told field by field.

use crate::channel::record::{Effect, Reach, SendOutcome};
use crate::codec;
use crate::connection::{self, ConnectionEvent, ConnectionState, Phase, Step, StepView};
use crate::message::{ClientFrame, ErrorCode, ServerFrame, ServerMessage};
use crate::protocol::{Limits, ProtocolError};
use crate::wire;
use bytes::BytesMut;
use vstd::prelude::*;

verus! {

/// The connection leaves: the broker is asked to remove it, and nothing else about it changes.
pub open spec fn leaves(before: ConnectionState, after: ConnectionState, step: StepView) -> bool {
    &&& step == (StepView::Remove { id: before.id })
    &&& after.id == before.id
    &&& after.reach == before.reach
    &&& after.effects == before.effects
    &&& after.home == before.home
    &&& after.phase == Phase::Closed
}

/// A connection that has not left leaves when the server shuts down, when it is told to close, and
/// when its queue, its socket or the broker is gone. One that has left does nothing.
pub proof fn connections_leave_when_something_is_gone(
    state: ConnectionState,
    limits: Limits,
    outcome: SendOutcome,
)
    ensures
        state.phase != Phase::Closed ==> {
            let (shut, shut_step) = state.react(ConnectionEvent::Shutdown, limits, outcome);
            let (told, told_step) = state.react(ConnectionEvent::ForceClose, limits, outcome);
            let (mute, mute_step) = state.react(ConnectionEvent::Outbound(None), limits, outcome);
            let (deaf, deaf_step) = state.react(ConnectionEvent::Incoming(None), limits, outcome);
            let (stuck, stuck_step) = state.react(
                ConnectionEvent::Written { ok: false },
                limits,
                outcome,
            );
            let (lost, lost_step) = state.react(
                ConnectionEvent::Answered { ok: false },
                limits,
                outcome,
            );
            &&& leaves(state, shut, shut_step)
            &&& leaves(state, told, told_step)
            &&& leaves(state, mute, mute_step)
            &&& leaves(state, deaf, deaf_step)
            &&& leaves(state, stuck, stuck_step)
            &&& leaves(state, lost, lost_step)
        },
{
}

/// Nothing comes of what happens to a connection that has left.
pub proof fn nothing_comes_after_leaving(
    state: ConnectionState,
    event: ConnectionEvent,
    limits: Limits,
    outcome: SendOutcome,
)
    requires
        state.phase == Phase::Closed,
    ensures
        state.react(event, limits, outcome) == (state, StepView::Wait),
{
}

/// A connection that has not left goes on after a frame was written and after the broker took a
/// command, and is active once the broker has taken its registration.
pub proof fn connections_go_on(state: ConnectionState, limits: Limits, outcome: SendOutcome)
    ensures
        state.react(ConnectionEvent::Written { ok: true }, limits, outcome) == (
            state,
            StepView::Wait,
        ),
        state.phase != Phase::Registering ==> state.react(
            ConnectionEvent::Answered { ok: true },
            limits,
            outcome,
        ) == (state, StepView::Wait),
        state.phase == Phase::Registering ==> {
            let (after, step) = state.react(
                ConnectionEvent::Answered { ok: true },
                limits,
                outcome,
            );
            &&& step == StepView::Wait
            &&& after.phase == Phase::Active
            &&& after.id == state.id
            &&& after.reach == state.reach
            &&& after.effects == state.effects
            &&& after.home == state.home
        },
{
}

/// The handshake deadline makes a connection leave if and only if it has not introduced itself.
pub proof fn the_deadline_is_for_the_silent(
    state: ConnectionState,
    limits: Limits,
    outcome: SendOutcome,
)
    ensures
        ({
            let (after, step) = state.react(ConnectionEvent::HandshakeDeadline, limits, outcome);
            &&& state.phase == Phase::Silent ==> leaves(state, after, step)
            &&& state.phase != Phase::Silent ==> after == state && step == StepView::Wait
        }),
{
}

/// Every message that comes off the outgoing queue of a connection that has not left is written to
/// the socket, as the bytes of that message and no others, whatever the message holds and however
/// far the connection has come, as long as its payload and its bytes are within the limits.
/// Otherwise the connection leaves.
pub proof fn queued_messages_are_written(
    state: ConnectionState,
    message: ServerMessage,
    limits: Limits,
    outcome: SendOutcome,
)
    requires
        state.phase != Phase::Closed,
    ensures
        ({
            let (after, step) = state.react(
                ConnectionEvent::Outbound(Some(message)),
                limits,
                outcome,
            );
            let too_large = match message {
                ServerMessage::Event { payload, .. } => wire::bytes_of(payload).len()
                    > limits.max_payload_len,
                _ => false,
            };
            if !too_large && message@.bytes().len() <= limits.max_frame_len {
                after == state && step == StepView::Write(message@.bytes())
            } else {
                leaves(state, after, step)
            }
        }),
{
}

/// What a client reads off the frame that is written for a message is the message: writing loses
/// nothing.
pub proof fn written_messages_are_read_back(
    state: ConnectionState,
    message: ServerMessage,
    limits: Limits,
    outcome: SendOutcome,
)
    requires
        crate::codec_laws::server_fields_fit(message@, limits),
        state.react(ConnectionEvent::Outbound(Some(message)), limits, outcome).1 is Write,
    ensures
        state.react(ConnectionEvent::Outbound(Some(message)), limits, outcome).1 matches
            StepView::Write(frame) && codec::read_server_frame(frame, limits) == Ok::<
            ServerFrame,
            ProtocolError,
        >(message@),
{
    crate::codec_laws::server_message_round_trip(message@, limits);
}

/// A subscription from an active connection is passed on to the broker under the connection's own
/// number, with the request number and the topic that the client sent, and nothing else happens.
pub proof fn subscriptions_are_passed_on(
    state: ConnectionState,
    frame: BytesMut,
    request_id: u32,
    topic: Seq<char>,
    limits: Limits,
    outcome: SendOutcome,
)
    requires
        state.phase == Phase::Active,
        codec::read_client_frame(wire::bytes_mut_of(frame), limits) == Ok::<_, ProtocolError>(
            ClientFrame::Subscribe { request_id, topic },
        ),
    ensures
        state.react(ConnectionEvent::Incoming(Some(frame)), limits, outcome) == (
            state,
            StepView::Subscribe { id: state.id, request_id, topic },
        ),
{
}

/// A publication from an active connection is passed on to the broker under the connection's own
/// number, with the request number, the topic and the payload that the client sent, and nothing
/// else happens.
pub proof fn publications_are_passed_on(
    state: ConnectionState,
    frame: BytesMut,
    request_id: u32,
    topic: Seq<char>,
    payload: Seq<u8>,
    limits: Limits,
    outcome: SendOutcome,
)
    requires
        state.phase == Phase::Active,
        codec::read_client_frame(wire::bytes_mut_of(frame), limits) == Ok::<_, ProtocolError>(
            ClientFrame::Publish { request_id, topic, payload },
        ),
    ensures
        state.react(ConnectionEvent::Incoming(Some(frame)), limits, outcome) == (
            state,
            StepView::Publish { id: state.id, request_id, topic, payload },
        ),
{
}

/// An introduction from a silent connection is passed on to the broker under the connection's own
/// number, with the request number that the client sent and with handles to the connection's own
/// queue and token.
pub proof fn introductions_are_passed_on(
    state: ConnectionState,
    frame: BytesMut,
    request_id: u32,
    client_id: Seq<char>,
    limits: Limits,
    outcome: SendOutcome,
)
    requires
        state.phase == Phase::Silent,
        codec::read_client_frame(wire::bytes_mut_of(frame), limits) == Ok::<_, ProtocolError>(
            ClientFrame::Hello { request_id, client_id },
        ),
    ensures
        ({
            let (after, step) = state.react(
                ConnectionEvent::Incoming(Some(frame)),
                limits,
                outcome,
            );
            &&& step == (StepView::Register {
                id: state.id,
                request_id,
                reach: Reach {
                    queue: state.reach.queue,
                    token: state.reach.token,
                    origin: state.home,
                },
            })
            &&& after.phase == Phase::Registering
            &&& after.id == state.id
            &&& after.reach == state.reach
            &&& after.home == state.home
            &&& after.effects == state.effects.push(Effect::Shared { id: state.id })
        }),
{
}

/// A request that is out of place is answered with one error, which names the request, on the
/// connection's own queue. The connection stays as it was if the queue takes the error, and is told
/// to close and leaves if it does not.
pub proof fn misplaced_requests_are_answered(
    state: ConnectionState,
    frame: BytesMut,
    request: ClientFrame,
    limits: Limits,
    outcome: SendOutcome,
)
    requires
        state.phase == Phase::Silent && !(request is Hello) || state.phase == Phase::Active
            && request is Hello,
        codec::read_client_frame(wire::bytes_mut_of(frame), limits) == Ok::<_, ProtocolError>(
            request,
        ),
    ensures
        ({
            let (after, step) = state.react(
                ConnectionEvent::Incoming(Some(frame)),
                limits,
                outcome,
            );
            let request_id = match request {
                ClientFrame::Hello { request_id, .. } => request_id,
                ClientFrame::Subscribe { request_id, .. } => request_id,
                ClientFrame::Publish { request_id, .. } => request_id,
            };
            let error = if state.phase == Phase::Active {
                ServerFrame::Error { request_id, code: 2, detail: "HELLO is only valid once"@ }
            } else {
                ServerFrame::Error {
                    request_id,
                    code: 1,
                    detail: "send HELLO before other commands"@,
                }
            };
            let offered = state.effects.push(
                Effect::Offered {
                    id: state.id,
                    queue: state.reach.queue,
                    message: error,
                    outcome,
                },
            );
            &&& after.id == state.id
            &&& after.reach == state.reach
            &&& after.home == state.home
            &&& outcome == SendOutcome::Sent ==> {
                &&& step == StepView::Wait
                &&& after.phase == state.phase
                &&& after.effects == offered
            }
            &&& outcome != SendOutcome::Sent ==> {
                &&& step == (StepView::Remove { id: state.id })
                &&& after.phase == Phase::Closed
                &&& after.effects == offered.push(
                    Effect::ForcedClose { id: state.id, token: state.reach.token },
                )
            }
        }),
{
}

/// A frame that is no message makes the connection leave, and so does any frame that comes while
/// the broker has yet to take note of the connection.
pub proof fn frames_that_cannot_be_taken_end_the_connection(
    state: ConnectionState,
    frame: BytesMut,
    limits: Limits,
    outcome: SendOutcome,
)
    requires
        state.phase != Phase::Closed,
        codec::read_client_frame(wire::bytes_mut_of(frame), limits) is Err || state.phase
            == Phase::Registering,
    ensures
        ({
            let (after, step) = state.react(
                ConnectionEvent::Incoming(Some(frame)),
                limits,
                outcome,
            );
            leaves(state, after, step)
        }),
{
}

/// Commands are refused before the introduction, introductions after it, and nothing else is.
pub proof fn only_misplaced_requests_are_refused(active: bool, request: ClientFrame)
    ensures
        active && request is Hello ==> connection::refusal(active, request) == Some(
            (ErrorCode::AlreadyActive, "HELLO is only valid once"@),
        ),
        !active && !(request is Hello) ==> connection::refusal(active, request) == Some(
            (ErrorCode::ExpectedHello, "send HELLO before other commands"@),
        ),
        (active <==> !(request is Hello)) ==> connection::refusal(active, request) is None,
{
}

/// A connection has five seconds to introduce itself.
pub proof fn the_deadline_is_after_five_seconds()
    ensures
        connection::HANDSHAKE_TIMEOUT_SECS == 5,
{
}

/// The mathematical value of a step holds every field of the step as it is.
pub proof fn steps_are_seen_whole(step: Step)
    ensures
        match step {
            Step::Wait => step@ == StepView::Wait,
            Step::Remove { id } => step@ == (StepView::Remove { id: id.0 }),
            Step::Write(frame) => step@ == StepView::Write(wire::bytes_of(frame)),
            Step::Register { id, request_id, handles } => step@ == (StepView::Register {
                id: id.0,
                request_id,
                reach: handles@,
            }),
            Step::Subscribe { id, request_id, topic } => step@ == (StepView::Subscribe {
                id: id.0,
                request_id,
                topic: topic@,
            }),
            Step::Publish { id, request_id, topic, payload } => step@ == (StepView::Publish {
                id: id.0,
                request_id,
                topic: topic@,
                payload: wire::bytes_of(payload),
            }),
        },
{
}

} // verus!
