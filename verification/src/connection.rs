//! One connection to the server: what it does about each thing that happens to it.

use crate::broker_state::ConnectionId;
use crate::channel::peer::Peer;
use crate::channel::record::{Effect, Handles, Log, Reach, SendOutcome};
use crate::codec::{self, decode_client_message, encode_server_message};
use crate::message::{ClientMessage, ErrorCode, ServerMessage};
use crate::message;
use crate::protocol::{Limits, Topic};
use crate::wire;
use bytes::{Bytes, BytesMut};
use vstd::prelude::*;

verus! {

/// How many seconds a connection has to introduce itself.
pub const HANDSHAKE_TIMEOUT_SECS: u64 = 5;

/// How far a connection has come.
#[derive(Clone, Copy, Debug, PartialEq, Eq)]
pub enum Phase {
    /// It has not introduced itself.
    Silent,
    /// It has introduced itself, and the broker has not taken note yet.
    Registering,
    /// The broker has taken note of it.
    Active,
    /// It has left, and nothing more comes of it.
    Closed,
}

/// Something that happens to a connection.
pub enum ConnectionEvent {
    /// The server shuts down.
    Shutdown,
    /// The connection was told to close.
    ForceClose,
    /// The time to introduce itself is over.
    HandshakeDeadline,
    /// The outgoing queue yielded a message, or ended.
    Outbound(Option<ServerMessage>),
    /// The socket took a frame, or failed.
    Written { ok: bool },
    /// The socket yielded a frame, or ended or failed.
    Incoming(Option<BytesMut>),
    /// The broker took a command, or is gone.
    Answered { ok: bool },
}

/// What to do next.
pub enum Step {
    /// Wait for the next event.
    Wait,
    /// Have the broker remove the connection, and drop it. This is the last step.
    Remove { id: ConnectionId },
    /// Write a frame to the socket.
    Write(Bytes),
    /// Have the broker enter the connection.
    Register { id: ConnectionId, request_id: u32, handles: Handles },
    /// Have the broker list the connection under a topic.
    Subscribe { id: ConnectionId, request_id: u32, topic: Topic },
    /// Have the broker publish an event.
    Publish { id: ConnectionId, request_id: u32, topic: Topic, payload: Bytes },
}

/// A step as a mathematical value.
pub enum StepView {
    Wait,
    Remove { id: u64 },
    Write(Seq<u8>),
    Register { id: u64, request_id: u32, reach: Reach },
    Subscribe { id: u64, request_id: u32, topic: Seq<char> },
    Publish { id: u64, request_id: u32, topic: Seq<char>, payload: Seq<u8> },
}

impl View for Step {
    type V = StepView;

    open spec fn view(&self) -> StepView {
        match *self {
            Step::Wait => StepView::Wait,
            Step::Remove { id } => StepView::Remove { id: id.0 },
            Step::Write(frame) => StepView::Write(wire::bytes_of(frame)),
            Step::Register { id, request_id, handles } => StepView::Register {
                id: id.0,
                request_id,
                reach: handles@,
            },
            Step::Subscribe { id, request_id, topic } => StepView::Subscribe {
                id: id.0,
                request_id,
                topic: topic@,
            },
            Step::Publish { id, request_id, topic, payload } => StepView::Publish {
                id: id.0,
                request_id,
                topic: topic@,
                payload: wire::bytes_of(payload),
            },
        }
    }
}

/// Why a request is refused, if it is: commands come after an introduction, and there is only
/// one introduction.
pub open spec fn refusal(active: bool, request: message::ClientFrame) -> Option<
    (ErrorCode, Seq<char>),
> {
    if active && request is Hello {
        Some((ErrorCode::AlreadyActive, "HELLO is only valid once"@))
    } else if !active && !(request is Hello) {
        Some((ErrorCode::ExpectedHello, "send HELLO before other commands"@))
    } else {
        None
    }
}

/// A connection as a mathematical value.
#[verifier::ext_equal]
pub struct ConnectionState {
    pub id: u64,
    /// How it is reached.
    pub reach: Reach,
    pub phase: Phase,
    /// What was offered to the outgoing queue, whether the connection was told to close, and
    /// whether handles to it were given out.
    pub effects: Seq<Effect>,
    /// What tells the record of these effects from others.
    pub home: int,
}

impl ConnectionState {
    /// A message has been offered to the outgoing queue. A queue that does not take it closes
    /// the connection.
    pub open spec fn offer(self, message: message::ServerFrame, outcome: SendOutcome) -> Self {
        let offered = self.effects.push(
            Effect::Offered { id: self.id, queue: self.reach.queue, message, outcome },
        );
        ConnectionState {
            effects: if outcome is Sent {
                offered
            } else {
                offered.push(Effect::ForcedClose { id: self.id, token: self.reach.token })
            },
            ..self
        }
    }

    /// The connection has left.
    pub open spec fn leave(self) -> (Self, StepView) {
        (
            ConnectionState { phase: Phase::Closed, ..self },
            StepView::Remove { id: self.id },
        )
    }

    /// Something was done, and the connection goes on if that went well.
    pub open spec fn go_on(self, ok: bool) -> (Self, StepView) {
        if ok {
            (self, StepView::Wait)
        } else {
            self.leave()
        }
    }

    /// What the connection asks of the broker on account of a request that is not refused. It
    /// registers with handles to its own queue and token.
    pub open spec fn forwarded(self, request: message::ClientFrame) -> StepView {
        match request {
            message::ClientFrame::Hello { request_id, .. } => StepView::Register {
                id: self.id,
                request_id,
                reach: Reach { origin: self.home, ..self.reach },
            },
            message::ClientFrame::Subscribe { request_id, topic } => StepView::Subscribe {
                id: self.id,
                request_id,
                topic,
            },
            message::ClientFrame::Publish { request_id, topic, payload } => StepView::Publish {
                id: self.id,
                request_id,
                topic,
                payload,
            },
        }
    }

    /// A request has arrived. `outcome` is what becomes of the answer, if it is refused.
    pub open spec fn take_request(
        self,
        request: message::ClientFrame,
        outcome: SendOutcome,
    ) -> (Self, StepView) {
        match refusal(self.phase is Active, request) {
            Some((code, detail)) => self.offer(
                message::ServerFrame::Error {
                    request_id: request.request_id(),
                    code: code.number(),
                    detail,
                },
                outcome,
            ).go_on(outcome is Sent),
            None => (
                if request is Hello {
                    ConnectionState {
                        phase: Phase::Registering,
                        effects: self.effects.push(Effect::Shared { id: self.id }),
                        ..self
                    }
                } else {
                    self
                },
                self.forwarded(request),
            ),
        }
    }

    /// The broker took a command, or is gone.
    pub open spec fn take_answer(self, ok: bool) -> (Self, StepView) {
        ConnectionState {
            phase: if self.phase is Registering {
                Phase::Active
            } else {
                self.phase
            },
            ..self
        }.go_on(ok)
    }

    /// What becomes of the connection, and what it does, when something happens to it. It takes no
    /// request while the broker has yet to take note of it, and nothing comes of what happens after
    /// it has left.
    pub open spec fn react(
        self,
        event: ConnectionEvent,
        limits: Limits,
        outcome: SendOutcome,
    ) -> (Self, StepView) {
        if self.phase is Closed {
            (self, StepView::Wait)
        } else {
            match event {
                ConnectionEvent::Shutdown => self.leave(),
                ConnectionEvent::ForceClose => self.leave(),
                ConnectionEvent::HandshakeDeadline => self.go_on(!(self.phase is Silent)),
                ConnectionEvent::Outbound(None) => self.leave(),
                ConnectionEvent::Outbound(Some(message)) => match codec::write_server_frame(
                    message@,
                    limits,
                ) {
                    Ok(frame) => (self, StepView::Write(frame)),
                    Err(_) => self.leave(),
                },
                ConnectionEvent::Written { ok } => self.go_on(ok),
                ConnectionEvent::Incoming(None) => self.leave(),
                ConnectionEvent::Incoming(Some(frame)) => match codec::read_client_frame(
                    wire::bytes_mut_of(frame),
                    limits,
                ) {
                    Ok(request) => if self.phase is Registering {
                        self.leave()
                    } else {
                        self.take_request(request, outcome)
                    },
                    Err(_) => self.leave(),
                },
                ConnectionEvent::Answered { ok } => self.take_answer(ok),
            }
        }
    }
}

/// One connection to the server.
pub struct Connection {
    peer: Peer,
    phase: Phase,
    log: Log,
}

impl View for Connection {
    type V = ConnectionState;

    closed spec fn view(&self) -> ConnectionState {
        ConnectionState {
            id: self.peer.id(),
            reach: self.peer.reach(),
            phase: self.phase,
            effects: self.log@,
            home: self.log.home(),
        }
    }
}

/// The answer to a request that has no place in the connection's phase, if it has none.
pub fn refuse(active: bool, request: &ClientMessage) -> (answer: Option<(ErrorCode, &'static str)>)
    ensures
        match refusal(active, request@) {
            Some((code, detail)) => answer matches Some(given) && given.0 == code && given.1@
                == detail,
            None => answer is None,
        },
{
    match request {
        ClientMessage::Hello { .. } => {
            if active {
                Some((ErrorCode::AlreadyActive, "HELLO is only valid once"))
            } else {
                None
            }
        },
        ClientMessage::Subscribe { .. } | ClientMessage::Publish { .. } => {
            if active {
                None
            } else {
                Some((ErrorCode::ExpectedHello, "send HELLO before other commands"))
            }
        },
    }
}

impl Connection {
    /// The record tells of all that was done to the connection.
    pub closed spec fn well_formed(self) -> bool {
        &&& self.peer.home() == self.log.home()
        &&& self.log.open() == 0
    }

    /// The mathematical value of a connection leaves nothing out: it holds all of the record, the
    /// phase, the number, and the queue and the token that the connection is reached by.
    proof fn is_seen_whole(&self)
        ensures
            self@.effects == self.log@,
            self@.home == self.log.home(),
            self@.phase == self.phase,
            self@.id == self.peer.id(),
            self@.reach == self.peer.reach(),
    {
    }

    /// A connection that has just been accepted.
    pub fn new(id: ConnectionId, handles: Handles) -> (connection: Self)
        ensures
            connection.well_formed(),
            connection@ == (ConnectionState {
                id: id.0,
                reach: handles@,
                phase: Phase::Silent,
                effects: Seq::empty(),
                home: connection@.home,
            }),
    {
        let log = Log::new();
        Connection { peer: Peer::new(id.0, handles, &log), phase: Phase::Silent, log }
    }

    /// Whether the time to introduce itself still runs.
    pub fn is_silent(&self) -> (silent: bool)
        ensures
            silent == (self@.phase is Silent),
    {
        match self.phase {
            Phase::Silent => true,
            Phase::Registering | Phase::Active | Phase::Closed => false,
        }
    }

    /// Puts an error on the outgoing queue. Says whether the queue did not take it, in which
    /// case the connection has been told to close.
    fn queue_error(&mut self, request_id: u32, code: ErrorCode, detail: &'static str) -> (failed:
        bool)
        requires
            old(self).well_formed(),
        ensures
            final(self).well_formed(),
            exists|outcome: SendOutcome|
                {
                    &&& final(self)@ == #[trigger] old(self)@.offer(
                        message::ServerFrame::Error {
                            request_id,
                            code: code.number(),
                            detail: detail@,
                        },
                        outcome,
                    )
                    &&& failed == !(outcome is Sent)
                },
    {
        let message = ServerMessage::Error { request_id, code, detail };
        let ghost frame = message@;
        let outcome: SendOutcome = self.peer.offer(message, &mut self.log);
        let failed: bool = match outcome {
            SendOutcome::Sent => false,
            SendOutcome::Full | SendOutcome::Closed => {
                self.peer.close(&mut self.log);
                true
            },
        };
        assert(self@ == old(self)@.offer(frame, outcome));
        failed
    }

    /// Leaves.
    fn leave(&mut self) -> (step: Step)
        requires
            old(self).well_formed(),
        ensures
            final(self).well_formed(),
            (final(self)@, step@) == old(self)@.leave(),
    {
        self.phase = Phase::Closed;
        Step::Remove { id: ConnectionId(self.peer.number()) }
    }

    /// Goes on or leaves, by whether what was done went well.
    fn go_on(&mut self, ok: bool) -> (step: Step)
        requires
            old(self).well_formed(),
        ensures
            final(self).well_formed(),
            (final(self)@, step@) == old(self)@.go_on(ok),
    {
        if ok {
            Step::Wait
        } else {
            self.leave()
        }
    }

    /// Takes a request from the client.
    fn take_request(&mut self, request: ClientMessage) -> (step: Step)
        requires
            old(self).well_formed(),
        ensures
            final(self).well_formed(),
            exists|outcome: SendOutcome|
                (final(self)@, step@) == old(self)@.take_request(request@, outcome),
    {
        let active: bool = match self.phase {
            Phase::Active => true,
            Phase::Silent | Phase::Registering | Phase::Closed => false,
        };
        if let Some((code, detail)) = refuse(active, &request) {
            let failed: bool = self.queue_error(request.request_id(), code, detail);
            let ghost answered = self@;
            let step = self.go_on(!failed);
            proof {
                let error = message::ServerFrame::Error {
                    request_id: request@.request_id(),
                    code: code.number(),
                    detail: detail@,
                };
                let outcome = choose|outcome: SendOutcome|
                    answered == #[trigger] old(self)@.offer(error, outcome) && failed == !(
                    outcome is Sent);
                assert((self@, step@) == old(self)@.take_request(request@, outcome));
            }
            return step;
        }
        let ghost asked = request@;
        let id = ConnectionId(self.peer.number());
        let step = match request {
            ClientMessage::Hello { request_id, .. } => {
                let handles = self.peer.share(&mut self.log);
                self.phase = Phase::Registering;
                Step::Register { id, request_id, handles }
            },
            ClientMessage::Subscribe { request_id, topic } => Step::Subscribe {
                id,
                request_id,
                topic,
            },
            ClientMessage::Publish { request_id, topic, payload } => Step::Publish {
                id,
                request_id,
                topic,
                payload,
            },
        };
        assert((self@, step@) == old(self)@.take_request(asked, SendOutcome::Sent));
        step
    }

    /// Takes note of whether the broker took a command.
    fn take_answer(&mut self, ok: bool) -> (step: Step)
        requires
            old(self).well_formed(),
        ensures
            final(self).well_formed(),
            (final(self)@, step@) == old(self)@.take_answer(ok),
    {
        match self.phase {
            Phase::Registering => {
                self.phase = Phase::Active;
            },
            Phase::Silent | Phase::Active | Phase::Closed => {},
        }
        self.go_on(ok)
    }

    /// Decides what to do about an event.
    pub fn handle(&mut self, event: ConnectionEvent, limits: &Limits) -> (step: Step)
        requires
            old(self).well_formed(),
            match event {
                ConnectionEvent::Outbound(Some(message)) => codec::server_payload_too_large(
                    message@,
                    *limits,
                ) || message@.bytes().len() <= isize::MAX,
                _ => true,
            },
        ensures
            final(self).well_formed(),
            exists|outcome: SendOutcome|
                (final(self)@, step@) == old(self)@.react(event, *limits, outcome),
            event matches ConnectionEvent::Outbound(Some(message)) ==> !(old(self)@.phase is Closed)
                ==> codec::write_server_frame(message@, *limits) is Ok
                ==> final(self)@ == old(self)@ && step@ == StepView::Write(message@.bytes()),
            event matches ConnectionEvent::Incoming(Some(frame)) ==> old(self)@.phase is Active
                ==> match codec::read_client_frame(wire::bytes_mut_of(frame), *limits) {
                Ok(message::ClientFrame::Subscribe { request_id, topic }) => final(self)@
                    == old(self)@ && step@ == (StepView::Subscribe {
                    id: old(self)@.id,
                    request_id,
                    topic,
                }),
                Ok(message::ClientFrame::Publish { request_id, topic, payload }) => final(self)@
                    == old(self)@ && step@ == (StepView::Publish {
                    id: old(self)@.id,
                    request_id,
                    topic,
                    payload,
                }),
                _ => true,
            },
    {
        let ghost happened = event;
        let closed: bool = match self.phase {
            Phase::Closed => true,
            Phase::Silent | Phase::Registering | Phase::Active => false,
        };
        if closed {
            assert((self@, StepView::Wait) == old(self)@.react(
                happened,
                *limits,
                SendOutcome::Sent,
            ));
            return Step::Wait;
        }
        let step = match event {
            ConnectionEvent::Shutdown | ConnectionEvent::ForceClose => self.leave(),
            ConnectionEvent::HandshakeDeadline => {
                let silent: bool = self.is_silent();
                self.go_on(!silent)
            },
            ConnectionEvent::Outbound(None) => self.leave(),
            ConnectionEvent::Outbound(Some(message)) => match encode_server_message(
                &message,
                limits,
            ) {
                Ok(frame) => Step::Write(frame),
                Err(_) => self.leave(),
            },
            ConnectionEvent::Written { ok } => self.go_on(ok),
            ConnectionEvent::Incoming(None) => self.leave(),
            ConnectionEvent::Incoming(Some(frame)) => match decode_client_message(frame, limits) {
                Ok(request) => {
                    let ghost asked = request@;
                    let waiting: bool = match self.phase {
                        Phase::Registering => true,
                        Phase::Silent | Phase::Active | Phase::Closed => false,
                    };
                    if waiting {
                        let step = self.leave();
                        assert((self@, step@) == old(self)@.react(
                            happened,
                            *limits,
                            SendOutcome::Sent,
                        ));
                        return step;
                    }
                    let step = self.take_request(request);
                    proof {
                        let outcome = choose|outcome: SendOutcome|
                            (self@, step@) == old(self)@.take_request(asked, outcome);
                        assert((self@, step@) == old(self)@.react(happened, *limits, outcome));
                    }
                    return step;
                },
                Err(_) => self.leave(),
            },
            ConnectionEvent::Answered { ok } => self.take_answer(ok),
        };
        assert((self@, step@) == old(self)@.react(happened, *limits, SendOutcome::Sent));
        step
    }
}

/// A command that comes before the introduction is answered with an error that names it, and
/// the connection can still introduce itself.
pub proof fn early_commands_are_refused(
    state: ConnectionState,
    request: message::ClientFrame,
    frame: BytesMut,
    limits: Limits,
    outcome: SendOutcome,
)
    requires
        state.phase is Silent,
        !(request is Hello),
        codec::read_client_frame(wire::bytes_mut_of(frame), limits) == Ok::<
            message::ClientFrame,
            crate::protocol::ProtocolError,
        >(request),
    ensures
        ({
            let (after, step) = state.react(
                ConnectionEvent::Incoming(Some(frame)),
                limits,
                outcome,
            );
            let answer = message::ServerFrame::Error {
                request_id: request.request_id(),
                code: 1,
                detail: "send HELLO before other commands"@,
            };
            &&& after.effects[state.effects.len() as int].is_offer_of(
                answer,
                state.id,
                state.reach.queue,
            )
            &&& outcome is Sent ==> after.phase == state.phase && step is Wait
        }),
{
}

/// A second introduction is answered with an error that names it, and the connection stays
/// active.
pub proof fn repeated_introductions_are_refused(
    state: ConnectionState,
    request: message::ClientFrame,
    frame: BytesMut,
    limits: Limits,
    outcome: SendOutcome,
)
    requires
        state.phase is Active,
        request is Hello,
        codec::read_client_frame(wire::bytes_mut_of(frame), limits) == Ok::<
            message::ClientFrame,
            crate::protocol::ProtocolError,
        >(request),
    ensures
        ({
            let (after, step) = state.react(
                ConnectionEvent::Incoming(Some(frame)),
                limits,
                outcome,
            );
            let answer = message::ServerFrame::Error {
                request_id: request.request_id(),
                code: 2,
                detail: "HELLO is only valid once"@,
            };
            &&& after.effects[state.effects.len() as int].is_offer_of(
                answer,
                state.id,
                state.reach.queue,
            )
            &&& outcome is Sent ==> after.phase is Active && step is Wait
        }),
{
}

/// A frame that breaks the protocol closes the connection that it came from, unanswered.
pub proof fn malformed_frames_close_the_connection(
    state: ConnectionState,
    frame: BytesMut,
    limits: Limits,
    outcome: SendOutcome,
)
    requires
        !(state.phase is Closed),
        codec::read_client_frame(wire::bytes_mut_of(frame), limits) is Err,
    ensures
        state.react(ConnectionEvent::Incoming(Some(frame)), limits, outcome) == state.leave(),
        state.leave().0.effects == state.effects,
{
}

/// The handshake deadline closes a silent connection and leaves an active one alone.
pub proof fn the_deadline_closes_only_silent_connections(
    state: ConnectionState,
    limits: Limits,
    outcome: SendOutcome,
)
    ensures
        state.phase is Silent ==> state.react(
            ConnectionEvent::HandshakeDeadline,
            limits,
            outcome,
        ) == state.leave(),
        state.phase is Active ==> state.react(
            ConnectionEvent::HandshakeDeadline,
            limits,
            outcome,
        ) == (state, StepView::Wait),
{
}

/// An active connection stays active until it leaves, whatever happens to it.
pub proof fn active_connections_stay_active(
    state: ConnectionState,
    event: ConnectionEvent,
    limits: Limits,
    outcome: SendOutcome,
)
    requires
        state.phase is Active,
    ensures
        state.react(event, limits, outcome).0.phase is Active || state.react(
            event,
            limits,
            outcome,
        ).1 is Remove,
{
}

/// A connection that introduces itself and that the broker takes note of is active: its next
/// command goes to the broker as it came.
pub proof fn introduced_connections_are_served(
    state: ConnectionState,
    hello: message::ClientFrame,
    hello_frame: BytesMut,
    command: message::ClientFrame,
    command_frame: BytesMut,
    limits: Limits,
    outcome: SendOutcome,
)
    requires
        state.phase is Silent,
        hello is Hello,
        !(command is Hello),
        codec::read_client_frame(wire::bytes_mut_of(hello_frame), limits) == Ok::<
            message::ClientFrame,
            crate::protocol::ProtocolError,
        >(hello),
        codec::read_client_frame(wire::bytes_mut_of(command_frame), limits) == Ok::<
            message::ClientFrame,
            crate::protocol::ProtocolError,
        >(command),
    ensures
        ({
            let (greeted, asked) = state.react(
                ConnectionEvent::Incoming(Some(hello_frame)),
                limits,
                outcome,
            );
            let (active, _) = greeted.react(
                ConnectionEvent::Answered { ok: true },
                limits,
                outcome,
            );
            let (_, forward) = active.react(
                ConnectionEvent::Incoming(Some(command_frame)),
                limits,
                outcome,
            );
            &&& asked == StepView::Register {
                id: state.id,
                request_id: hello.request_id(),
                reach: Reach { origin: state.home, ..state.reach },
            }
            &&& active.phase is Active
            &&& forward == active.forwarded(command)
        }),
{
}

} // verus!
