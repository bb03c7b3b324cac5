//! The record of what was done to connections, and the calls that it tells of.
//!
//! A connection is reached by a [`Line`], which is at home in one record. A call that puts a
//! message on a queue or that tells a connection to close takes a [`Turn`] of that record and gives
//! evidence of itself. The record is written from the evidence alone, so it tells of nothing that
//! was not done. Where none of its turns is left open, it tells of all that was done through the
//! lines that are at home in it.

use crate::message;
use crate::message::ServerMessage;
use tokio::sync::mpsc::error::TrySendError;
use tokio::sync::mpsc::Sender;
use tokio_util::sync::CancellationToken;
use vstd::prelude::*;

verus! {

/// Trusted: the type `tokio::sync::mpsc::Sender`, an opaque handle to a bounded queue.
#[verifier::external_type_specification]
#[verifier::external_body]
#[verifier::reject_recursive_types(T)]
pub struct ExSender<T>(tokio::sync::mpsc::Sender<T>);

/// Trusted: the type `tokio_util::sync::CancellationToken`, an opaque handle.
#[verifier::external_type_specification]
#[verifier::external_body]
pub struct ExCancellationToken(tokio_util::sync::CancellationToken);

/// What became of a message that was offered to a queue.
#[derive(Clone, Copy, Debug, PartialEq, Eq)]
pub enum SendOutcome {
    /// The queue took the message.
    Sent,
    /// The queue had no room.
    Full,
    /// Nobody reads the queue any more.
    Closed,
}

/// Something that was done to a connection.
pub enum Effect {
    /// A message was offered to the connection's queue, with this outcome.
    Offered {
        id: u64,
        queue: Sender<ServerMessage>,
        message: message::ServerFrame,
        outcome: SendOutcome,
    },
    /// The connection was told to close: its token was cancelled.
    ForcedClose { id: u64, token: CancellationToken },
    /// Handles to the connection were given out.
    Shared { id: u64 },
}

impl Effect {
    /// The message was offered to the connection, on this queue.
    pub open spec fn is_offer_of(
        self,
        frame: message::ServerFrame,
        connection: u64,
        outgoing: Sender<ServerMessage>,
    ) -> bool {
        match self {
            Effect::Offered { id, queue, message, .. } => id == connection && queue == outgoing
                && message == frame,
            Effect::ForcedClose { .. } | Effect::Shared { .. } => false,
        }
    }
}

/// How a connection is reached, as a mathematical value.
pub struct Reach {
    /// The queue that its messages go to.
    pub queue: Sender<ServerMessage>,
    /// The token that closes it.
    pub token: CancellationToken,
    /// The record that tells where the handles to them were given out, if one does.
    pub origin: int,
}

/// Handles to the outgoing queue of a connection and to the token that closes it.
pub struct Handles {
    outgoing: Sender<ServerMessage>,
    force_close: CancellationToken,
    origin: Ghost<int>,
}

impl View for Handles {
    type V = Reach;

    closed spec fn view(&self) -> Reach {
        Reach { queue: self.outgoing, token: self.force_close, origin: self.origin@ }
    }
}

impl Handles {
    /// Handles to a queue and a token that no record tells of.
    pub fn new(outgoing: Sender<ServerMessage>, force_close: CancellationToken) -> (handles: Self)
        ensures
            handles@.queue == outgoing,
            handles@.token == force_close,
    {
        Handles { outgoing, force_close, origin: Ghost(arbitrary()) }
    }
}

/// Handles that are used by turns of one record.
pub struct Line {
    handles: Handles,
    home: Ghost<int>,
}

impl View for Line {
    type V = Reach;

    closed spec fn view(&self) -> Reach {
        self.handles@
    }
}

impl Line {
    /// The record that the line is at home in.
    pub closed spec fn home(self) -> int {
        self.home@
    }

    /// A line that is at home in the record.
    pub fn new(handles: Handles, log: &Log) -> (line: Self)
        ensures
            line@ == handles@,
            line.home() == log.home(),
    {
        Line { handles, home: Ghost(log.home@) }
    }

    /// Gives out handles to the same queue and the same token.
    pub(super) fn share(&self, turn: Turn) -> (handles: Handles)
        requires
            turn.home() == self.home(),
        ensures
            handles@ == (Reach { origin: self.home(), ..self@ }),
    {
        Handles {
            outgoing: clone_queue(&self.handles.outgoing),
            force_close: clone_token(&self.handles.force_close),
            origin: Ghost(self.home@),
        }
    }
}

/// The right to do one thing that a record will tell of.
pub struct Turn {
    home: Ghost<int>,
}

impl Turn {
    /// The record that will tell of it.
    pub closed spec fn home(self) -> int {
        self.home@
    }
}

/// Evidence that a message was offered to a queue.
pub struct Receipt {
    outcome: SendOutcome,
    message: Ghost<message::ServerFrame>,
    queue: Ghost<Sender<ServerMessage>>,
}

impl Receipt {
    /// What became of the message.
    pub closed spec fn outcome(self) -> SendOutcome {
        self.outcome
    }

    /// The message that was offered.
    pub closed spec fn message(self) -> message::ServerFrame {
        self.message@
    }

    /// The queue that it was offered to.
    pub closed spec fn queue(self) -> Sender<ServerMessage> {
        self.queue@
    }
}

/// Evidence that a token was cancelled.
pub struct Cancelled {
    token: Ghost<CancellationToken>,
}

impl Cancelled {
    /// The token that was cancelled.
    pub closed spec fn token(self) -> CancellationToken {
        self.token@
    }
}

/// Trusted: `tokio::sync::mpsc::Sender::try_send` hands the message to the queue, which either
/// takes it or says that it is full or closed. The receipt bears the message and the queue of the
/// call. Which of the three outcomes it bears depends on what else has been queued and read
/// meanwhile, so nothing is claimed of that.
#[verifier::external_body]
pub(super) fn try_send(line: &Line, message: ServerMessage, turn: Turn) -> (receipt: Receipt)
    requires
        turn.home() == line.home(),
    ensures
        receipt.message() == message@,
        receipt.queue() == line@.queue,
{
    let offered: Ghost<message::ServerFrame> = Ghost(message@);
    let outcome: SendOutcome = match line.handles.outgoing.try_send(message) {
        Ok(()) => SendOutcome::Sent,
        Err(TrySendError::Full(_)) => SendOutcome::Full,
        Err(TrySendError::Closed(_)) => SendOutcome::Closed,
    };
    Receipt { outcome, message: offered, queue: Ghost(line.handles.outgoing) }
}

/// Trusted: `tokio_util::sync::CancellationToken::cancel` cancels the token, which wakes whoever
/// waits for it. The call returns nothing; the evidence bears the token.
#[verifier::external_body]
pub(super) fn cancel(line: &Line, turn: Turn) -> (cancelled: Cancelled)
    requires
        turn.home() == line.home(),
    ensures
        cancelled.token() == line@.token,
{
    line.handles.force_close.cancel();
    Cancelled { token: Ghost(line.handles.force_close) }
}

/// Trusted: the `Clone` of `tokio::sync::mpsc::Sender` gives another handle to the same queue.
#[verifier::external_body]
fn clone_queue(queue: &Sender<ServerMessage>) -> (copy: Sender<ServerMessage>)
    ensures
        copy == *queue,
{
    queue.clone()
}

/// Trusted: the `Clone` of `tokio_util::sync::CancellationToken` gives another handle to the same
/// token: whichever of the two is cancelled, both are.
#[verifier::external_body]
fn clone_token(token: &CancellationToken) -> (copy: CancellationToken)
    ensures
        copy == *token,
{
    token.clone()
}

/// The record of what was done to connections, oldest first.
pub struct Log {
    effects: Ghost<Seq<Effect>>,
    open: Ghost<int>,
    home: Ghost<int>,
}

impl View for Log {
    type V = Seq<Effect>;

    closed spec fn view(&self) -> Seq<Effect> {
        self.effects@
    }
}

impl Log {
    /// How many turns were given out of which the record does not tell.
    pub closed spec fn open(self) -> int {
        self.open@
    }

    /// What tells this record from others. Nothing is known of it but that it stays.
    pub closed spec fn home(self) -> int {
        self.home@
    }

    /// The record of nothing.
    pub fn new() -> (log: Self)
        ensures
            log@ == Seq::<Effect>::empty(),
            log.open() == 0,
    {
        Log { effects: Ghost(Seq::empty()), open: Ghost(0), home: Ghost(arbitrary()) }
    }

    /// Gives out a turn.
    pub(super) fn turn(&mut self) -> (turn: Turn)
        ensures
            turn.home() == old(self).home(),
            final(self)@ == old(self)@,
            final(self).open() == old(self).open() + 1,
            final(self).home() == old(self).home(),
    {
        self.open = Ghost(self.open@ + 1);
        Turn { home: Ghost(self.home@) }
    }

    /// Tells of a message that was offered to a connection, and says what became of it.
    pub(super) fn tell_offer(&mut self, id: u64, receipt: Receipt) -> (outcome: SendOutcome)
        ensures
            outcome == receipt.outcome(),
            final(self)@ == old(self)@.push(
                Effect::Offered {
                    id,
                    queue: receipt.queue(),
                    message: receipt.message(),
                    outcome,
                },
            ),
            final(self).open() == old(self).open() - 1,
            final(self).home() == old(self).home(),
    {
        self.effects = Ghost(
            self.effects@.push(
                Effect::Offered {
                    id,
                    queue: receipt.queue@,
                    message: receipt.message@,
                    outcome: receipt.outcome,
                },
            ),
        );
        self.open = Ghost(self.open@ - 1);
        receipt.outcome
    }

    /// Tells of a connection that was told to close.
    pub(super) fn tell_close(&mut self, id: u64, cancelled: Cancelled)
        ensures
            final(self)@ == old(self)@.push(Effect::ForcedClose { id, token: cancelled.token() }),
            final(self).open() == old(self).open() - 1,
            final(self).home() == old(self).home(),
    {
        self.effects = Ghost(
            self.effects@.push(Effect::ForcedClose { id, token: cancelled.token@ }),
        );
        self.open = Ghost(self.open@ - 1);
    }

    /// Tells of handles to a connection that were given out.
    pub(super) fn tell_share(&mut self, id: u64, handles: &Handles)
        requires
            handles@.origin == old(self).home(),
        ensures
            final(self)@ == old(self)@.push(Effect::Shared { id }),
            final(self).open() == old(self).open() - 1,
            final(self).home() == old(self).home(),
    {
        self.effects = Ghost(self.effects@.push(Effect::Shared { id }));
        self.open = Ghost(self.open@ - 1);
    }
}

} // verus!
