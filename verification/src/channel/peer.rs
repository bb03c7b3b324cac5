//! The ways to reach a connection.

use crate::channel::record::{self, Effect, Handles, Line, Log, Reach, SendOutcome};
use crate::message::ServerMessage;
use vstd::prelude::*;

verus! {

/// A connection: its number, and the line that it is reached by.
pub struct Peer {
    id: u64,
    line: Line,
}

impl Peer {
    /// The number of the connection.
    pub closed spec fn id(self) -> u64 {
        self.id
    }

    /// How the connection is reached.
    pub closed spec fn reach(self) -> Reach {
        self.line@
    }

    /// The record that tells of what is done to the connection.
    pub closed spec fn home(self) -> int {
        self.line.home()
    }

    /// The connection with this number and these handles. What is done to it goes into the record.
    pub fn new(id: u64, handles: Handles, log: &Log) -> (peer: Self)
        ensures
            peer.id() == id,
            peer.reach() == handles@,
            peer.home() == log.home(),
    {
        Peer { id, line: Line::new(handles, log) }
    }

    /// The number of the connection.
    pub fn number(&self) -> (number: u64)
        ensures
            number == self.id(),
    {
        self.id
    }

    /// Offers a message to the connection's queue, once.
    pub fn offer(&self, message: ServerMessage, log: &mut Log) -> (outcome: SendOutcome)
        requires
            old(log).home() == self.home(),
        ensures
            final(log)@ == old(log)@.push(
                Effect::Offered {
                    id: self.id(),
                    queue: self.reach().queue,
                    message: message@,
                    outcome,
                },
            ),
            final(log).open() == old(log).open(),
            final(log).home() == old(log).home(),
    {
        let turn = log.turn();
        let receipt = record::try_send(&self.line, message, turn);
        log.tell_offer(self.id, receipt)
    }

    /// Tells the connection to close.
    pub fn close(&self, log: &mut Log)
        requires
            old(log).home() == self.home(),
        ensures
            final(log)@ == old(log)@.push(
                Effect::ForcedClose { id: self.id(), token: self.reach().token },
            ),
            final(log).open() == old(log).open(),
            final(log).home() == old(log).home(),
    {
        let turn = log.turn();
        let cancelled = record::cancel(&self.line, turn);
        log.tell_close(self.id, cancelled);
    }

    /// Gives out handles to the connection's queue and token.
    pub fn share(&self, log: &mut Log) -> (handles: Handles)
        requires
            old(log).home() == self.home(),
        ensures
            handles@ == (Reach { origin: old(log).home(), ..self.reach() }),
            final(log)@ == old(log)@.push(Effect::Shared { id: self.id() }),
            final(log).open() == old(log).open(),
            final(log).home() == old(log).home(),
    {
        let turn = log.turn();
        let handles = self.line.share(turn);
        log.tell_share(self.id, &handles);
        handles
    }
}

} // verus!
