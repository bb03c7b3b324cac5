//! The server: which connections it takes, when it stops, and what it reports.

use crate::broker_state::ConnectionId;
use crate::channel::places::{self, Places, Shortage};
use crate::protocol::{Limits, ProtocolError};
use tokio::sync::{OwnedSemaphorePermit, Semaphore};
use vstd::prelude::*;

verus! {

/// How many connections the server took and turned away.
#[derive(Debug, PartialEq)]
pub struct ServerReport {
    pub accepted_connections: u64,
    pub rejected_connections: u64,
}

/// Something that happens to a running server. Failures are of a type `E`.
pub enum ServerEvent<E> {
    /// The server was told to shut down.
    Shutdown,
    /// The task of a connection ended, and may have failed.
    TaskEnded { failure: Option<E> },
    /// No more connections can be accepted.
    AcceptFailed(E),
    /// Somebody connected.
    Accepted,
}

/// What a running server does next.
pub enum ServerStep {
    /// Wait for the next event.
    Wait,
    /// Stop waiting for events.
    Stop,
    /// Tell all tasks to shut down, and stop waiting for events.
    ShutDown,
    /// Serve the new connection under this number, for as long as the permit is held.
    Serve { id: ConnectionId, permit: OwnedSemaphorePermit },
    /// Drop the new connection: there was no permit for it, or no number.
    Reject { shortage: Option<Shortage> },
}

/// A server as a mathematical value.
#[verifier::ext_equal]
pub struct ServerState<E> {
    /// Where the permits come from: one for each connection that may be served at a time.
    pub store: Semaphore,
    /// How often the store was asked for a permit.
    pub asked: nat,
    pub accepted: nat,
    pub rejected: nat,
    /// The first failure.
    pub failure: Option<E>,
}

impl<E> ServerState<E> {
    /// A server that has not accepted anybody.
    pub open spec fn initial(store: Semaphore) -> Self {
        ServerState { store, asked: 0, accepted: 0, rejected: 0, failure: None }
    }

    /// How many connections may be served at a time.
    pub open spec fn capacity(self) -> nat {
        places::permits_of(self.store)
    }

    /// The store has been asked for a permit.
    pub open spec fn ask(self) -> Self {
        ServerState { asked: self.asked + 1, ..self }
    }

    /// There is a place for whoever connects: a permit, and a number whose successor is one, too.
    pub open spec fn has_place(self, permitted: bool) -> bool {
        permitted && self.accepted + 2 <= u64::MAX
    }

    /// Somebody connected, and was taken or turned away.
    pub open spec fn placed(self, permitted: bool) -> Self {
        if self.has_place(permitted) {
            ServerState { accepted: self.accepted + 1, ..self }
        } else {
            ServerState { rejected: self.rejected + 1, ..self }
        }
    }

    /// Something failed. The first failure is kept.
    pub open spec fn fail(self, failure: E) -> Self {
        match self.failure {
            Some(_) => self,
            None => ServerState { failure: Some(failure), ..self },
        }
    }
}

/// A running server. Connections are numbered from 1.
pub struct Server<E> {
    places: Places,
    next_connection_id: u64,
    report: ServerReport,
    failure: Option<E>,
}

impl<E> View for Server<E> {
    type V = ServerState<E>;

    closed spec fn view(&self) -> ServerState<E> {
        ServerState {
            store: self.places.store(),
            asked: self.places.asked(),
            accepted: self.report.accepted_connections as nat,
            rejected: self.report.rejected_connections as nat,
            failure: self.failure,
        }
    }
}

impl<E> Server<E> {
    /// As many numbers have been given out as connections were accepted.
    pub closed spec fn well_formed(self) -> bool {
        self.next_connection_id == self.report.accepted_connections + 1
    }

    /// The mathematical value of a server leaves nothing out: it holds the store, how often it was
    /// asked, both counts and the failure.
    proof fn is_seen_whole(&self)
        ensures
            self@.store == self.places.store(),
            self@.asked == self.places.asked(),
            self@.accepted == self.report.accepted_connections,
            self@.rejected == self.report.rejected_connections,
            self@.failure == self.failure,
    {
    }

    /// A server that has not accepted anybody, if the limits are valid.
    pub fn new(limits: &Limits) -> (result: Result<Self, ProtocolError>)
        ensures
            match limits.defect() {
                None => {
                    &&& result matches Ok(server)
                    &&& server.well_formed()
                    &&& places::permits_of(server@.store) == limits.max_connections
                    &&& server@ == ServerState::<E>::initial(server@.store)
                },
                Some(text) => result matches Err(ProtocolError::InvalidLimits(detail))
                    && detail@ == text,
            },
    {
        match limits.validate() {
            Ok(()) => {},
            Err(error) => return Err(error),
        }
        Ok(
            Server {
                places: Places::new(limits.max_connections),
                next_connection_id: 1,
                report: ServerReport { accepted_connections: 0, rejected_connections: 0 },
                failure: None,
            },
        )
    }

    /// Takes or turns away a new connection, by whether there is a permit for it.
    pub fn place(&mut self, permit: Result<OwnedSemaphorePermit, Shortage>) -> (step: ServerStep)
        requires
            old(self).well_formed(),
            old(self)@.has_place(permit is Ok) || old(self)@.rejected < u64::MAX,
        ensures
            final(self).well_formed(),
            final(self)@ == old(self)@.placed(permit is Ok),
            match permit {
                Ok(permit) => if old(self)@.has_place(true) {
                    step == (ServerStep::Serve {
                        id: ConnectionId((old(self)@.accepted + 1) as u64),
                        permit,
                    })
                } else {
                    step == (ServerStep::Reject { shortage: None })
                },
                Err(shortage) => step == (ServerStep::Reject { shortage: Some(shortage) }),
            },
    {
        let permit = match permit {
            Ok(permit) => permit,
            Err(shortage) => {
                self.report.rejected_connections = self.report.rejected_connections + 1;
                return ServerStep::Reject { shortage: Some(shortage) };
            },
        };
        let following_id: u64 = match self.next_connection_id.checked_add(1) {
            Some(following_id) => following_id,
            None => {
                self.report.rejected_connections = self.report.rejected_connections + 1;
                return ServerStep::Reject { shortage: None };
            },
        };
        let id = ConnectionId(self.next_connection_id);
        self.next_connection_id = following_id;
        self.report.accepted_connections = self.report.accepted_connections + 1;
        ServerStep::Serve { id, permit }
    }

    /// Takes note of a failure. The first one is kept.
    pub fn fail(&mut self, failure: E)
        requires
            old(self).well_formed(),
        ensures
            final(self).well_formed(),
            final(self)@ == old(self)@.fail(failure),
    {
        if self.failure.is_none() {
            self.failure = Some(failure);
        }
    }

    /// How many connections were turned away so far.
    pub fn rejected_connections(&self) -> (rejected: u64)
        ensures
            rejected == self@.rejected,
    {
        self.report.rejected_connections
    }

    /// Decides what to do about an event. The store is asked for one permit on account of each
    /// arrival, and for none otherwise.
    pub fn handle(&mut self, event: ServerEvent<E>) -> (step: ServerStep)
        requires
            old(self).well_formed(),
            event is Accepted ==> old(self)@.rejected < u64::MAX,
        ensures
            final(self).well_formed(),
            match event {
                ServerEvent::Shutdown => step is Stop && final(self)@ == old(self)@,
                ServerEvent::TaskEnded { failure: None } => step is Wait && final(self)@ == old(
                    self,
                )@,
                ServerEvent::TaskEnded { failure: Some(failure) } => step is ShutDown
                    && final(self)@ == old(self)@.fail(failure),
                ServerEvent::AcceptFailed(failure) => step is ShutDown && final(self)@ == old(
                    self,
                )@.fail(failure),
                ServerEvent::Accepted => match step {
                    ServerStep::Serve { id, permit } => {
                        &&& old(self)@.has_place(true)
                        &&& final(self)@ == old(self)@.ask().placed(true)
                        &&& id.0 == old(self)@.accepted + 1
                        &&& places::store_of(permit) == old(self)@.store
                    },
                    ServerStep::Reject { shortage: Some(shortage) } => {
                        &&& final(self)@ == old(self)@.ask().placed(false)
                        &&& shortage.store() == old(self)@.store
                    },
                    ServerStep::Reject { shortage: None } => {
                        &&& !old(self)@.has_place(true)
                        &&& final(self)@ == old(self)@.ask().placed(true)
                    },
                    _ => false,
                },
            },
    {
        match event {
            ServerEvent::Shutdown => ServerStep::Stop,
            ServerEvent::TaskEnded { failure: None } => ServerStep::Wait,
            ServerEvent::TaskEnded { failure: Some(failure) } => {
                self.fail(failure);
                ServerStep::ShutDown
            },
            ServerEvent::AcceptFailed(failure) => {
                self.fail(failure);
                ServerStep::ShutDown
            },
            ServerEvent::Accepted => {
                let asking = self.places.turn();
                let permit = places::try_acquire(asking);
                self.place(permit)
            },
        }
    }

    /// The result of a server whose tasks have all ended: the failure of its broker, or else the
    /// first failure of anything else, or else the report.
    pub fn finish(self, broker_failure: Option<E>) -> (result: Result<ServerReport, E>)
        ensures
            match (broker_failure, self@.failure) {
                (Some(failure), _) => result == Err::<ServerReport, E>(failure),
                (None, Some(failure)) => result == Err::<ServerReport, E>(failure),
                (None, None) => result matches Ok(report) && report.accepted_connections
                    == self@.accepted && report.rejected_connections == self@.rejected,
            },
    {
        match broker_failure {
            Some(failure) => Err(failure),
            None => match self.failure {
                Some(failure) => Err(failure),
                None => Ok(self.report),
            },
        }
    }
}

} // verus!
