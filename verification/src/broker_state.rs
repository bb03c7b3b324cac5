//! What the broker knows and does, as mathematical values.

use crate::channel::record::{Effect, Reach, SendOutcome};
use crate::message;
use crate::message::ServerMessage;
use tokio::sync::mpsc::Sender;
use tokio_util::sync::CancellationToken;
use vstd::prelude::*;

verus! {

/// The number of a connection. The server gives out each number once.
#[derive(Clone, Copy, Debug, Eq, Hash, PartialEq)]
pub struct ConnectionId(pub u64);

/// One attempt to hand an event to a subscriber.
#[derive(Clone, Copy, Debug, Eq, PartialEq)]
pub struct Delivery {
    pub id: ConnectionId,
    pub outcome: SendOutcome,
}

/// A registered connection as a mathematical value.
#[verifier::ext_equal]
pub struct Member {
    /// The topics that it follows.
    pub topics: Set<Seq<char>>,
    /// How it is reached.
    pub reach: Reach,
}

/// The broker as a mathematical value.
#[verifier::ext_equal]
pub struct BrokerState {
    /// The registered connections, by number.
    pub members: Map<u64, Member>,
    /// The number of the next event.
    pub next_event_id: u64,
    /// All that the broker has done to connections, oldest first.
    pub effects: Seq<Effect>,
}

/// A number as it is reported in two bytes: cut off at the largest.
pub open spec fn reported(number: nat) -> u16 {
    if number <= u16::MAX {
        number as u16
    } else {
        u16::MAX
    }
}

/// How many of the deliveries were taken.
pub open spec fn taken(deliveries: Seq<Delivery>) -> nat {
    deliveries.filter(|delivery: Delivery| delivery.outcome is Sent).len()
}

/// The connections that could not be delivered to.
pub open spec fn unreachable(deliveries: Seq<Delivery>) -> Set<u64> {
    Set::new(
        |id: u64|
            exists|i: int|
                0 <= i < deliveries.len() && (#[trigger] deliveries[i]).id.0 == id
                    && !(deliveries[i].outcome is Sent),
    )
}

impl BrokerState {
    /// A broker that nobody has connected to.
    pub open spec fn initial() -> Self {
        BrokerState { members: Map::empty(), next_event_id: 1, effects: Seq::empty() }
    }

    /// The connection is registered.
    pub open spec fn connected(self, id: u64) -> bool {
        self.members.contains_key(id)
    }

    /// The connections that follow a topic.
    pub open spec fn followers(self, topic: Seq<char>) -> Set<u64> {
        Set::new(|id: u64| self.connected(id) && self.members[id].topics.contains(topic))
    }

    /// The queue of a registered connection.
    pub open spec fn queue_of(self, id: u64) -> Sender<ServerMessage> {
        self.members[id].reach.queue
    }

    /// The token of a registered connection.
    pub open spec fn token_of(self, id: u64) -> CancellationToken {
        self.members[id].reach.token
    }

    /// The connection is gone, and with it all that it followed.
    pub open spec fn forget(self, id: u64) -> Self {
        BrokerState { members: self.members.remove(id), ..self }
    }

    /// A registered connection has been told to close.
    pub open spec fn force_close(self, id: u64) -> Self {
        BrokerState {
            effects: self.effects.push(Effect::ForcedClose { id, token: self.token_of(id) }),
            ..self
        }
    }

    /// A message has been offered to a registered connection. A full queue closes the connection.
    pub open spec fn offer(
        self,
        id: u64,
        message: message::ServerFrame,
        outcome: SendOutcome,
    ) -> Self {
        let offered = BrokerState {
            effects: self.effects.push(
                Effect::Offered { id, queue: self.queue_of(id), message, outcome },
            ),
            ..self
        };
        if outcome is Full {
            offered.force_close(id)
        } else {
            offered
        }
    }

    /// A connection whose queue did not take a message is gone.
    pub open spec fn conclude(self, id: u64, outcome: SendOutcome) -> Self {
        if outcome is Sent {
            self
        } else {
            self.forget(id)
        }
    }

    /// A registered connection has been sent a message, and is gone if its queue did not take
    /// it.
    pub open spec fn send(
        self,
        id: u64,
        message: message::ServerFrame,
        outcome: SendOutcome,
    ) -> Self {
        if self.connected(id) {
            self.offer(id, message, outcome).conclude(id, outcome)
        } else {
            self
        }
    }

    /// A connection has introduced itself, and is reached as given. One that held the same number
    /// before is closed. The answer goes to the new queue.
    pub open spec fn register(
        self,
        id: u64,
        request_id: u32,
        reach: Reach,
        outcome: SendOutcome,
    ) -> Self {
        let vacated = if self.connected(id) {
            self.force_close(id)
        } else {
            self
        };
        let entered = BrokerState {
            members: vacated.members.insert(id, Member { topics: Set::empty(), reach }),
            ..vacated
        };
        entered.send(id, message::ServerFrame::Ready { request_id, connection_id: id }, outcome)
    }

    /// A registered connection has asked for a topic.
    pub open spec fn subscribe(
        self,
        id: u64,
        request_id: u32,
        topic: Seq<char>,
        outcome: SendOutcome,
    ) -> Self {
        if self.connected(id) {
            let following = BrokerState {
                members: self.members.insert(
                    id,
                    Member { topics: self.members[id].topics.insert(topic), ..self.members[id] },
                ),
                ..self
            };
            following.send(
                id,
                message::ServerFrame::Ack {
                    request_id,
                    acknowledged_kind: message::SUBSCRIBE,
                    event_id: 0,
                    matched: 0,
                    enqueued: 0,
                    evicted: 0,
                },
                outcome,
            )
        } else {
            self
        }
    }

    /// The deliveries reach each follower of the topic once, and nobody else.
    pub open spec fn reaches_followers(
        self,
        topic: Seq<char>,
        deliveries: Seq<Delivery>,
    ) -> bool {
        let recipients = deliveries.map_values(|delivery: Delivery| delivery.id.0);
        &&& recipients.no_duplicates()
        &&& recipients.to_set() == self.followers(topic)
    }

    /// A message has been offered to each recipient in turn.
    pub open spec fn deliver(
        self,
        message: message::ServerFrame,
        deliveries: Seq<Delivery>,
    ) -> Self
        decreases deliveries.len(),
    {
        if deliveries.len() == 0 {
            self
        } else {
            self.deliver(message, deliveries.drop_last()).offer(
                deliveries.last().id.0,
                message,
                deliveries.last().outcome,
            )
        }
    }

    /// The connections that could not be delivered to are gone.
    pub open spec fn evict(self, deliveries: Seq<Delivery>) -> Self {
        BrokerState { members: self.members.remove_keys(unreachable(deliveries)), ..self }
    }

    /// A connection has published an event: it has the next number, was offered to the
    /// followers of its topic, cost those that could not take it their connection, and was
    /// acknowledged to the publisher. The last number is never given out.
    pub open spec fn publish(
        self,
        publisher: u64,
        request_id: u32,
        topic: Seq<char>,
        payload: Seq<u8>,
        deliveries: Seq<Delivery>,
        outcome: SendOutcome,
    ) -> Self {
        let event_id = self.next_event_id;
        if event_id == u64::MAX {
            self.send(
                publisher,
                message::ServerFrame::Error {
                    request_id,
                    code: message::ErrorCode::EventIdExhausted.number(),
                    detail: "event ID space is exhausted"@,
                },
                outcome,
            )
        } else {
            let numbered = BrokerState { next_event_id: (event_id + 1) as u64, ..self };
            let event = message::ServerFrame::Event { event_id, topic, payload };
            numbered.deliver(event, deliveries).evict(deliveries).send(
                publisher,
                message::ServerFrame::Ack {
                    request_id,
                    acknowledged_kind: message::PUBLISH,
                    event_id,
                    matched: reported(deliveries.len()),
                    enqueued: reported(taken(deliveries)),
                    evicted: reported((deliveries.len() - taken(deliveries)) as nat),
                },
                outcome,
            )
        }
    }
}

} // verus!
