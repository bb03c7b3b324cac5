//! The broker: who is connected, who follows what, and who gets which event.

use crate::broker_state::{BrokerState, ConnectionId, Delivery, Member};
use crate::broker_state;
use crate::channel::peer::Peer;
use crate::channel::record::{Handles, Log, SendOutcome};
use crate::message::{ErrorCode, ServerMessage, PUBLISH, SUBSCRIBE};
use crate::message;
use crate::protocol::Topic;
use crate::wire;
use bytes::Bytes;
use std::collections::HashMap;
use vstd::hash_map::StringHashMap;
use vstd::prelude::*;

verus! {

broadcast use vstd::std_specs::hash::group_hash_axioms;

/// A number as an acknowledgement reports it: in two bytes, cut off at the largest.
pub fn count(value: usize) -> (number: u16)
    ensures
        number == broker_state::reported(value as nat),
{
    match u16::try_from(value) {
        Ok(number) => number,
        Err(_) => u16::MAX,
    }
}

/// What connections ask of the broker.
pub enum BrokerCommand {
    Register { id: ConnectionId, request_id: u32, handles: Handles },
    Subscribe { id: ConnectionId, request_id: u32, topic: Topic },
    Publish { id: ConnectionId, request_id: u32, topic: Topic, payload: Bytes },
    Remove { id: ConnectionId },
}

impl BrokerCommand {
    /// `after` is what the command makes of `before`, for some outcome of the messages that were
    /// offered on its account.
    pub open spec fn carried_out(self, before: BrokerState, after: BrokerState) -> bool {
        match self {
            BrokerCommand::Register { id, request_id, handles } => exists|outcome: SendOutcome|
                after == before.register(id.0, request_id, handles@, outcome),
            BrokerCommand::Subscribe { id, request_id, topic } => exists|outcome: SendOutcome|
                after == before.subscribe(id.0, request_id, topic@, outcome),
            BrokerCommand::Publish { id, request_id, topic, payload } => exists|
                deliveries: Seq<Delivery>,
                outcome: SendOutcome,
            |
                {
                    &&& before.next_event_id < u64::MAX ==> before.reaches_followers(
                        topic@,
                        deliveries,
                    )
                    &&& after == #[trigger] before.publish(
                        id.0,
                        request_id,
                        topic@,
                        wire::bytes_of(payload),
                        deliveries,
                        outcome,
                    )
                },
            BrokerCommand::Remove { id } => after == before.forget(id.0),
        }
    }
}

/// The topic is one of the topics.
spec fn named_in(topics: Seq<Topic>, topic: Seq<char>) -> bool {
    exists|i: int| 0 <= i < topics.len() && (#[trigger] topics[i])@ == topic
}

/// A registered connection.
struct Subscriber {
    /// The topics that it follows, each once.
    topics: Vec<Topic>,
    peer: Peer,
}

impl Subscriber {
    spec fn follows(self, topic: Seq<char>) -> bool {
        named_in(self.topics@, topic)
    }

    spec fn followed(self) -> Set<Seq<char>> {
        Set::new(|topic: Seq<char>| self.follows(topic))
    }

    spec fn member(self) -> Member {
        Member { topics: self.followed(), reach: self.peer.reach() }
    }
}

/// Keeps connections by number and, for each topic, the numbers of those that follow it.
pub struct Broker {
    connections: HashMap<u64, Subscriber>,
    index: StringHashMap<Vec<u64>>,
    next_event_id: u64,
    log: Log,
}

impl View for Broker {
    type V = BrokerState;

    closed spec fn view(&self) -> BrokerState {
        BrokerState {
            members: self.connections@.map_values(|subscriber: Subscriber| subscriber.member()),
            next_event_id: self.next_event_id,
            effects: self.log@,
        }
    }
}

spec fn listed(index: Map<Seq<char>, Vec<u64>>, topic: Seq<char>, id: u64) -> bool {
    index.contains_key(topic) && index[topic]@.contains(id)
}

spec fn following(connections: Map<u64, Subscriber>, topic: Seq<char>, id: u64) -> bool {
    connections.contains_key(id) && connections[id].follows(topic)
}

/// No topic is listed without members, and no member of a topic twice.
spec fn index_well_formed(index: Map<Seq<char>, Vec<u64>>) -> bool {
    forall|topic: Seq<char>| #[trigger]
        index.contains_key(topic) ==> index[topic]@.no_duplicates() && index[topic]@.len() > 0
}

/// The members of a topic are the connections that follow it.
spec fn consistent(index: Map<Seq<char>, Vec<u64>>, connections: Map<u64, Subscriber>) -> bool {
    forall|topic: Seq<char>, id: u64| #[trigger]
        listed(index, topic, id) == following(connections, topic, id)
}

/// No connection keeps a topic twice.
spec fn topics_kept_once(connections: Map<u64, Subscriber>) -> bool {
    forall|id: u64, i: int, j: int|
        #![trigger connections[id].topics@[i], connections[id].topics@[j]]
        connections.contains_key(id) && 0 <= i < j < connections[id].topics@.len()
            ==> connections[id].topics@[i]@ != connections[id].topics@[j]@
}

/// Each connection is reached under its own number, and the record tells of what is done to it.
spec fn reached_by_number(connections: Map<u64, Subscriber>, home: int) -> bool {
    forall|id: u64| #[trigger]
        connections.contains_key(id) ==> connections[id].peer.id() == id
            && connections[id].peer.home() == home
}

/// The topic is one of the topics.
fn has_topic(topics: &Vec<Topic>, topic: &Topic) -> (found: bool)
    ensures
        found == named_in(topics@, topic@),
{
    for i in 0..topics.len()
        invariant
            forall|k: int| 0 <= k < i ==> (#[trigger] topics@[k])@ != topic@,
    {
        if topics[i].same_as(topic) {
            return true;
        }
    }
    false
}

proof fn follows_after_push(before: Subscriber, after: Subscriber, name: Seq<char>, known: bool)
    requires
        known ==> before.follows(name) && after.topics@ == before.topics@,
        !known ==> after.topics@.len() == before.topics@.len() + 1 && after.topics@.drop_last()
            =~= before.topics@ && after.topics@.last()@ == name,
    ensures
        after.followed() =~= before.followed().insert(name),
{
    assert forall|topic: Seq<char>| after.follows(topic) <==> before.follows(topic) || topic
        == name by {
        if before.follows(topic) {
            let i = choose|i: int|
                0 <= i < before.topics@.len() && (#[trigger] before.topics@[i])@ == topic;
            assert(before.topics@[i] == after.topics@[i]);
        }
        if after.follows(topic) {
            let i = choose|i: int|
                0 <= i < after.topics@.len() && (#[trigger] after.topics@[i])@ == topic;
            if i < before.topics@.len() {
                assert(before.topics@[i] == after.topics@[i]);
            }
        }
        if !known && topic == name {
            assert(after.topics@[after.topics@.len() - 1]@ == name);
        }
    }
}

proof fn one_more_topic(topics: Seq<Topic>, i: int, topic: Seq<char>)
    requires
        0 <= i < topics.len(),
    ensures
        named_in(topics.take(i + 1), topic) <==> named_in(topics.take(i), topic) || topics[i]@
            == topic,
{
    let longer = topics.take(i + 1);
    let shorter = topics.take(i);
    if named_in(shorter, topic) {
        let k = choose|k: int| 0 <= k < shorter.len() && (#[trigger] shorter[k])@ == topic;
        assert(longer[k] == shorter[k]);
    }
    if named_in(longer, topic) {
        let k = choose|k: int| 0 <= k < longer.len() && (#[trigger] longer[k])@ == topic;
        if k < i {
            assert(shorter[k] == longer[k]);
        }
    }
    assert(longer[i] == topics[i]);
}

proof fn one_more_delivery(deliveries: Seq<Delivery>, i: int)
    requires
        0 <= i < deliveries.len(),
    ensures
        broker_state::taken(deliveries.take(i + 1)) == broker_state::taken(deliveries.take(i)) + (
        if deliveries[i].outcome is Sent {
            1int
        } else {
            0int
        }),
        broker_state::unreachable(deliveries.take(i + 1)) == if deliveries[i].outcome is Sent {
            broker_state::unreachable(deliveries.take(i))
        } else {
            broker_state::unreachable(deliveries.take(i)).insert(deliveries[i].id.0)
        },
{
    let longer = deliveries.take(i + 1);
    let shorter = deliveries.take(i);
    assert(longer.drop_last() =~= shorter);
    assert(longer.last() == deliveries[i]);
    reveal_with_fuel(Seq::filter, 2);
    let expected = if deliveries[i].outcome is Sent {
        broker_state::unreachable(shorter)
    } else {
        broker_state::unreachable(shorter).insert(deliveries[i].id.0)
    };
    assert forall|id: u64| broker_state::unreachable(longer).contains(id) == expected.contains(
        id,
    ) by {
        if broker_state::unreachable(shorter).contains(id) {
            let k = choose|k: int|
                0 <= k < shorter.len() && (#[trigger] shorter[k]).id.0 == id && !(
                shorter[k].outcome is Sent);
            assert(longer[k] == shorter[k]);
        }
        if broker_state::unreachable(longer).contains(id) {
            let k = choose|k: int|
                0 <= k < longer.len() && (#[trigger] longer[k]).id.0 == id && !(
                longer[k].outcome is Sent);
            if k < i {
                assert(longer[k] == shorter[k]);
            }
        }
        assert(longer[i] == deliveries[i]);
    }
    assert(broker_state::unreachable(longer) =~= expected);
}

/// The members without one of them.
fn without(members: &Vec<u64>, id: u64) -> (rest: Vec<u64>)
    requires
        members@.no_duplicates(),
    ensures
        rest@.no_duplicates(),
        forall|member: u64| #[trigger]
            rest@.contains(member) <==> members@.contains(member) && member != id,
{
    let mut rest: Vec<u64> = Vec::new();
    for i in 0..members.len()
        invariant
            members@.no_duplicates(),
            rest@.no_duplicates(),
            forall|k: int|
                0 <= k < rest@.len() ==> #[trigger] rest@[k] != id && members@.take(
                    i as int,
                ).contains(rest@[k]),
            forall|k: int|
                0 <= k < i && members@[k] != id ==> rest@.contains(#[trigger] members@[k]),
    {
        let ghost before = rest@;
        let member: u64 = members[i];
        proof {
            assert(!members@.take(i as int).contains(member));
            assert forall|m: u64| members@.take(i as int).contains(m) implies members@.take(
                i + 1,
            ).contains(m) by {
                let k = choose|k: int| 0 <= k < i && members@.take(i as int)[k] == m;
                assert(members@.take(i + 1)[k] == m);
            }
            assert(members@.take(i + 1)[i as int] == member);
        }
        if member != id {
            rest.push(member);
            proof {
                assert forall|m: u64| before.contains(m) implies rest@.contains(m) by {
                    let k = choose|k: int| 0 <= k < before.len() && before[k] == m;
                    assert(rest@[k] == m);
                }
                assert(rest@[before.len() as int] == member);
            }
        }
    }
    proof {
        assert(members@.take(members@.len() as int) =~= members@);
        assert forall|m: u64| members@.contains(m) && m != id implies #[trigger] rest@.contains(
            m,
        ) by {
            let k = choose|k: int| 0 <= k < members@.len() && members@[k] == m;
            assert(rest@.contains(members@[k]));
        }
    }
    rest
}

impl Broker {
    /// The members of a topic are the connections that follow it, each once. A topic that nobody
    /// follows is not listed. The record tells of all that was done to connections.
    pub closed spec fn well_formed(self) -> bool {
        &&& index_well_formed(self.index@)
        &&& consistent(self.index@, self.connections@)
        &&& topics_kept_once(self.connections@)
        &&& reached_by_number(self.connections@, self.log.home())
        &&& self.log.open() == 0
    }

    /// A broker that nobody has connected to.
    pub fn new() -> (broker: Self)
        ensures
            broker.well_formed(),
            broker@ == BrokerState::initial(),
    {
        let broker = Broker {
            connections: HashMap::new(),
            index: StringHashMap::new(),
            next_event_id: 1,
            log: Log::new(),
        };
        assert(broker@.members =~= Map::empty());
        broker
    }

    /// The mathematical value of a broker leaves nothing out: it holds all of the record, the next
    /// number, every connection with its queue and token, and every topic that is kept for it.
    proof fn is_seen_whole(&self, id: u64, topic: Seq<char>)
        ensures
            self@.effects == self.log@,
            self@.next_event_id == self.next_event_id,
            self@.members.contains_key(id) <==> self.connections@.contains_key(id),
            self.connections@.contains_key(id) ==> {
                &&& self@.members[id].reach == self.connections@[id].peer.reach()
                &&& self@.members[id].topics.contains(topic) <==> exists|i: int|
                    0 <= i < self.connections@[id].topics@.len() && (
                    #[trigger] self.connections@[id].topics@[i])@ == topic
            },
    {
    }

    /// Only finitely many connections are registered at a time.
    pub proof fn connections_are_finite(&self)
        ensures
            self@.members.dom().finite(),
    {
        assert(self@.members.dom() =~= self.connections@.dom());
    }

    /// Takes a connection off the lists of the topics that it followed.
    fn remove_memberships(&mut self, id: u64, topics: Vec<Topic>)
        requires
            index_well_formed(old(self).index@),
        ensures
            index_well_formed(final(self).index@),
            final(self).connections == old(self).connections,
            final(self).next_event_id == old(self).next_event_id,
            final(self).log == old(self).log,
            forall|topic: Seq<char>, member: u64| #[trigger]
                listed(final(self).index@, topic, member) <==> {
                    &&& listed(old(self).index@, topic, member)
                    &&& !(member == id && named_in(topics@, topic))
                },
    {
        for i in 0..topics.len()
            invariant
                index_well_formed(self.index@),
                self.connections == old(self).connections,
                self.next_event_id == old(self).next_event_id,
                self.log == old(self).log,
                forall|topic: Seq<char>, member: u64| #[trigger]
                    listed(self.index@, topic, member) <==> {
                        &&& listed(old(self).index@, topic, member)
                        &&& !(member == id && named_in(topics@.take(i as int), topic))
                    },
        {
            let ghost before = self.index@;
            let name: &str = topics[i].as_str();
            let ghost mut kept: Seq<u64> = Seq::empty();
            let rest: Option<Vec<u64>> = match self.index.get(name) {
                Some(members) => Some(without(members, id)),
                None => None,
            };
            if let Some(rest) = rest {
                proof {
                    kept = rest@;
                }
                if rest.len() == 0 {
                    self.index.remove(name);
                } else {
                    self.index.insert(topics[i].clone().into_string(), rest);
                }
            }
            assert forall|topic: Seq<char>, member: u64| #[trigger]
                listed(self.index@, topic, member) <==> {
                    &&& listed(old(self).index@, topic, member)
                    &&& !(member == id && named_in(topics@.take(i + 1), topic))
                } by {
                one_more_topic(topics@, i as int, topic);
                assert(listed(before, topic, member) <==> {
                    &&& listed(old(self).index@, topic, member)
                    &&& !(member == id && named_in(topics@.take(i as int), topic))
                });
                if topic == name@ {
                    assert(kept.contains(member) <==> listed(before, topic, member) && member
                        != id);
                    assert(kept.contains(member) <==> listed(self.index@, topic, member));
                }
            }
        }
        assert(topics@.take(topics@.len() as int) =~= topics@);
    }

    /// Forgets a connection and all that it followed.
    fn remove_connection(&mut self, id: u64)
        requires
            old(self).well_formed(),
        ensures
            final(self).well_formed(),
            final(self)@ == old(self)@.forget(id),
            final(self).connections@ == old(self).connections@.remove(id),
    {
        match self.connections.remove(&id) {
            Some(subscriber) => {
                let ghost removed = subscriber;
                self.remove_memberships(id, subscriber.topics);
                proof {
                    assert forall|topic: Seq<char>, member: u64| #[trigger]
                        listed(self.index@, topic, member) == following(
                            self.connections@,
                            topic,
                            member,
                        ) by {
                        assert(listed(old(self).index@, topic, member) == following(
                            old(self).connections@,
                            topic,
                            member,
                        ));
                        if member == id {
                            assert(following(old(self).connections@, topic, id)
                                == removed.follows(topic));
                        }
                    }
                }
            },
            None => {
                assert(old(self).connections@.remove(id) =~= old(self).connections@);
            },
        }
        assert(self@.members =~= old(self)@.forget(id).members);
    }

    /// Drops a connection whose queue did not take a message.
    pub(crate) fn conclude(&mut self, id: ConnectionId, outcome: SendOutcome)
        requires
            old(self).well_formed(),
        ensures
            final(self).well_formed(),
            final(self)@ == old(self)@.conclude(id.0, outcome),
    {
        match outcome {
            SendOutcome::Sent => {},
            SendOutcome::Full | SendOutcome::Closed => {
                self.remove_connection(id.0);
            },
        }
    }

    /// Offers a message to a registered connection, and tells the connection to close if its
    /// queue is full.
    fn offer(&mut self, id: u64, message: ServerMessage) -> (outcome: SendOutcome)
        requires
            old(self).well_formed(),
            old(self)@.connected(id),
        ensures
            final(self).well_formed(),
            final(self)@ == old(self)@.offer(id, message@, outcome),
            final(self).connections == old(self).connections,
            final(self).index == old(self).index,
    {
        match self.connections.get(&id) {
            Some(subscriber) => {
                let outcome: SendOutcome = subscriber.peer.offer(message, &mut self.log);
                match outcome {
                    SendOutcome::Full => subscriber.peer.close(&mut self.log),
                    SendOutcome::Sent | SendOutcome::Closed => {},
                }
                outcome
            },
            None => SendOutcome::Closed,
        }
    }

    /// Sends a message to a connection, if it is registered, and drops the connection if its
    /// queue does not take the message.
    fn send_or_remove(&mut self, id: u64, message: ServerMessage)
        requires
            old(self).well_formed(),
        ensures
            final(self).well_formed(),
            exists|outcome: SendOutcome| final(self)@ == old(self)@.send(id, message@, outcome),
    {
        if self.connections.contains_key(&id) {
            let outcome: SendOutcome = self.offer(id, message);
            self.conclude(ConnectionId(id), outcome);
            assert(self@ == old(self)@.send(id, message@, outcome));
        } else {
            assert(self@ == old(self)@.send(id, message@, SendOutcome::Closed));
        }
    }

    /// Enters a connection and answers that it is ready.
    fn register(
        &mut self,
        id: ConnectionId,
        request_id: u32,
        handles: Handles,
    )
        requires
            old(self).well_formed(),
        ensures
            final(self).well_formed(),
            exists|outcome: SendOutcome| final(self)@ == old(self)@.register(
                id.0,
                request_id,
                handles@,
                outcome,
            ),
    {
        if let Some(previous) = self.connections.get(&id.0) {
            previous.peer.close(&mut self.log);
            self.remove_connection(id.0);
        }
        let ghost vacated = *self;
        let entry = Subscriber {
            topics: Vec::new(),
            peer: Peer::new(id.0, handles, &self.log),
        };
        let ghost entered_as = Member { topics: Set::empty(), reach: handles@ };
        assert(entry.member() =~= entered_as);
        self.connections.insert(id.0, entry);
        proof {
            assert forall|topic: Seq<char>, member: u64| #[trigger]
                listed(self.index@, topic, member) == following(
                    self.connections@,
                    topic,
                    member,
                ) by {
                assert(listed(vacated.index@, topic, member) == following(
                    vacated.connections@,
                    topic,
                    member,
                ));
            }
            assert(self@.members =~= old(self)@.members.insert(id.0, entered_as));
        }
        let ghost entered = self@;
        let message = ServerMessage::Ready { request_id, connection_id: id.0 };
        self.send_or_remove(id.0, message);
        proof {
            let outcome = choose|outcome: SendOutcome| self@ == entered.send(
                id.0,
                message@,
                outcome,
            );
            assert(self@ == old(self)@.register(
                id.0,
                request_id,
                handles@,
                outcome,
            ));
        }
    }

    /// Lists a connection under a topic and answers that it follows the topic.
    fn subscribe(&mut self, id: ConnectionId, request_id: u32, topic: Topic)
        requires
            old(self).well_formed(),
        ensures
            final(self).well_formed(),
            exists|outcome: SendOutcome| final(self)@ == old(self)@.subscribe(
                id.0,
                request_id,
                topic@,
                outcome,
            ),
    {
        match self.connections.remove(&id.0) {
            None => {
                assert(old(self).connections@.remove(id.0) =~= old(self).connections@);
                assert(self@ == old(self)@.subscribe(
                    id.0,
                    request_id,
                    topic@,
                    SendOutcome::Closed,
                ));
                return;
            },
            Some(subscriber) => {
                let ghost name = topic@;
                let ghost entry = subscriber;
                let mut subscriber = subscriber;
                let known: bool = has_topic(&subscriber.topics, &topic);
                if !known {
                    subscriber.topics.push(topic.clone());
                }
                let ghost extended = subscriber;
                assert(extended.followed() =~= entry.followed().insert(name)) by {
                    follows_after_push(entry, extended, name, known);
                }
                self.connections.insert(id.0, subscriber);
                self.list(id.0, topic);
                proof {
                    assert forall|other: Seq<char>, member: u64| #[trigger]
                        listed(self.index@, other, member) == following(
                            self.connections@,
                            other,
                            member,
                        ) by {
                        assert(listed(old(self).index@, other, member) == following(
                            old(self).connections@,
                            other,
                            member,
                        ));
                        assert(extended.followed().contains(other) == extended.follows(other));
                        assert(entry.followed().contains(other) == entry.follows(other));
                    }
                    assert(self@.members =~= old(self)@.members.insert(
                        id.0,
                        Member {
                            topics: old(self)@.members[id.0].topics.insert(name),
                            ..old(self)@.members[id.0]
                        },
                    ));
                }
                let ghost following = self@;
                let message = ServerMessage::Ack {
                    request_id,
                    acknowledged_kind: SUBSCRIBE,
                    event_id: 0,
                    matched: 0,
                    enqueued: 0,
                    evicted: 0,
                };
                self.send_or_remove(id.0, message);
                proof {
                    let outcome = choose|outcome: SendOutcome| self@ == following.send(
                        id.0,
                        message@,
                        outcome,
                    );
                    assert(self@ == old(self)@.subscribe(id.0, request_id, name, outcome));
                }
            },
        }
    }

    /// Adds a connection to the members of a topic.
    fn list(&mut self, id: u64, topic: Topic)
        requires
            index_well_formed(old(self).index@),
        ensures
            index_well_formed(final(self).index@),
            final(self).connections == old(self).connections,
            final(self).next_event_id == old(self).next_event_id,
            final(self).log == old(self).log,
            forall|other: Seq<char>, member: u64| #[trigger]
                listed(final(self).index@, other, member) <==> listed(
                    old(self).index@,
                    other,
                    member,
                ) || (other == topic@ && member == id),
    {
        let members: Vec<u64> = match self.index.get(topic.as_str()) {
            Some(members) => members.clone(),
            None => Vec::new(),
        };
        let ghost before = members@;
        assert(self.index@.contains_key(topic@) ==> before =~= self.index@[topic@]@);
        let mut members = members;
        let mut present: bool = false;
        for i in 0..members.len()
            invariant
                members@ == before,
                present <==> exists|k: int| 0 <= k < i && #[trigger] members@[k] == id,
        {
            if members[i] == id {
                present = true;
            }
        }
        if !present {
            members.push(id);
        }
        let ghost after = members@;
        assert(after.contains(id)) by {
            if !present {
                assert(after[before.len() as int] == id);
            }
        }
        assert forall|member: u64| #[trigger] after.contains(member) <==> before.contains(member)
            || member == id by {
            if before.contains(member) {
                let k = choose|k: int| 0 <= k < before.len() && before[k] == member;
                assert(after[k] == member);
            }
        }
        self.index.insert(topic.into_string(), members);
    }

    /// The connections that follow a topic.
    pub fn recipients(&self, topic: &Topic) -> (recipients: Vec<u64>)
        requires
            self.well_formed(),
        ensures
            recipients@.no_duplicates(),
            recipients@.to_set() == self@.followers(topic@),
    {
        let recipients: Vec<u64> = match self.index.get(topic.as_str()) {
            Some(members) => members.clone(),
            None => Vec::new(),
        };
        proof {
            if self.index@.contains_key(topic@) {
                assert(recipients@ =~= self.index@[topic@]@);
            }
            assert forall|id: u64| recipients@.to_set().contains(id) == self@.followers(
                topic@,
            ).contains(id) by {
                assert(listed(self.index@, topic@, id) == following(
                    self.connections@,
                    topic@,
                    id,
                ));
            }
            assert(recipients@.to_set() =~= self@.followers(topic@));
        }
        recipients
    }

    /// Offers an event to each recipient in turn, and reports what became of it.
    fn deliver(&mut self, recipients: &Vec<u64>, event_id: u64, topic: &Topic, payload: &Bytes) -> (
    deliveries: Vec<Delivery>)
        requires
            old(self).well_formed(),
            forall|i: int|
                0 <= i < recipients@.len() ==> old(self)@.connected(#[trigger] recipients@[i]),
        ensures
            final(self).well_formed(),
            deliveries@.map_values(|delivery: Delivery| delivery.id.0) == recipients@,
            final(self)@ == old(self)@.deliver(
                message::ServerFrame::Event {
                    event_id,
                    topic: topic@,
                    payload: wire::bytes_of(*payload),
                },
                deliveries@,
            ),
    {
        let ghost event = message::ServerFrame::Event {
            event_id,
            topic: topic@,
            payload: wire::bytes_of(*payload),
        };
        let mut deliveries: Vec<Delivery> = Vec::new();
        for i in 0..recipients.len()
            invariant
                self.well_formed(),
                self.connections == old(self).connections,
                self@.members == old(self)@.members,
                forall|k: int|
                    0 <= k < recipients@.len() ==> old(self)@.connected(#[trigger] recipients@[k]),
                deliveries@.len() == i,
                forall|k: int|
                    0 <= k < i ==> (#[trigger] deliveries@[k]).id.0 == recipients@[k],
                event == (message::ServerFrame::Event {
                    event_id,
                    topic: topic@,
                    payload: wire::bytes_of(*payload),
                }),
                self@ == old(self)@.deliver(event, deliveries@),
        {
            let ghost before = deliveries@;
            let id: u64 = recipients[i];
            assert(old(self)@.connected(recipients@[i as int]));
            let message = ServerMessage::Event {
                event_id,
                topic: topic.clone(),
                payload: payload.clone(),
            };
            let outcome: SendOutcome = self.offer(id, message);
            deliveries.push(Delivery { id: ConnectionId(id), outcome });
            assert(deliveries@.drop_last() =~= before);
        }
        assert(deliveries@.map_values(|delivery: Delivery| delivery.id.0) =~= recipients@);
        deliveries
    }

    /// Drops the connections that an event could not be delivered to, and counts those that took
    /// it and those that did not.
    pub(crate) fn settle(&mut self, deliveries: &Vec<Delivery>) -> (counts: (usize, usize))
        requires
            old(self).well_formed(),
        ensures
            final(self).well_formed(),
            final(self)@ == old(self)@.evict(deliveries@),
            counts.0 == broker_state::taken(deliveries@),
            counts.1 == deliveries@.len() - broker_state::taken(deliveries@),
    {
        let mut enqueued: usize = 0;
        let mut evicted: usize = 0;
        assert(deliveries@.take(0) =~= Seq::empty());
        assert(self@.members =~= old(self)@.evict(deliveries@.take(0)).members);
        assert(broker_state::taken(deliveries@.take(0)) == 0) by {
            reveal_with_fuel(Seq::filter, 1);
        }
        for i in 0..deliveries.len()
            invariant
                self.well_formed(),
                self@ == old(self)@.evict(deliveries@.take(i as int)),
                enqueued == broker_state::taken(deliveries@.take(i as int)),
                enqueued + evicted == i,
        {
            let ghost before = self@;
            let delivery: Delivery = deliveries[i];
            self.conclude(delivery.id, delivery.outcome);
            match delivery.outcome {
                SendOutcome::Sent => {
                    enqueued = enqueued + 1;
                },
                SendOutcome::Full | SendOutcome::Closed => {
                    evicted = evicted + 1;
                },
            }
            proof {
                one_more_delivery(deliveries@, i as int);
                assert(self@.members =~= old(self)@.evict(deliveries@.take(i + 1)).members);
            }
        }
        assert(deliveries@.take(deliveries@.len() as int) =~= deliveries@);
        (enqueued, evicted)
    }

    /// Gives out the next event number, unless it is the last.
    pub(crate) fn next_event_id(&mut self) -> (event_id: Option<u64>)
        requires
            old(self).well_formed(),
        ensures
            final(self).well_formed(),
            match event_id {
                Some(event_id) => {
                    &&& event_id < u64::MAX
                    &&& event_id == old(self)@.next_event_id
                    &&& final(self)@ == BrokerState {
                        next_event_id: (event_id + 1) as u64,
                        ..old(self)@
                    }
                },
                None => old(self)@.next_event_id == u64::MAX && final(self)@ == old(self)@,
            },
    {
        if self.next_event_id == u64::MAX {
            return None;
        }
        let event_id: u64 = self.next_event_id;
        self.next_event_id = event_id + 1;
        Some(event_id)
    }

    /// Numbers an event, offers it to the followers of its topic, drops those that could not
    /// take it, and acknowledges it to the publisher.
    fn publish(&mut self, publisher: ConnectionId, request_id: u32, topic: Topic, payload: Bytes)
        requires
            old(self).well_formed(),
        ensures
            final(self).well_formed(),
            exists|deliveries: Seq<Delivery>, outcome: SendOutcome|
                {
                    &&& old(self)@.next_event_id < u64::MAX ==> old(self)@.reaches_followers(
                        topic@,
                        deliveries,
                    )
                    &&& final(self)@ == #[trigger] old(self)@.publish(
                        publisher.0,
                        request_id,
                        topic@,
                        wire::bytes_of(payload),
                        deliveries,
                        outcome,
                    )
                },
    {
        let recipients: Vec<u64> = self.recipients(&topic);
        let event_id: u64 = match self.next_event_id() {
            Some(event_id) => event_id,
            None => {
                let message = ServerMessage::Error {
                    request_id,
                    code: ErrorCode::EventIdExhausted,
                    detail: "event ID space is exhausted",
                };
                self.send_or_remove(publisher.0, message);
                proof {
                    let outcome = choose|outcome: SendOutcome| self@ == old(self)@.send(
                        publisher.0,
                        message@,
                        outcome,
                    );
                    assert(self@ == old(self)@.publish(
                        publisher.0,
                        request_id,
                        topic@,
                        wire::bytes_of(payload),
                        Seq::empty(),
                        outcome,
                    ));
                }
                return;
            },
        };
        let matched: u16 = count(recipients.len());
        assert forall|i: int| 0 <= i < recipients@.len() implies self@.connected(
            #[trigger] recipients@[i],
        ) by {
            assert(recipients@.to_set().contains(recipients@[i]));
        }
        let deliveries: Vec<Delivery> = self.deliver(&recipients, event_id, &topic, &payload);
        let (enqueued, evicted) = self.settle(&deliveries);
        let ghost settled = self@;
        let message = ServerMessage::Ack {
            request_id,
            acknowledged_kind: PUBLISH,
            event_id,
            matched,
            enqueued: count(enqueued),
            evicted: count(evicted),
        };
        self.send_or_remove(publisher.0, message);
        proof {
            let outcome = choose|outcome: SendOutcome| self@ == settled.send(
                publisher.0,
                message@,
                outcome,
            );
            assert(self@ == old(self)@.publish(
                publisher.0,
                request_id,
                topic@,
                wire::bytes_of(payload),
                deliveries@,
                outcome,
            ));
        }
    }

    /// Carries out a command.
    pub fn handle(&mut self, command: BrokerCommand)
        requires
            old(self).well_formed(),
        ensures
            final(self).well_formed(),
            command.carried_out(old(self)@, final(self)@),
            command matches BrokerCommand::Register { id, handles, .. }
                ==> final(self)@.connected(id.0)
                ==> final(self)@.queue_of(id.0) == handles@.queue
                && final(self)@.token_of(id.0) == handles@.token,
            command matches BrokerCommand::Subscribe { id, topic, .. }
                ==> final(self)@.members.contains_key(id.0)
                ==> final(self)@.members[id.0].topics
                == old(self)@.members[id.0].topics.insert(topic@),
    {
        match command {
            BrokerCommand::Register { id, request_id, handles } => {
                self.register(id, request_id, handles)
            },
            BrokerCommand::Subscribe { id, request_id, topic } => {
                self.subscribe(id, request_id, topic)
            },
            BrokerCommand::Publish { id, request_id, topic, payload } => {
                self.publish(id, request_id, topic, payload)
            },
            BrokerCommand::Remove { id } => self.remove_connection(id.0),
        }
    }
}

} // verus!
