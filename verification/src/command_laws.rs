//! What each command does to the broker's connections, topics, queues and tokens, told by what is
//! there before and after.

use crate::broker::BrokerCommand;
use crate::broker_laws;
use crate::broker_state::{self, BrokerState, Delivery, Member};
use crate::channel::record::{Effect, SendOutcome};
use crate::message::ServerFrame;
use crate::wire;
use vstd::prelude::*;

verus! {

/// The connection is registered and follows the topic.
pub open spec fn follows(state: BrokerState, connection: u64, topic: Seq<char>) -> bool {
    state.members.contains_key(connection) && state.members[connection].topics.contains(topic)
}

/// A message was offered to the queue that the member is reached by. If the queue was full, the
/// member's token was cancelled after that.
pub open spec fn sent(
    id: u64,
    member: Member,
    message: ServerFrame,
    outcome: SendOutcome,
) -> Seq<Effect> {
    let offered = Effect::Offered { id, queue: member.reach.queue, message, outcome };
    if outcome == SendOutcome::Full {
        seq![offered, Effect::ForcedClose { id, token: member.reach.token }]
    } else {
        seq![offered]
    }
}

/// A broker starts with nobody registered, nothing done, and the first event number.
pub proof fn brokers_start_empty()
    ensures
        BrokerState::initial().members == Map::<u64, Member>::empty(),
        BrokerState::initial().next_event_id == 1,
        BrokerState::initial().effects == Seq::<Effect>::empty(),
{
}

/// The followers of a topic are the registered connections that have asked for it.
pub proof fn followers_have_asked(state: BrokerState, connection: u64, topic: Seq<char>)
    ensures
        state.followers(topic).contains(connection) <==> follows(state, connection, topic),
        state.connected(connection) <==> state.members.contains_key(connection),
{
}

/// A subscription takes nothing away and adds one thing: whoever is registered after it follows
/// what it followed before, and nothing else but, for the subscriber, the topic that it asked for.
/// Only the subscriber can lose its connection, and nobody gains one.
pub proof fn a_subscription_adds_one_topic(
    command: BrokerCommand,
    before: BrokerState,
    after: BrokerState,
    connection: u64,
    topic: Seq<char>,
)
    requires
        command is Subscribe,
        command.carried_out(before, after),
    ensures
        command matches BrokerCommand::Subscribe { id, topic: asked, .. } ==> {
            &&& connection != id.0 ==> (follows(after, connection, topic) <==> follows(
                before,
                connection,
                topic,
            ))
            &&& connection == id.0 && after.members.contains_key(connection) ==> (follows(
                after,
                connection,
                topic,
            ) <==> follows(before, connection, topic) || topic == asked@)
            &&& connection != id.0 ==> (after.members.contains_key(connection)
                <==> before.members.contains_key(connection))
            &&& after.members.contains_key(connection) ==> before.members.contains_key(connection)
            &&& after.members.contains_key(connection) ==> after.members[connection].reach
                == before.members[connection].reach
        },
{
}

/// A subscription is acknowledged to the subscriber, and to nobody else: one message, with the
/// number of the request, goes to the subscriber's queue. The subscriber stays registered if and
/// only if the queue takes it. A connection that is not registered is not heard.
pub proof fn a_subscription_is_acknowledged(
    command: BrokerCommand,
    before: BrokerState,
    after: BrokerState,
)
    requires
        command is Subscribe,
        command.carried_out(before, after),
    ensures
        after.next_event_id == before.next_event_id,
        command matches BrokerCommand::Subscribe { id, request_id, .. } ==> {
            &&& !before.members.contains_key(id.0) ==> after == before
            &&& before.members.contains_key(id.0) ==> exists|outcome: SendOutcome|
                {
                    &&& #[trigger] sent(
                        id.0,
                        before.members[id.0],
                        ServerFrame::Ack {
                            request_id,
                            acknowledged_kind: 2,
                            event_id: 0,
                            matched: 0,
                            enqueued: 0,
                            evicted: 0,
                        },
                        outcome,
                    ) == after.effects.skip(before.effects.len() as int)
                    &&& after.effects.take(before.effects.len() as int) == before.effects
                    &&& after.members.contains_key(id.0) <==> outcome == SendOutcome::Sent
                }
        },
{
    if let BrokerCommand::Subscribe { id, request_id, topic } = command {
        let outcome = choose|outcome: SendOutcome|
            after == before.subscribe(id.0, request_id, topic@, outcome);
        let ack = ServerFrame::Ack {
            request_id,
            acknowledged_kind: 2,
            event_id: 0,
            matched: 0,
            enqueued: 0,
            evicted: 0,
        };
        if before.members.contains_key(id.0) {
            assert(after.effects.take(before.effects.len() as int) =~= before.effects);
            assert(sent(id.0, before.members[id.0], ack, outcome) =~= after.effects.skip(
                before.effects.len() as int,
            ));
        }
    }
}

/// Whoever registers is entered under the number with the handles that it came with, follows
/// nothing, and is told so, with the number of the request and its own, on its own queue. Whoever
/// held the number before is told to close first. Nobody else is affected. The connection stays
/// registered if and only if its queue takes the message.
pub proof fn a_registration_starts_afresh(
    command: BrokerCommand,
    before: BrokerState,
    after: BrokerState,
    other: u64,
)
    requires
        command is Register,
        command.carried_out(before, after),
    ensures
        after.next_event_id == before.next_event_id,
        command matches BrokerCommand::Register { id, request_id, handles } ==> {
            let member = Member { topics: Set::empty(), reach: handles@ };
            let closed = if before.members.contains_key(id.0) {
                before.effects.push(
                    Effect::ForcedClose { id: id.0, token: before.members[id.0].reach.token },
                )
            } else {
                before.effects
            };
            &&& after.effects.take(closed.len() as int) == closed
            &&& exists|outcome: SendOutcome|
                {
                    &&& #[trigger] sent(
                        id.0,
                        member,
                        ServerFrame::Ready { request_id, connection_id: id.0 },
                        outcome,
                    ) == after.effects.skip(closed.len() as int)
                    &&& after.members.contains_key(id.0) <==> outcome == SendOutcome::Sent
                }
            &&& after.members.contains_key(id.0) ==> after.members[id.0] == member
            &&& other != id.0 ==> (after.members.contains_key(other)
                <==> before.members.contains_key(other))
            &&& other != id.0 && before.members.contains_key(other) ==> after.members[other]
                == before.members[other]
        },
{
    if let BrokerCommand::Register { id, request_id, handles } = command {
        let outcome = choose|outcome: SendOutcome|
            after == before.register(id.0, request_id, handles@, outcome);
        let member = Member { topics: Set::empty(), reach: handles@ };
        let closed = if before.members.contains_key(id.0) {
            before.effects.push(
                Effect::ForcedClose { id: id.0, token: before.members[id.0].reach.token },
            )
        } else {
            before.effects
        };
        let ready = ServerFrame::Ready { request_id, connection_id: id.0 };
        assert(after.effects.take(closed.len() as int) =~= closed);
        assert(sent(id.0, member, ready, outcome) =~= after.effects.skip(closed.len() as int));
    }
}

/// A removal takes out the connection, if it is registered, and changes nothing else.
pub proof fn a_removal_takes_out_one_connection(
    command: BrokerCommand,
    before: BrokerState,
    after: BrokerState,
    connection: u64,
)
    requires
        command is Remove,
        command.carried_out(before, after),
    ensures
        after.next_event_id == before.next_event_id,
        after.effects == before.effects,
        command matches BrokerCommand::Remove { id } ==> {
            &&& after.members.contains_key(connection) <==> before.members.contains_key(connection)
                && connection != id.0
            &&& after.members.contains_key(connection) ==> after.members[connection]
                == before.members[connection]
        },
{
}

/// The deliveries name each follower of the topic once, and nobody else.
pub open spec fn one_for_each_follower(
    state: BrokerState,
    topic: Seq<char>,
    deliveries: Seq<Delivery>,
) -> bool {
    &&& forall|i: int, j: int|
        0 <= i < j < deliveries.len() ==> (#[trigger] deliveries[i]).id.0 != (
        #[trigger] deliveries[j]).id.0
    &&& forall|i: int|
        0 <= i < deliveries.len() ==> follows(state, (#[trigger] deliveries[i]).id.0, topic)
    &&& forall|connection: u64| #[trigger]
        follows(state, connection, topic) ==> exists|i: int|
            0 <= i < deliveries.len() && (#[trigger] deliveries[i]).id.0 == connection
}

/// The event went to the queue of each recipient in turn.
pub open spec fn all_sent(
    state: BrokerState,
    event: ServerFrame,
    deliveries: Seq<Delivery>,
) -> Seq<Effect>
    decreases deliveries.len(),
{
    if deliveries.len() == 0 {
        Seq::empty()
    } else {
        all_sent(state, event, deliveries.drop_last()) + sent(
            deliveries.last().id.0,
            state.members[deliveries.last().id.0],
            event,
            deliveries.last().outcome,
        )
    }
}

/// How many of the deliveries the queues took.
pub open spec fn sent_count(deliveries: Seq<Delivery>) -> int
    decreases deliveries.len(),
{
    if deliveries.len() == 0 {
        0
    } else {
        sent_count(deliveries.drop_last()) + if deliveries.last().outcome == SendOutcome::Sent {
            1int
        } else {
            0int
        }
    }
}

/// One of the deliveries is to the connection, and its queue did not take it.
pub open spec fn missed(deliveries: Seq<Delivery>, connection: u64) -> bool {
    exists|i: int|
        {
            &&& 0 <= i < deliveries.len()
            &&& (#[trigger] deliveries[i]).id.0 == connection
            &&& deliveries[i].outcome != SendOutcome::Sent
        }
}

/// The number, or the largest that two bytes hold.
pub open spec fn capped(number: int) -> u16 {
    if number < 65536 {
        number as u16
    } else {
        65535
    }
}

/// What one publication does, given what became of the event at each follower and of the
/// acknowledgement.
pub open spec fn published(
    before: BrokerState,
    after: BrokerState,
    publisher: u64,
    request_id: u32,
    topic: Seq<char>,
    payload: Seq<u8>,
    deliveries: Seq<Delivery>,
    outcome: SendOutcome,
) -> bool {
    let event = ServerFrame::Event { event_id: before.next_event_id, topic, payload };
    let ack = ServerFrame::Ack {
        request_id,
        acknowledged_kind: 4,
        event_id: before.next_event_id,
        matched: capped(deliveries.len() as int),
        enqueued: capped(sent_count(deliveries)),
        evicted: capped(deliveries.len() - sent_count(deliveries)),
    };
    let told = before.members.contains_key(publisher) && !missed(deliveries, publisher);
    &&& one_for_each_follower(before, topic, deliveries)
    &&& after.next_event_id == before.next_event_id + 1
    &&& after.effects == before.effects + all_sent(before, event, deliveries) + if told {
        sent(publisher, before.members[publisher], ack, outcome)
    } else {
        Seq::empty()
    }
    &&& forall|connection: u64| #[trigger]
        after.members.contains_key(connection) <==> {
            &&& before.members.contains_key(connection)
            &&& !missed(deliveries, connection)
            &&& !(told && connection == publisher && outcome != SendOutcome::Sent)
        }
    &&& forall|connection: u64| #[trigger]
        after.members.contains_key(connection) ==> after.members[connection]
            == before.members[connection]
}

proof fn deliveries_are_told(state: BrokerState, event: ServerFrame, deliveries: Seq<Delivery>)
    ensures
        state.deliver(event, deliveries).effects == state.effects + all_sent(
            state,
            event,
            deliveries,
        ),
    decreases deliveries.len(),
{
    if deliveries.len() > 0 {
        let front = deliveries.drop_last();
        deliveries_are_told(state, event, front);
        broker_laws::delivering_keeps_connections(state, event, front);
    }
    assert(state.deliver(event, deliveries).effects =~= state.effects + all_sent(
        state,
        event,
        deliveries,
    ));
}

proof fn deliveries_are_counted(deliveries: Seq<Delivery>)
    ensures
        broker_state::taken(deliveries) == sent_count(deliveries),
        0 <= sent_count(deliveries) <= deliveries.len(),
    decreases deliveries.len(),
{
    reveal_with_fuel(Seq::filter, 2);
    if deliveries.len() > 0 {
        deliveries_are_counted(deliveries.drop_last());
    }
}

proof fn all_sent_ignores_the_number(
    one: BrokerState,
    other: BrokerState,
    event: ServerFrame,
    deliveries: Seq<Delivery>,
)
    requires
        one.members == other.members,
    ensures
        all_sent(one, event, deliveries) == all_sent(other, event, deliveries),
    decreases deliveries.len(),
{
    if deliveries.len() > 0 {
        all_sent_ignores_the_number(one, other, event, deliveries.drop_last());
    }
}

/// A publication gives the event the next number and offers it, with its topic and all of its
/// payload, to the queue of everybody who follows the topic, once each, and to nobody else's. Those
/// whose queues do not take it lose their connection, and those whose queues are full are told to
/// close. The publisher, if it is still there, is then sent an acknowledgement with the number of
/// the request, the number of the event, and how many followers there were, how many took the event
/// and how many did not. Everybody else stays as they were.
pub proof fn a_publication_reaches_every_follower(
    command: BrokerCommand,
    before: BrokerState,
    after: BrokerState,
)
    requires
        command is Publish,
        command.carried_out(before, after),
        before.next_event_id < u64::MAX,
    ensures
        command matches BrokerCommand::Publish { id, request_id, topic, payload } ==> exists|
            deliveries: Seq<Delivery>,
            outcome: SendOutcome,
        | #[trigger]
            published(
                before,
                after,
                id.0,
                request_id,
                topic@,
                wire::bytes_of(payload),
                deliveries,
                outcome,
            ),
{
    if let BrokerCommand::Publish { id, request_id, topic, payload } = command {
        let bytes = wire::bytes_of(payload);
        let (deliveries, outcome) = choose|deliveries: Seq<Delivery>, outcome: SendOutcome|
            {
                &&& before.next_event_id < u64::MAX ==> before.reaches_followers(
                    topic@,
                    deliveries,
                )
                &&& after == #[trigger] before.publish(
                    id.0,
                    request_id,
                    topic@,
                    bytes,
                    deliveries,
                    outcome,
                )
            };
        let event_id = before.next_event_id;
        let event = ServerFrame::Event { event_id, topic: topic@, payload: bytes };
        let numbered = BrokerState { next_event_id: (event_id + 1) as u64, ..before };
        let delivered = numbered.deliver(event, deliveries);
        let settled = delivered.evict(deliveries);
        let recipients = deliveries.map_values(|delivery: Delivery| delivery.id.0);
        broker_laws::delivering_keeps_connections(numbered, event, deliveries);
        deliveries_are_told(numbered, event, deliveries);
        all_sent_ignores_the_number(numbered, before, event, deliveries);
        deliveries_are_counted(deliveries);
        assert(one_for_each_follower(before, topic@, deliveries)) by {
            assert forall|i: int, j: int| 0 <= i < j < deliveries.len() implies (
            #[trigger] deliveries[i]).id.0 != (#[trigger] deliveries[j]).id.0 by {
                assert(recipients[i] != recipients[j]);
            }
            assert forall|i: int| 0 <= i < deliveries.len() implies follows(
                before,
                (#[trigger] deliveries[i]).id.0,
                topic@,
            ) by {
                assert(recipients[i] == deliveries[i].id.0);
                assert(recipients.to_set().contains(recipients[i]));
            }
            assert forall|connection: u64| #[trigger]
                follows(before, connection, topic@) implies exists|i: int|
                0 <= i < deliveries.len() && (#[trigger] deliveries[i]).id.0 == connection by {
                assert(before.followers(topic@).contains(connection));
                assert(recipients.to_set().contains(connection));
                let k = choose|k: int| 0 <= k < recipients.len() && recipients[k] == connection;
                assert(deliveries[k].id.0 == connection);
            }
        }
        assert forall|connection: u64| missed(deliveries, connection)
            == broker_state::unreachable(deliveries).contains(connection) by {
            if missed(deliveries, connection) {
                let i = choose|i: int|
                    {
                        &&& 0 <= i < deliveries.len()
                        &&& (#[trigger] deliveries[i]).id.0 == connection
                        &&& deliveries[i].outcome != SendOutcome::Sent
                    };
                assert(!(deliveries[i].outcome is Sent));
            }
        }
        assert(settled.members.contains_key(id.0) <==> before.members.contains_key(id.0)
            && !missed(deliveries, id.0));
        let told = before.members.contains_key(id.0) && !missed(deliveries, id.0);
        let ack = ServerFrame::Ack {
            request_id,
            acknowledged_kind: 4,
            event_id,
            matched: capped(deliveries.len() as int),
            enqueued: capped(sent_count(deliveries)),
            evicted: capped(deliveries.len() - sent_count(deliveries)),
        };
        assert(after.effects =~= settled.effects + if told {
            sent(id.0, before.members[id.0], ack, outcome)
        } else {
            Seq::empty()
        });
        assert(published(
            before,
            after,
            id.0,
            request_id,
            topic@,
            bytes,
            deliveries,
            outcome,
        ));
    }
}

/// Once only the last number is left, a publication is answered with an error on the publisher's
/// queue, if the publisher is registered, and does nothing else.
pub proof fn a_publication_without_a_number_is_refused(
    command: BrokerCommand,
    before: BrokerState,
    after: BrokerState,
    other: u64,
)
    requires
        command is Publish,
        command.carried_out(before, after),
        before.next_event_id == u64::MAX,
    ensures
        after.next_event_id == u64::MAX,
        command matches BrokerCommand::Publish { id, request_id, .. } ==> {
            &&& !before.members.contains_key(id.0) ==> after == before
            &&& before.members.contains_key(id.0) ==> exists|outcome: SendOutcome|
                {
                    &&& after.effects == before.effects + #[trigger] sent(
                        id.0,
                        before.members[id.0],
                        ServerFrame::Error {
                            request_id,
                            code: 3,
                            detail: "event ID space is exhausted"@,
                        },
                        outcome,
                    )
                    &&& after.members.contains_key(id.0) <==> outcome == SendOutcome::Sent
                }
            &&& other != id.0 ==> (after.members.contains_key(other)
                <==> before.members.contains_key(other))
            &&& after.members.contains_key(other) ==> after.members[other] == before.members[other]
        },
{
    if let BrokerCommand::Publish { id, request_id, topic, payload } = command {
        let bytes = wire::bytes_of(payload);
        let (deliveries, outcome) = choose|deliveries: Seq<Delivery>, outcome: SendOutcome|
            after == #[trigger] before.publish(
                id.0,
                request_id,
                topic@,
                bytes,
                deliveries,
                outcome,
            );
        let error = ServerFrame::Error {
            request_id,
            code: 3,
            detail: "event ID space is exhausted"@,
        };
        if before.members.contains_key(id.0) {
            assert(after.effects =~= before.effects + sent(
                id.0,
                before.members[id.0],
                error,
                outcome,
            ));
        }
    }
}

/// Numbers are reported as they are up to the largest that two bytes hold, and as that beyond it.
pub proof fn counts_are_reported(number: nat)
    ensures
        number <= 65535 ==> broker_state::reported(number) == number,
        number > 65535 ==> broker_state::reported(number) == 65535,
{
}

/// Following lasts: what a connection follows, it follows through every command by which it does
/// not register again, for as long as it stays registered; and it comes to follow a topic only by
/// asking for it.
pub proof fn following_lasts(
    command: BrokerCommand,
    before: BrokerState,
    after: BrokerState,
    connection: u64,
    topic: Seq<char>,
)
    requires
        command.carried_out(before, after),
    ensures
        follows(before, connection, topic) && after.members.contains_key(connection) && !(
        command matches BrokerCommand::Register { id, .. } && id.0 == connection) ==> follows(
            after,
            connection,
            topic,
        ),
        follows(after, connection, topic) && !follows(before, connection, topic) ==> (
        command matches BrokerCommand::Subscribe { id, topic: asked, .. } && id.0 == connection
            && asked@ == topic),
{
    if let BrokerCommand::Publish { id, request_id, topic: under, payload } = command {
        if before.next_event_id < u64::MAX {
            a_publication_reaches_every_follower(command, before, after);
        } else {
            a_publication_without_a_number_is_refused(command, before, after, connection);
        }
    }
}

/// A connection that subscribes to one topic and then, its acknowledgements taken, to another gets
/// the events under both: the broker counts it among the followers of the first topic still.
pub proof fn later_subscriptions_keep_earlier_ones(
    first: BrokerCommand,
    second: BrokerCommand,
    before: BrokerState,
    between: BrokerState,
    after: BrokerState,
    connection: u64,
)
    requires
        first.carried_out(before, between),
        second.carried_out(between, after),
        first matches BrokerCommand::Subscribe { id, .. } && id.0 == connection,
        second matches BrokerCommand::Subscribe { id, .. } && id.0 == connection,
        after.members.contains_key(connection),
    ensures
        first matches BrokerCommand::Subscribe { topic, .. } ==> after.followers(topic@).contains(
            connection,
        ),
        second matches BrokerCommand::Subscribe { topic, .. } ==> after.followers(topic@).contains(
            connection,
        ),
{
    if let BrokerCommand::Subscribe { topic: one, .. } = first {
        if let BrokerCommand::Subscribe { topic: two, .. } = second {
            a_subscription_adds_one_topic(second, between, after, connection, one@);
            a_subscription_adds_one_topic(second, between, after, connection, two@);
            a_subscription_adds_one_topic(first, before, between, connection, one@);
        }
    }
}

} // verus!
