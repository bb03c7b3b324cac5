//! What holds of the broker across commands.

use crate::broker::BrokerCommand;
use crate::broker_state;
use crate::broker_state::{BrokerState, Delivery};
use crate::channel::record::{Effect, Reach, SendOutcome};
use crate::message;
use crate::message::ServerMessage;
use crate::protocol::Limits;
use crate::wire;
use tokio::sync::mpsc::Sender;
use vstd::prelude::*;

verus! {

/// Offering messages changes nothing but the record of what was done.
pub proof fn delivering_keeps_connections(
    state: BrokerState,
    message: message::ServerFrame,
    deliveries: Seq<Delivery>,
)
    ensures
        state.deliver(message, deliveries).members == state.members,
        state.deliver(message, deliveries).next_event_id == state.next_event_id,
    decreases deliveries.len(),
{
    if deliveries.len() > 0 {
        delivering_keeps_connections(state, message, deliveries.drop_last());
    }
}

/// A publication costs exactly those followers their connection that could not take the event.
/// All others keep their connection and all that they follow; only the publisher can lose its
/// connection besides, where its own queue does not take the acknowledgement.
pub proof fn publishing_evicts_only_the_unreachable(
    state: BrokerState,
    publisher: u64,
    request_id: u32,
    topic: Seq<char>,
    payload: Seq<u8>,
    deliveries: Seq<Delivery>,
    outcome: SendOutcome,
    id: u64,
)
    requires
        state.next_event_id < u64::MAX,
        state.reaches_followers(topic, deliveries),
    ensures
        ({
            let after = state.publish(
                publisher,
                request_id,
                topic,
                payload,
                deliveries,
                outcome,
            );
            let lost = broker_state::unreachable(deliveries).contains(id) || (id == publisher && !(
            outcome is Sent));
            &&& after.connected(id) <==> state.connected(id) && !lost
            &&& after.connected(id) ==> after.members[id] == state.members[id]
            &&& broker_state::unreachable(deliveries).contains(id) ==> state.followers(
                topic,
            ).contains(id)
        }),
{
    let event_id = state.next_event_id;
    let numbered = BrokerState { next_event_id: (event_id + 1) as u64, ..state };
    let event = message::ServerFrame::Event { event_id, topic, payload };
    delivering_keeps_connections(numbered, event, deliveries);
    if broker_state::unreachable(deliveries).contains(id) {
        let recipients = deliveries.map_values(|delivery: Delivery| delivery.id.0);
        let i = choose|i: int|
            0 <= i < deliveries.len() && (#[trigger] deliveries[i]).id.0 == id && !(
            deliveries[i].outcome is Sent);
        assert(recipients[i] == id);
        assert(recipients.to_set().contains(id));
    }
}

/// A removed connection leaves no trace, and removing it changes nothing for the others.
pub proof fn removal_is_complete(state: BrokerState, id: u64, other: u64, topic: Seq<char>)
    ensures
        !state.forget(id).connected(id),
        !state.forget(id).followers(topic).contains(id),
        other != id ==> state.forget(id).connected(other) == state.connected(other),
        other != id ==> state.forget(id).followers(topic).contains(other) == state.followers(
            topic,
        ).contains(other),
        state.forget(id).forget(id) == state.forget(id),
{
    assert(state.forget(id).forget(id) =~= state.forget(id));
}

/// A connection that registers again, under a queue and a token of its own, takes the place of its
/// predecessor: the predecessor's token is cancelled and the new one is not, the answer goes to
/// the new queue, and nothing is left of what the predecessor followed. Nobody else is affected.
pub proof fn registering_again_starts_over(
    state: BrokerState,
    id: u64,
    request_id: u32,
    reach: Reach,
    other: u64,
)
    requires
        state.connected(id),
        other != id,
    ensures
        ({
            let after = state.register(id, request_id, reach, SendOutcome::Sent);
            let ready = message::ServerFrame::Ready { request_id, connection_id: id };
            &&& after.effects == state.effects.push(
                Effect::ForcedClose { id, token: state.token_of(id) },
            ).push(
                Effect::Offered {
                    id,
                    queue: reach.queue,
                    message: ready,
                    outcome: SendOutcome::Sent,
                },
            )
            &&& after.connected(id)
            &&& after.members[id].reach == reach
            &&& after.members[id].topics == Set::<Seq<char>>::empty()
            &&& after.connected(other) == state.connected(other)
            &&& after.members[other] == state.members[other]
            &&& after.next_event_id == state.next_event_id
        }),
{
}

/// A connection is reached by the queue and the token that it registered with, for as long as it
/// stays registered and does not register again.
pub proof fn queues_and_tokens_are_kept(
    command: BrokerCommand,
    before: BrokerState,
    after: BrokerState,
    id: u64,
)
    requires
        command.carried_out(before, after),
        before.connected(id),
        after.connected(id),
        command matches BrokerCommand::Register { id: entering, .. } ==> entering.0 != id,
    ensures
        after.queue_of(id) == before.queue_of(id),
        after.token_of(id) == before.token_of(id),
{
    if let BrokerCommand::Publish { id: publisher, request_id, topic, payload } = command {
        let bytes = wire::bytes_of(payload);
        let (deliveries, outcome) = choose|deliveries: Seq<Delivery>, outcome: SendOutcome|
            after == #[trigger] before.publish(
                publisher.0,
                request_id,
                topic@,
                bytes,
                deliveries,
                outcome,
            );
        let event_id = before.next_event_id;
        let numbered = BrokerState { next_event_id: (event_id + 1) as u64, ..before };
        delivering_keeps_connections(
            numbered,
            message::ServerFrame::Event { event_id, topic: topic@, payload: bytes },
            deliveries,
        );
    }
}

/// Asking for a topic twice is the same as asking once, as far as anybody follows anything.
pub proof fn subscribing_twice_is_subscribing_once(
    state: BrokerState,
    id: u64,
    topic: Seq<char>,
    first: u32,
    second: u32,
)
    ensures
        state.subscribe(id, first, topic, SendOutcome::Sent).subscribe(
            id,
            second,
            topic,
            SendOutcome::Sent,
        ).members == state.subscribe(id, first, topic, SendOutcome::Sent).members,
{
    let once = state.subscribe(id, first, topic, SendOutcome::Sent);
    let twice = once.subscribe(id, second, topic, SendOutcome::Sent);
    if state.connected(id) {
        assert(once.members[id].topics.insert(topic) =~= once.members[id].topics);
        assert(twice.members =~= once.members);
    }
}

/// The number of followers that an event was offered to.
proof fn deliveries_are_bounded(state: BrokerState, topic: Seq<char>, deliveries: Seq<Delivery>)
    requires
        state.members.dom().finite(),
        state.reaches_followers(topic, deliveries),
    ensures
        deliveries.len() <= state.members.len(),
{
    let recipients = deliveries.map_values(|delivery: Delivery| delivery.id.0);
    recipients.unique_seq_to_set();
    assert(state.followers(topic).subset_of(state.members.dom()));
    vstd::set_lib::lemma_len_subset(state.followers(topic), state.members.dom());
}

/// No more followers are reported to have taken an event than were matched. Under valid limits
/// the three counts of an acknowledgement are exact, and each matched follower either took the
/// event or was evicted.
pub proof fn acknowledged_counts_add_up(
    state: BrokerState,
    topic: Seq<char>,
    deliveries: Seq<Delivery>,
    limits: Limits,
)
    requires
        state.members.dom().finite(),
        state.reaches_followers(topic, deliveries),
    ensures
        ({
            let matched = broker_state::reported(deliveries.len());
            let enqueued = broker_state::reported(broker_state::taken(deliveries));
            let evicted = broker_state::reported(
                (deliveries.len() - broker_state::taken(deliveries)) as nat,
            );
            &&& enqueued <= matched
            &&& evicted <= matched
            &&& limits.defect() is None && state.members.len() <= limits.max_connections ==> {
                &&& matched == state.followers(topic).len()
                &&& enqueued == broker_state::taken(deliveries)
                &&& matched == enqueued + evicted
            }
        }),
{
    deliveries_are_bounded(state, topic, deliveries);
    deliveries.lemma_filter_len(|delivery: Delivery| delivery.outcome is Sent);
    deliveries.map_values(|delivery: Delivery| delivery.id.0).unique_seq_to_set();
}

/// The messages that deliveries offer: one to the queue of each recipient, in their order.
pub open spec fn offers(
    state: BrokerState,
    message: message::ServerFrame,
    deliveries: Seq<Delivery>,
) -> Seq<Effect> {
    deliveries.map_values(
        |delivery: Delivery|
            Effect::Offered {
                id: delivery.id.0,
                queue: state.queue_of(delivery.id.0),
                message,
                outcome: delivery.outcome,
            },
    )
}

/// The connections that deliveries close: those whose queue was full, in their order.
pub open spec fn closures(state: BrokerState, deliveries: Seq<Delivery>) -> Seq<Effect> {
    deliveries.filter(|delivery: Delivery| delivery.outcome is Full).map_values(
        |delivery: Delivery|
            Effect::ForcedClose { id: delivery.id.0, token: state.token_of(delivery.id.0) },
    )
}

/// An event is offered to each recipient once, in turn, and exactly the recipients whose queue
/// was full are told to close.
pub proof fn delivering_offers_once(
    state: BrokerState,
    message: message::ServerFrame,
    deliveries: Seq<Delivery>,
)
    ensures
        ({
            let done = state.deliver(message, deliveries).effects;
            let news = done.skip(state.effects.len() as int);
            &&& done == state.effects + news
            &&& news.filter(|effect: Effect| effect is Offered) == offers(
                state,
                message,
                deliveries,
            )
            &&& news.filter(|effect: Effect| effect is ForcedClose) == closures(state, deliveries)
        }),
    decreases deliveries.len(),
{
    let is_offer = |effect: Effect| effect is Offered;
    let is_closure = |effect: Effect| effect is ForcedClose;
    let is_full = |delivery: Delivery| delivery.outcome is Full;
    let done = state.deliver(message, deliveries).effects;
    let news = done.skip(state.effects.len() as int);
    reveal_with_fuel(Seq::filter, 2);
    if deliveries.len() == 0 {
        assert(news =~= Seq::empty());
        assert(done =~= state.effects + news);
        assert(offers(state, message, deliveries) =~= Seq::empty());
        assert(closures(state, deliveries) =~= Seq::empty());
    } else {
        let front = deliveries.drop_last();
        let last = deliveries.last();
        let earlier = state.deliver(message, front).effects;
        let earlier_news = earlier.skip(state.effects.len() as int);
        let offer = Effect::Offered {
            id: last.id.0,
            queue: state.queue_of(last.id.0),
            message,
            outcome: last.outcome,
        };
        let closure = Effect::ForcedClose { id: last.id.0, token: state.token_of(last.id.0) };
        delivering_keeps_connections(state, message, front);
        delivering_offers_once(state, message, front);
        assert(offers(state, message, deliveries) =~= offers(state, message, front).push(offer));
        if last.outcome is Full {
            assert(done == earlier.push(offer).push(closure));
            assert(news =~= earlier_news.push(offer).push(closure));
            assert(news.drop_last() =~= earlier_news.push(offer));
            assert(deliveries.filter(is_full) =~= front.filter(is_full).push(last));
            assert(closures(state, deliveries) =~= closures(state, front).push(closure));
        } else {
            assert(done == earlier.push(offer));
            assert(news =~= earlier_news.push(offer));
            assert(deliveries.filter(is_full) =~= front.filter(is_full));
        }
        assert(earlier_news.push(offer).drop_last() =~= earlier_news);
        assert(done =~= state.effects + news);
    }
}

/// A command gives out at most one event number, and only a publication gives one out: the next
/// one, until only the last is left. So no two events have the same number.
pub proof fn event_numbers_are_given_out_once(
    command: BrokerCommand,
    before: BrokerState,
    after: BrokerState,
)
    requires
        command.carried_out(before, after),
    ensures
        after.next_event_id == if command is Publish && before.next_event_id < u64::MAX {
            before.next_event_id + 1
        } else {
            before.next_event_id as int
        },
{
    if let BrokerCommand::Publish { id, request_id, topic, payload } = command {
        let bytes = wire::bytes_of(payload);
        let (deliveries, outcome) = choose|deliveries: Seq<Delivery>, outcome: SendOutcome|
            after == #[trigger] before.publish(
                id.0,
                request_id,
                topic@,
                bytes,
                deliveries,
                outcome,
            );
        if before.next_event_id < u64::MAX {
            let event_id = before.next_event_id;
            let numbered = BrokerState { next_event_id: (event_id + 1) as u64, ..before };
            delivering_keeps_connections(
                numbered,
                message::ServerFrame::Event { event_id, topic: topic@, payload: bytes },
                deliveries,
            );
        }
    }
}

/// What the broker has done stays done: a command only adds to the record.
pub proof fn effects_are_only_added(
    command: BrokerCommand,
    before: BrokerState,
    after: BrokerState,
)
    requires
        command.carried_out(before, after),
    ensures
        before.effects.is_prefix_of(after.effects),
{
    if let BrokerCommand::Publish { id, request_id, topic, payload } = command {
        let bytes = wire::bytes_of(payload);
        let (deliveries, outcome) = choose|deliveries: Seq<Delivery>, outcome: SendOutcome|
            after == #[trigger] before.publish(
                id.0,
                request_id,
                topic@,
                bytes,
                deliveries,
                outcome,
            );
        if before.next_event_id < u64::MAX {
            let event_id = before.next_event_id;
            let numbered = BrokerState { next_event_id: (event_id + 1) as u64, ..before };
            delivering_offers_once(
                numbered,
                message::ServerFrame::Event { event_id, topic: topic@, payload: bytes },
                deliveries,
            );
        }
    }
}

/// A connection that follows a topic is offered each event that is published under it, with the
/// event's number, topic and payload.
pub proof fn followers_are_offered_events(
    state: BrokerState,
    publisher: u64,
    request_id: u32,
    topic: Seq<char>,
    payload: Seq<u8>,
    deliveries: Seq<Delivery>,
    outcome: SendOutcome,
    follower: u64,
)
    requires
        state.next_event_id < u64::MAX,
        state.reaches_followers(topic, deliveries),
        state.followers(topic).contains(follower),
    ensures
        ({
            let after = state.publish(
                publisher,
                request_id,
                topic,
                payload,
                deliveries,
                outcome,
            );
            let event = message::ServerFrame::Event {
                event_id: state.next_event_id,
                topic,
                payload,
            };
            exists|i: int|
                state.effects.len() <= i < after.effects.len() && (
                #[trigger] after.effects[i]).is_offer_of(
                    event,
                    follower,
                    state.queue_of(follower),
                )
        }),
{
    let event_id = state.next_event_id;
    let numbered = BrokerState { next_event_id: (event_id + 1) as u64, ..state };
    let event = message::ServerFrame::Event { event_id, topic, payload };
    let recipients = deliveries.map_values(|delivery: Delivery| delivery.id.0);
    let delivered = numbered.deliver(event, deliveries);
    let news = delivered.effects.skip(state.effects.len() as int);
    let is_offer = |effect: Effect| effect is Offered;
    delivering_offers_once(numbered, event, deliveries);
    assert(recipients.to_set().contains(follower));
    let k = choose|k: int| 0 <= k < recipients.len() && recipients[k] == follower;
    let offer = offers(numbered, event, deliveries)[k];
    assert(news.filter(is_offer)[k] == offer);
    assert(news.contains(offer)) by {
        filtered_is_contained(news, is_offer, k);
    }
    let j = choose|j: int| 0 <= j < news.len() && news[j] == offer;
    let after = state.publish(publisher, request_id, topic, payload, deliveries, outcome);
    assert(after.effects[state.effects.len() + j] == offer);
}

proof fn filtered_is_contained<A>(all: Seq<A>, keep: spec_fn(A) -> bool, i: int)
    requires
        0 <= i < all.filter(keep).len(),
    ensures
        all.contains(all.filter(keep)[i]),
    decreases all.len(),
{
    reveal_with_fuel(Seq::filter, 2);
    if all.len() > 0 {
        let front = all.drop_last();
        if i < front.filter(keep).len() {
            filtered_is_contained(front, keep, i);
            let k = choose|k: int| 0 <= k < front.len() && front[k] == front.filter(keep)[i];
            assert(all[k] == front[k]);
        } else {
            assert(all[all.len() - 1] == all.last());
        }
    }
}

/// Once a subscription is acknowledged, the next event under its topic is offered to the
/// subscriber, whoever publishes it.
pub proof fn subscribers_are_offered_the_next_event(
    state: BrokerState,
    subscriber: u64,
    subscribe_request: u32,
    publisher: u64,
    publish_request: u32,
    topic: Seq<char>,
    payload: Seq<u8>,
    deliveries: Seq<Delivery>,
    outcome: SendOutcome,
)
    requires
        state.connected(subscriber),
        state.next_event_id < u64::MAX,
        state.subscribe(
            subscriber,
            subscribe_request,
            topic,
            SendOutcome::Sent,
        ).reaches_followers(topic, deliveries),
    ensures
        ({
            let subscribed = state.subscribe(
                subscriber,
                subscribe_request,
                topic,
                SendOutcome::Sent,
            );
            let after = subscribed.publish(
                publisher,
                publish_request,
                topic,
                payload,
                deliveries,
                outcome,
            );
            let event = message::ServerFrame::Event {
                event_id: state.next_event_id,
                topic,
                payload,
            };
            exists|i: int|
                subscribed.effects.len() <= i < after.effects.len() && (
                #[trigger] after.effects[i]).is_offer_of(
                    event,
                    subscriber,
                    state.queue_of(subscriber),
                )
        }),
{
    let subscribed = state.subscribe(subscriber, subscribe_request, topic, SendOutcome::Sent);
    followers_are_offered_events(
        subscribed,
        publisher,
        publish_request,
        topic,
        payload,
        deliveries,
        outcome,
        subscriber,
    );
}

/// The effect is an answer to the request of a connection, on this queue.
pub open spec fn answers(effect: Effect, outgoing: Sender<ServerMessage>, request: u32) -> bool {
    match effect {
        Effect::Offered { queue, message, .. } => queue == outgoing && match message {
            message::ServerFrame::Ready { request_id, .. } => request_id == request,
            message::ServerFrame::Ack { request_id, .. } => request_id == request,
            message::ServerFrame::Error { request_id, .. } => request_id == request,
            message::ServerFrame::Event { .. } => false,
        },
        Effect::ForcedClose { .. } | Effect::Shared { .. } => false,
    }
}

/// Every request is answered, unless the connection is gone: a connection that is registered
/// after its request was carried out has been offered an answer that names the request, on its own
/// queue.
pub proof fn requests_are_answered(command: BrokerCommand, before: BrokerState, after: BrokerState)
    requires
        command.carried_out(before, after),
    ensures
        match command {
            BrokerCommand::Register { request_id, handles, .. } => answered(
                before,
                after,
                handles@.queue,
                request_id,
            ),
            BrokerCommand::Subscribe { id, request_id, .. } => after.connected(id.0) ==> answered(
                before,
                after,
                after.queue_of(id.0),
                request_id,
            ),
            BrokerCommand::Publish { id, request_id, .. } => after.connected(id.0) ==> answered(
                before,
                after,
                after.queue_of(id.0),
                request_id,
            ),
            BrokerCommand::Remove { id } => !after.connected(id.0) && after.effects
                == before.effects,
        },
{
    match command {
        BrokerCommand::Register { id, request_id, handles } => {
            let at = before.effects.len() + if before.connected(id.0) {
                1int
            } else {
                0int
            };
            assert(answers(after.effects[at], handles@.queue, request_id));
        },
        BrokerCommand::Subscribe { id, request_id, .. } => {
            if after.connected(id.0) {
                assert(answers(
                    after.effects[before.effects.len() as int],
                    after.queue_of(id.0),
                    request_id,
                ));
            }
        },
        BrokerCommand::Publish { id, request_id, topic, payload } => {
            let bytes = wire::bytes_of(payload);
            let (deliveries, outcome) = choose|deliveries: Seq<Delivery>, outcome: SendOutcome|
                after == #[trigger] before.publish(
                    id.0,
                    request_id,
                    topic@,
                    bytes,
                    deliveries,
                    outcome,
                );
            let event_id = before.next_event_id;
            let numbered = BrokerState { next_event_id: (event_id + 1) as u64, ..before };
            let event = message::ServerFrame::Event { event_id, topic: topic@, payload: bytes };
            delivering_keeps_connections(numbered, event, deliveries);
            delivering_offers_once(numbered, event, deliveries);
            let at = if event_id == u64::MAX {
                before.effects.len() as int
            } else {
                numbered.deliver(event, deliveries).effects.len() as int
            };
            if after.connected(id.0) {
                assert(answers(after.effects[at], after.queue_of(id.0), request_id));
            }
        },
        BrokerCommand::Remove { .. } => {},
    }
}

/// An answer to the request has been offered to the queue.
pub open spec fn answered(
    before: BrokerState,
    after: BrokerState,
    queue: Sender<ServerMessage>,
    request: u32,
) -> bool {
    exists|i: int|
        before.effects.len() <= i < after.effects.len() && answers(
            #[trigger] after.effects[i],
            queue,
            request,
        )
}

/// Nobody but the followers of its topic is offered an event.
pub proof fn only_followers_are_offered_events(
    state: BrokerState,
    publisher: u64,
    request_id: u32,
    topic: Seq<char>,
    payload: Seq<u8>,
    deliveries: Seq<Delivery>,
    outcome: SendOutcome,
    i: int,
    event: message::ServerFrame,
    id: u64,
    queue: Sender<ServerMessage>,
)
    requires
        state.next_event_id < u64::MAX,
        state.reaches_followers(topic, deliveries),
        event is Event,
        state.effects.len() <= i < state.publish(
            publisher,
            request_id,
            topic,
            payload,
            deliveries,
            outcome,
        ).effects.len(),
        state.publish(
            publisher,
            request_id,
            topic,
            payload,
            deliveries,
            outcome,
        ).effects[i].is_offer_of(event, id, queue),
    ensures
        state.followers(topic).contains(id),
        queue == state.queue_of(id),
        event == (message::ServerFrame::Event { event_id: state.next_event_id, topic, payload }),
{
    let event_id = state.next_event_id;
    let numbered = BrokerState { next_event_id: (event_id + 1) as u64, ..state };
    let published = message::ServerFrame::Event { event_id, topic, payload };
    let delivered = numbered.deliver(published, deliveries);
    let recipients = deliveries.map_values(|delivery: Delivery| delivery.id.0);
    let after = state.publish(publisher, request_id, topic, payload, deliveries, outcome);
    let settled = delivered.evict(deliveries);
    assert(i < settled.effects.len()) by {
        // What is added after the deliveries is the acknowledgement, and perhaps a closure.
        if i >= settled.effects.len() {
            assert(!after.effects[i].is_offer_of(event, id, queue));
        }
    }
    assert(after.effects[i] == delivered.effects[i]);
    let k = delivered_to(numbered, published, deliveries, i);
    assert(recipients[k] == id);
    assert(recipients.to_set().contains(id));
}

/// Which of the deliveries an offer in the record stands for.
proof fn delivered_to(
    state: BrokerState,
    message: message::ServerFrame,
    deliveries: Seq<Delivery>,
    i: int,
) -> (k: int)
    requires
        state.effects.len() <= i < state.deliver(message, deliveries).effects.len(),
        state.deliver(message, deliveries).effects[i] is Offered,
    ensures
        0 <= k < deliveries.len(),
        state.deliver(message, deliveries).effects[i].is_offer_of(
            message,
            deliveries[k].id.0,
            state.queue_of(deliveries[k].id.0),
        ),
    decreases deliveries.len(),
{
    if deliveries.len() == 0 {
        0
    } else {
        let front = deliveries.drop_last();
        let earlier = state.deliver(message, front).effects;
        delivering_keeps_connections(state, message, front);
        if i < earlier.len() {
            delivered_to(state, message, front, i)
        } else {
            deliveries.len() - 1
        }
    }
}

/// A publisher that follows the topic itself, and can take the event, is offered the event
/// before the acknowledgement.
pub proof fn events_come_before_their_acknowledgement(
    state: BrokerState,
    publisher: u64,
    request_id: u32,
    topic: Seq<char>,
    payload: Seq<u8>,
    deliveries: Seq<Delivery>,
    outcome: SendOutcome,
)
    requires
        state.next_event_id < u64::MAX,
        state.reaches_followers(topic, deliveries),
        state.followers(topic).contains(publisher),
        !broker_state::unreachable(deliveries).contains(publisher),
    ensures
        ({
            let after = state.publish(
                publisher,
                request_id,
                topic,
                payload,
                deliveries,
                outcome,
            );
            let event = message::ServerFrame::Event {
                event_id: state.next_event_id,
                topic,
                payload,
            };
            let ack = message::ServerFrame::Ack {
                request_id,
                acknowledged_kind: message::PUBLISH,
                event_id: state.next_event_id,
                matched: broker_state::reported(deliveries.len()),
                enqueued: broker_state::reported(broker_state::taken(deliveries)),
                evicted: broker_state::reported(
                    (deliveries.len() - broker_state::taken(deliveries)) as nat,
                ),
            };
            exists|i: int, j: int|
                state.effects.len() <= i < j < after.effects.len() && (
                #[trigger] after.effects[i]).is_offer_of(
                    event,
                    publisher,
                    state.queue_of(publisher),
                ) && (#[trigger] after.effects[j]).is_offer_of(
                    ack,
                    publisher,
                    state.queue_of(publisher),
                )
        }),
{
    let event_id = state.next_event_id;
    let numbered = BrokerState { next_event_id: (event_id + 1) as u64, ..state };
    let event = message::ServerFrame::Event { event_id, topic, payload };
    let delivered = numbered.deliver(event, deliveries);
    let after = state.publish(publisher, request_id, topic, payload, deliveries, outcome);
    delivering_keeps_connections(numbered, event, deliveries);
    delivering_offers_once(numbered, event, deliveries);
    followers_are_offered_events(
        state,
        publisher,
        request_id,
        topic,
        payload,
        deliveries,
        outcome,
        publisher,
    );
    let i = choose|i: int|
        state.effects.len() <= i < after.effects.len() && (
        #[trigger] after.effects[i]).is_offer_of(event, publisher, state.queue_of(publisher));
    let j = delivered.effects.len() as int;
    assert(i < j) by {
        if i >= j {
            assert(!after.effects[i].is_offer_of(event, publisher, state.queue_of(publisher)));
        }
    }
    assert(after.effects[j] is Offered);
}

/// Once only the last number is left, every publication is refused: the publisher is sent an
/// error with the code for it, and nobody is offered anything else.
pub proof fn publications_without_a_number_are_refused(
    state: BrokerState,
    publisher: u64,
    request_id: u32,
    topic: Seq<char>,
    payload: Seq<u8>,
    deliveries: Seq<Delivery>,
    outcome: SendOutcome,
)
    requires
        state.next_event_id == u64::MAX,
    ensures
        ({
            let after = state.publish(
                publisher,
                request_id,
                topic,
                payload,
                deliveries,
                outcome,
            );
            let error = message::ServerFrame::Error {
                request_id,
                code: 3,
                detail: "event ID space is exhausted"@,
            };
            &&& after == state.send(publisher, error, outcome)
            &&& outcome is Sent && state.connected(publisher) ==> after.effects
                == state.effects.push(Effect::Offered {
                    id: publisher,
                    queue: state.queue_of(publisher),
                    message: error,
                    outcome,
                })
                && after.members == state.members
            &&& !state.connected(publisher) ==> after == state
        }),
{
}

} // verus!
