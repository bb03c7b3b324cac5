//! What holds from a publisher through the server to a subscriber.

use crate::broker_laws;
use crate::broker_state::{self, BrokerState, Delivery};
use crate::channel::record::{Effect, Reach, SendOutcome};
use crate::client::{
    self, Demand, Failure, Pending, PublishReceipt, COMMAND_REQUEST_ID, HELLO_REQUEST_ID,
};
use crate::codec;
use crate::codec_laws;
use crate::connection::{ConnectionState, StepView};
use crate::message;
use crate::message::ServerMessage;
use crate::names;
use crate::protocol::{Limits, ProtocolError};
use crate::wire;
use tokio::sync::mpsc::Sender;
use vstd::prelude::*;
use vstd::utf8::*;

verus! {

/// The effect is a message to the queue, the server can send it, and a subscriber reads the event
/// off its frame.
pub open spec fn brings_event(
    effect: Effect,
    outgoing: Sender<ServerMessage>,
    event: message::ServerFrame,
    server: Limits,
) -> bool {
    match effect {
        Effect::Offered { queue, message, .. } => {
            &&& queue == outgoing
            &&& codec::write_server_frame(message, server) is Ok
            &&& client::event_in(
                codec::write_server_frame(message, server)->Ok_0,
                Limits::standard(),
            ) == Ok::<message::ServerFrame, Failure>(event)
        },
        Effect::ForcedClose { .. } | Effect::Shared { .. } => false,
    }
}

/// A subscriber is offered what a publisher asked to publish: the server understands the
/// publisher's frame, hands it to the broker, and from the frame that the follower of the topic
/// is sent on account of it the follower reads the same topic and payload, under the number that
/// the event was given. Topic and payload are within the limits of the clients and of the server.
pub proof fn published_payloads_arrive(
    state: BrokerState,
    connection: ConnectionState,
    publisher: u64,
    follower: u64,
    topic: Seq<char>,
    payload: Seq<u8>,
    deliveries: Seq<Delivery>,
    outcome: SendOutcome,
    server: Limits,
)
    requires
        connection.id == publisher,
        server.defect() is None,
        (Demand::Publish { topic, payload }).keeps_to(Limits::standard()),
        (Demand::Publish { topic, payload }).keeps_to(server),
        state.next_event_id < u64::MAX,
        state.reaches_followers(topic, deliveries),
        state.followers(topic).contains(follower),
    ensures
        ({
            let demand = Demand::Publish { topic, payload };
            let after = state.publish(
                publisher,
                COMMAND_REQUEST_ID,
                topic,
                payload,
                deliveries,
                outcome,
            );
            let event = message::ServerFrame::Event {
                event_id: state.next_event_id,
                topic,
                payload,
            };
            &&& demand.frame(Limits::standard()) is Ok
            &&& codec::read_client_frame(demand.frame(Limits::standard())->Ok_0, server) == Ok::<
                message::ClientFrame,
                ProtocolError,
            >(demand.command())
            &&& connection.forwarded(demand.command()) == (StepView::Publish {
                id: publisher,
                request_id: COMMAND_REQUEST_ID,
                topic,
                payload,
            })
            &&& exists|i: int|
                state.effects.len() <= i < after.effects.len() && brings_event(
                    #[trigger] after.effects[i],
                    state.queue_of(follower),
                    event,
                    server,
                )
        }),
{
    let demand = Demand::Publish { topic, payload };
    let event = message::ServerFrame::Event { event_id: state.next_event_id, topic, payload };
    names::ascii_bytes_are_utf8(encode_utf8(topic));
    encode_utf8_decode_utf8(topic);
    codec_laws::requests_within_limits_fit(demand.command(), Limits::standard());
    codec_laws::requests_within_limits_fit(demand.command(), server);
    codec_laws::events_within_limits_fit(
        state.next_event_id,
        topic,
        payload,
        Limits::standard(),
    );
    codec_laws::events_within_limits_fit(state.next_event_id, topic, payload, server);
    broker_laws::followers_are_offered_events(
        state,
        publisher,
        COMMAND_REQUEST_ID,
        topic,
        payload,
        deliveries,
        outcome,
        follower,
    );
    let after = state.publish(
        publisher,
        COMMAND_REQUEST_ID,
        topic,
        payload,
        deliveries,
        outcome,
    );
    let i = choose|i: int|
        state.effects.len() <= i < after.effects.len() && (
        #[trigger] after.effects[i]).is_offer_of(event, follower, state.queue_of(follower));
    assert(brings_event(after.effects[i], state.queue_of(follower), event, server));
}

/// The last thing offered to a publisher that stays connected is the acknowledgement, and the
/// receipt that it reads off the frame bears the number of the event and how many followers
/// there were.
pub proof fn publishers_get_a_receipt(
    state: BrokerState,
    publisher: u64,
    topic: Seq<char>,
    payload: Seq<u8>,
    deliveries: Seq<Delivery>,
    arrival: client::Arrival,
)
    requires
        state.next_event_id < u64::MAX,
        state.reaches_followers(topic, deliveries),
        state.connected(publisher),
        !broker_state::unreachable(deliveries).contains(publisher),
        ({
            let after = state.publish(
                publisher,
                COMMAND_REQUEST_ID,
                topic,
                payload,
                deliveries,
                SendOutcome::Sent,
            );
            &&& after.effects.last() matches Effect::Offered { message, .. }
            &&& arrival matches client::Arrival::Frame(frame)
            &&& wire::bytes_mut_of(frame) == message.bytes()
        }),
    ensures
        ({
            let after = state.publish(
                publisher,
                COMMAND_REQUEST_ID,
                topic,
                payload,
                deliveries,
                SendOutcome::Sent,
            );
            let receipt = PublishReceipt {
                event_id: state.next_event_id,
                matched: broker_state::reported(deliveries.len()),
                enqueued: broker_state::reported(broker_state::taken(deliveries)),
                evicted: broker_state::reported(
                    (deliveries.len() - broker_state::taken(deliveries)) as nat,
                ),
            };
            &&& after.effects.last() matches Effect::Offered { id, queue, .. }
            &&& id == publisher
            &&& queue == state.queue_of(publisher)
            &&& Pending::Publish.after_command(arrival, Limits::standard()) matches Ok(received)
            &&& client::receipt_of(receipt, received)
        }),
{
    let event_id = state.next_event_id;
    let numbered = BrokerState { next_event_id: (event_id + 1) as u64, ..state };
    let event = message::ServerFrame::Event { event_id, topic, payload };
    broker_laws::delivering_keeps_connections(numbered, event, deliveries);
    client::receipts_tell_what_was_acknowledged(
        arrival,
        event_id,
        broker_state::reported(deliveries.len()),
        broker_state::reported(broker_state::taken(deliveries)),
        broker_state::reported(
            (deliveries.len() - broker_state::taken(deliveries)) as nat,
        ),
    );
}

/// A broker that nobody has connected to, after a subscriber has introduced itself and asked for a
/// topic and a publisher has introduced itself, and all answers were taken.
pub open spec fn subscribed_and_ready(
    subscriber: u64,
    subscriber_reach: Reach,
    publisher: u64,
    publisher_reach: Reach,
    topic: Seq<char>,
) -> BrokerState {
    BrokerState::initial().register(
        subscriber,
        HELLO_REQUEST_ID,
        subscriber_reach,
        SendOutcome::Sent,
    ).subscribe(subscriber, COMMAND_REQUEST_ID, topic, SendOutcome::Sent).register(
        publisher,
        HELLO_REQUEST_ID,
        publisher_reach,
        SendOutcome::Sent,
    )
}

/// The only subscriber is matched by what the publisher publishes: the event is offered to the
/// subscriber's queue and nobody else's, and the publisher's receipt says that one follower was
/// matched. It says that one took the event if and only if the subscriber's queue did, and that
/// one was evicted otherwise. The subscriber reads that event, under the number of the receipt, off
/// the frame that it is sent. Where the queue took the event, the acknowledgement is all that
/// follows.
pub proof fn the_subscriber_gets_what_was_published(
    subscriber: u64,
    subscriber_reach: Reach,
    publisher: u64,
    publisher_reach: Reach,
    topic: Seq<char>,
    payload: Seq<u8>,
    deliveries: Seq<Delivery>,
    server: Limits,
    arrival: client::Arrival,
)
    requires
        subscriber != publisher,
        server.defect() is None,
        (Demand::Publish { topic, payload }).keeps_to(Limits::standard()),
        (Demand::Publish { topic, payload }).keeps_to(server),
        ({
            let ready = subscribed_and_ready(
                subscriber,
                subscriber_reach,
                publisher,
                publisher_reach,
                topic,
            );
            let after = ready.publish(
                publisher,
                COMMAND_REQUEST_ID,
                topic,
                payload,
                deliveries,
                SendOutcome::Sent,
            );
            &&& ready.reaches_followers(topic, deliveries)
            &&& after.effects.last() matches Effect::Offered { message, .. }
            &&& arrival matches client::Arrival::Frame(frame)
            &&& wire::bytes_mut_of(frame) == message.bytes()
        }),
    ensures
        ({
            let ready = subscribed_and_ready(
                subscriber,
                subscriber_reach,
                publisher,
                publisher_reach,
                topic,
            );
            let after = ready.publish(
                publisher,
                COMMAND_REQUEST_ID,
                topic,
                payload,
                deliveries,
                SendOutcome::Sent,
            );
            let outcome = deliveries[0].outcome;
            let event = message::ServerFrame::Event { event_id: 1, topic, payload };
            let receipt = PublishReceipt {
                event_id: 1,
                matched: 1,
                enqueued: if outcome is Sent {
                    1
                } else {
                    0
                },
                evicted: if outcome is Sent {
                    0
                } else {
                    1
                },
            };
            let ack = message::ServerFrame::Ack {
                request_id: COMMAND_REQUEST_ID,
                acknowledged_kind: message::PUBLISH,
                event_id: receipt.event_id,
                matched: receipt.matched,
                enqueued: receipt.enqueued,
                evicted: receipt.evicted,
            };
            let offered = ready.effects.push(
                Effect::Offered {
                    id: subscriber,
                    queue: subscriber_reach.queue,
                    message: event,
                    outcome,
                },
            );
            let told = if outcome is Full {
                offered.push(Effect::ForcedClose { id: subscriber, token: subscriber_reach.token })
            } else {
                offered
            };
            &&& after.effects == told.push(
                Effect::Offered {
                    id: publisher,
                    queue: publisher_reach.queue,
                    message: ack,
                    outcome: SendOutcome::Sent,
                },
            )
            &&& after.connected(subscriber) <==> outcome is Sent
            &&& Pending::Publish.after_command(arrival, Limits::standard()) matches Ok(received)
            &&& client::receipt_of(receipt, received)
            &&& codec::write_server_frame(event, server) is Ok
            &&& client::event_in(
                codec::write_server_frame(event, server)->Ok_0,
                Limits::standard(),
            ) == Ok::<message::ServerFrame, Failure>(event)
        }),
{
    let ready = subscribed_and_ready(
        subscriber,
        subscriber_reach,
        publisher,
        publisher_reach,
        topic,
    );
    let recipients = deliveries.map_values(|delivery: Delivery| delivery.id.0);
    assert(ready.followers(topic) =~= set![subscriber]);
    recipients.unique_seq_to_set();
    assert(recipients.to_set().contains(subscriber));
    assert(deliveries.len() == 1);
    assert(recipients[0] == deliveries[0].id.0);
    assert(recipients.to_set().contains(recipients[0]));
    assert(deliveries.drop_last() =~= Seq::empty());
    reveal_with_fuel(Seq::filter, 2);
    reveal_with_fuel(BrokerState::deliver, 3);
    let taken: u16 = if deliveries[0].outcome is Sent {
        1
    } else {
        0
    };
    assert(broker_state::taken(deliveries) == taken);
    assert(broker_state::unreachable(deliveries).contains(subscriber) <==> taken == 0) by {
        assert(deliveries[0].id.0 == subscriber);
    }
    names::ascii_bytes_are_utf8(encode_utf8(topic));
    encode_utf8_decode_utf8(topic);
    codec_laws::events_within_limits_fit(1, topic, payload, Limits::standard());
    codec_laws::events_within_limits_fit(1, topic, payload, server);
    client::receipts_tell_what_was_acknowledged(arrival, 1, 1, taken, (1 - taken) as u16);
}

} // verus!
