//! What holds of a connection over all that happens to it.

use crate::channel::record::SendOutcome;
use crate::codec;
use crate::connection::{self, ConnectionEvent, ConnectionState, StepView};
use crate::message;
use crate::protocol::{Limits, ProtocolError};
use crate::wire;
use vstd::prelude::*;

verus! {

/// Something that happens to a connection, and what becomes of the answer that it may be offered
/// on account of it.
pub struct Moment {
    pub event: ConnectionEvent,
    pub outcome: SendOutcome,
}

/// The connection after all of the moments.
pub open spec fn after(state: ConnectionState, moments: Seq<Moment>, limits: Limits) ->
    ConnectionState
    decreases moments.len(),
{
    if moments.len() == 0 {
        state
    } else {
        after(state, moments.drop_last(), limits).react(
            moments.last().event,
            limits,
            moments.last().outcome,
        ).0
    }
}

/// What the connection does at the moment with this index.
pub open spec fn step_at(
    state: ConnectionState,
    moments: Seq<Moment>,
    limits: Limits,
    i: int,
) -> StepView {
    after(state, moments.take(i), limits).react(moments[i].event, limits, moments[i].outcome).1
}

/// The step asks something of the broker.
pub open spec fn asks_broker(step: StepView) -> bool {
    step is Register || step is Subscribe || step is Publish
}

/// The moment brings a frame that means the request.
pub open spec fn brings(moment: Moment, request: message::ClientFrame, limits: Limits) -> bool {
    match moment.event {
        ConnectionEvent::Incoming(Some(frame)) => codec::read_client_frame(
            wire::bytes_mut_of(frame),
            limits,
        ) == Ok::<message::ClientFrame, ProtocolError>(request),
        _ => false,
    }
}

/// The moment brings an introduction.
pub open spec fn brings_introduction(moment: Moment, limits: Limits) -> bool {
    exists|request: message::ClientFrame| request is Hello && brings(moment, request, limits)
}

/// The connection asks the broker to enter it at one moment, and the broker says at a later one
/// that it has done what it was asked.
pub open spec fn entered(
    state: ConnectionState,
    moments: Seq<Moment>,
    limits: Limits,
    entry: int,
    answer: int,
) -> bool {
    &&& 0 <= entry < answer < moments.len()
    &&& step_at(state, moments, limits, entry) is Register
    &&& moments[answer].event == ConnectionEvent::Answered { ok: true }
}

/// The connection asks the broker to enter it at the moment with this index.
#[verifier::opaque]
spec fn registers(
    state: ConnectionState,
    moments: Seq<Moment>,
    limits: Limits,
    i: int,
) -> bool {
    step_at(state, moments, limits, i) is Register
}

/// An introduction comes at the moment with this index.
#[verifier::opaque]
spec fn introduced(moments: Seq<Moment>, limits: Limits, i: int) -> bool {
    brings_introduction(moments[i], limits)
}

/// The broker says at the moment with this index that it has done what it was asked.
#[verifier::opaque]
spec fn confirmed(moments: Seq<Moment>, i: int) -> bool {
    moments[i].event == (ConnectionEvent::Answered { ok: true })
}

/// How far the connection has come before the moment with this index.
#[verifier::opaque]
spec fn phase_at(
    state: ConnectionState,
    moments: Seq<Moment>,
    limits: Limits,
    i: int,
) -> connection::Phase {
    after(state, moments.take(i), limits).phase
}

/// Up to a moment, no introduction came, and the broker was not asked to enter the connection.
spec fn untouched(
    state: ConnectionState,
    moments: Seq<Moment>,
    limits: Limits,
    end: int,
) -> bool {
    forall|i: int|
        #![trigger registers(state, moments, limits, i)]
        #![trigger introduced(moments, limits, i)]
        0 <= i < end ==> !registers(state, moments, limits, i) && !introduced(moments, limits, i)
}

/// Up to a moment, the broker was not asked to enter the connection.
spec fn never_registered(
    state: ConnectionState,
    moments: Seq<Moment>,
    limits: Limits,
    end: int,
) -> bool {
    forall|i: int| 0 <= i < end ==> !#[trigger] registers(state, moments, limits, i)
}

/// Up to a moment, the broker was asked to enter the connection at this moment and no other, and
/// no introduction came before.
spec fn registered_at(
    state: ConnectionState,
    moments: Seq<Moment>,
    limits: Limits,
    entry: int,
    end: int,
) -> bool {
    &&& 0 <= entry < end
    &&& registers(state, moments, limits, entry)
    &&& untouched(state, moments, limits, entry)
    &&& forall|i: int|
        #![trigger registers(state, moments, limits, i)]
        entry < i < end ==> !registers(state, moments, limits, i)
}

/// How the phase of a connection tells what it has done up to a moment.
spec fn phase_tells(
    state: ConnectionState,
    moments: Seq<Moment>,
    limits: Limits,
    end: int,
) -> bool {
    match phase_at(state, moments, limits, end) {
        connection::Phase::Silent => untouched(state, moments, limits, end),
        connection::Phase::Registering => exists|entry: int| #[trigger]
            registered_at(state, moments, limits, entry, end),
        connection::Phase::Active => exists|entry: int, answer: int|
            {
                &&& #[trigger] registered_at(state, moments, limits, entry, end)
                &&& entry < answer < end
                &&& #[trigger] confirmed(moments, answer)
            },
        connection::Phase::Closed => never_registered(state, moments, limits, end) || exists|
            entry: int,
        | #[trigger]
            registered_at(state, moments, limits, entry, end),
    }
}

proof fn one_more_moment(
    state: ConnectionState,
    moments: Seq<Moment>,
    limits: Limits,
    end: int,
)
    requires
        0 <= end < moments.len(),
    ensures
        (after(state, moments.take(end + 1), limits), step_at(state, moments, limits, end))
            == after(state, moments.take(end), limits).react(
            moments[end].event,
            limits,
            moments[end].outcome,
        ),
{
    assert(moments.take(end + 1).drop_last() =~= moments.take(end));
    assert(moments.take(end + 1).last() == moments[end]);
}

/// What one moment can do to the phase of a connection.
proof fn phase_moves(state: ConnectionState, moments: Seq<Moment>, limits: Limits, i: int)
    requires
        0 <= i < moments.len(),
    ensures
        ({
            let next = phase_at(state, moments, limits, i + 1);
            let asked = registers(state, moments, limits, i);
            let came = introduced(moments, limits, i);
            match phase_at(state, moments, limits, i) {
                connection::Phase::Silent => asked == came && (next is Registering <==> asked)
                    && !(next is Active),
                connection::Phase::Registering => !asked && !(next is Silent) && (next is Active
                    ==> confirmed(moments, i)),
                connection::Phase::Active => !asked && (next is Active || next is Closed),
                connection::Phase::Closed => !asked && next is Closed,
            }
        }),
{
    reveal(registers);
    reveal(introduced);
    reveal(confirmed);
    reveal(phase_at);
    one_more_moment(state, moments, limits, i);
    let now = after(state, moments.take(i), limits);
    if now.phase is Silent {
        if let ConnectionEvent::Incoming(Some(frame)) = moments[i].event {
            let meaning = codec::read_client_frame(wire::bytes_mut_of(frame), limits);
            if meaning is Ok && meaning->Ok_0 is Hello {
                assert(brings(moments[i], meaning->Ok_0, limits));
            }
        }
    }
}

proof fn phases_tell(state: ConnectionState, moments: Seq<Moment>, limits: Limits, end: int)
    requires
        state.phase is Silent,
        0 <= end <= moments.len(),
    ensures
        phase_tells(state, moments, limits, end),
    decreases end,
{
    if end == 0 {
        reveal(phase_at);
        assert(moments.take(0) =~= Seq::empty());
    } else {
        let last = end - 1;
        phases_tell(state, moments, limits, last);
        phase_moves(state, moments, limits, last);
        match phase_at(state, moments, limits, last) {
            connection::Phase::Silent => {
                if registers(state, moments, limits, last) {
                    assert(registered_at(state, moments, limits, last, end));
                }
            },
            connection::Phase::Registering => {
                let entry = choose|entry: int| #[trigger]
                    registered_at(state, moments, limits, entry, last);
                assert(registered_at(state, moments, limits, entry, end));
                if phase_at(state, moments, limits, end) is Active {
                    assert(confirmed(moments, last));
                }
            },
            connection::Phase::Active => {
                let (entry, answer) = choose|entry: int, answer: int|
                    {
                        &&& #[trigger] registered_at(state, moments, limits, entry, last)
                        &&& entry < answer < last
                        &&& #[trigger] confirmed(moments, answer)
                    };
                assert(registered_at(state, moments, limits, entry, end));
                assert(confirmed(moments, answer));
            },
            connection::Phase::Closed => {
                if !never_registered(state, moments, limits, last) {
                    let entry = choose|entry: int| #[trigger]
                        registered_at(state, moments, limits, entry, last);
                    assert(registered_at(state, moments, limits, entry, end));
                }
            },
        }
    }
}

/// A connection asks the broker to enter it at most once, on the first introduction.
pub proof fn connections_are_entered_once(
    state: ConnectionState,
    moments: Seq<Moment>,
    limits: Limits,
    i: int,
    j: int,
)
    requires
        state.phase is Silent,
        0 <= i < moments.len(),
        0 <= j < moments.len(),
        step_at(state, moments, limits, i) is Register,
    ensures
        brings_introduction(moments[i], limits),
        j < i ==> !brings_introduction(moments[j], limits),
        j != i ==> !(step_at(state, moments, limits, j) is Register),
{
    let request = request_of(state, moments, limits, i);
    assert(request is Hello && brings(moments[i], request, limits));
    phases_tell(state, moments, limits, moments.len() as int);
    assert(registers(state, moments, limits, i)) by {
        reveal(registers);
    }
    let entry = choose|entry: int| #[trigger]
        registered_at(state, moments, limits, entry, moments.len() as int);
    assert(i == entry);
    if j < i {
        assert(!registers(state, moments, limits, j) && !introduced(moments, limits, j));
    }
    if j > i {
        assert(!registers(state, moments, limits, j));
    }
    reveal(registers);
    reveal(introduced);
}

/// What is asked of the broker is what the client asks for, in the order in which it arrives: the
/// request number, the topic and the payload are those of the frame that arrived at that moment. It
/// is asked under the connection's own number and, to enter it, with its own queue and token.
pub proof fn requests_are_passed_on(
    state: ConnectionState,
    moments: Seq<Moment>,
    limits: Limits,
    i: int,
)
    requires
        0 <= i < moments.len(),
        asks_broker(step_at(state, moments, limits, i)),
    ensures
        exists|request: message::ClientFrame| #[trigger]
            brings(moments[i], request, limits) && step_at(state, moments, limits, i)
                == state.forwarded(request),
{
    let request = request_of(state, moments, limits, i);
    assert(brings(moments[i], request, limits));
}

proof fn request_of(
    state: ConnectionState,
    moments: Seq<Moment>,
    limits: Limits,
    i: int,
) -> (request: message::ClientFrame)
    requires
        0 <= i < moments.len(),
        asks_broker(step_at(state, moments, limits, i)),
    ensures
        brings(moments[i], request, limits),
        step_at(state, moments, limits, i) == state.forwarded(request),
{
    reach_is_kept(state, moments.take(i), limits);
    match moments[i].event {
        ConnectionEvent::Incoming(Some(frame)) => codec::read_client_frame(
            wire::bytes_mut_of(frame),
            limits,
        )->Ok_0,
        _ => arbitrary(),
    }
}

proof fn reach_is_kept(state: ConnectionState, moments: Seq<Moment>, limits: Limits)
    ensures
        after(state, moments, limits).id == state.id,
        after(state, moments, limits).reach == state.reach,
        after(state, moments, limits).home == state.home,
    decreases moments.len(),
{
    if moments.len() > 0 {
        reach_is_kept(state, moments.drop_last(), limits);
    }
}

/// A connection asks the broker for topics and publications only after the broker has entered it.
pub proof fn commands_follow_the_entry(
    state: ConnectionState,
    moments: Seq<Moment>,
    limits: Limits,
    i: int,
)
    requires
        state.phase is Silent,
        0 <= i < moments.len(),
        step_at(state, moments, limits, i) is Subscribe || step_at(
            state,
            moments,
            limits,
            i,
        ) is Publish,
    ensures
        exists|entry: int, answer: int|
            answer < i && #[trigger] entered(state, moments, limits, entry, answer),
{
    phases_tell(state, moments, limits, i);
    assert(phase_at(state, moments, limits, i) is Active) by {
        reveal(phase_at);
    }
    let (entry, answer) = choose|entry: int, answer: int|
        {
            &&& #[trigger] registered_at(state, moments, limits, entry, i)
            &&& entry < answer < i
            &&& #[trigger] confirmed(moments, answer)
        };
    reveal(registers);
    reveal(confirmed);
    assert(entered(state, moments, limits, entry, answer));
}

proof fn closed_for_good(
    state: ConnectionState,
    moments: Seq<Moment>,
    limits: Limits,
    from: int,
    to: int,
)
    requires
        0 <= from <= to <= moments.len(),
        after(state, moments.take(from), limits).phase is Closed,
    ensures
        after(state, moments.take(to), limits).phase is Closed,
    decreases to,
{
    if from < to {
        closed_for_good(state, moments, limits, from, to - 1);
        one_more_moment(state, moments, limits, to - 1);
    }
}

/// A connection is removed once, under its own number, and that is the last that it does, whether
/// or not it was ever entered: after that step it does nothing at all.
pub proof fn removal_comes_last(
    state: ConnectionState,
    moments: Seq<Moment>,
    limits: Limits,
    i: int,
    j: int,
)
    requires
        0 <= i < j < moments.len(),
        step_at(state, moments, limits, i) is Remove,
    ensures
        step_at(state, moments, limits, i) == (StepView::Remove { id: state.id }),
        step_at(state, moments, limits, j) is Wait,
        after(state, moments.take(j + 1), limits).effects == after(
            state,
            moments.take(i + 1),
            limits,
        ).effects,
    decreases j,
{
    reach_is_kept(state, moments.take(i), limits);
    one_more_moment(state, moments, limits, i);
    closed_for_good(state, moments, limits, i + 1, j);
    one_more_moment(state, moments, limits, j);
    if i + 1 < j {
        removal_comes_last(state, moments, limits, i, j - 1);
    }
}

} // verus!
