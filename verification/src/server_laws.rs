//! What holds of the server over all that happens to it.

use crate::channel::places;
use crate::server::ServerState;
use vstd::prelude::*;

verus! {

/// Everybody who connects is counted once, as taken or as turned away, and whoever is turned
/// away for want of a permit takes no number.
pub proof fn arrivals_are_counted_once<E>(state: ServerState<E>, permitted: bool)
    ensures
        state.placed(permitted).accepted + state.placed(permitted).rejected == state.accepted
            + state.rejected + 1,
        !permitted ==> state.placed(permitted).accepted == state.accepted,
        state.placed(permitted).failure == state.failure,
        state.placed(permitted).store == state.store,
        state.placed(permitted).asked == state.asked,
{
}

/// The number of a connection is greater than all numbers given out before it.
pub proof fn connection_numbers_increase<E>(earlier: ServerState<E>, between: Seq<bool>)
    requires
        earlier.has_place(true),
    ensures
        earlier.accepted + 1 < arrivals(earlier.placed(true), between).accepted + 1,
    decreases between.len(),
{
    if between.len() > 0 {
        connection_numbers_increase(earlier, between.drop_last());
    }
}

/// A server after several arrivals, given for each whether there was a permit for it.
pub open spec fn arrivals<E>(state: ServerState<E>, permitted: Seq<bool>) -> ServerState<E>
    decreases permitted.len(),
{
    if permitted.len() == 0 {
        state
    } else {
        arrivals(state, permitted.drop_last()).placed(permitted.last())
    }
}

/// A failure is never forgotten for a later one.
pub proof fn the_first_failure_is_kept<E>(state: ServerState<E>, first: E, second: E)
    ensures
        state.failure is None ==> state.fail(first).fail(second).failure == Some(first),
        state.failure is Some ==> state.fail(first) == state,
{
}

/// Somebody who connects is taken if there is a permit and a number, and turned away otherwise, and
/// only the count of that changes. The last number is never given out.
pub proof fn an_arrival_changes_one_count<E>(state: ServerState<E>, permitted: bool)
    ensures
        ({
            let after = state.ask().placed(permitted);
            let taken = permitted && state.accepted + 1 < u64::MAX;
            &&& after.asked == state.asked + 1
            &&& after.accepted == state.accepted + if taken {
                1int
            } else {
                0int
            }
            &&& after.rejected == state.rejected + if taken {
                0int
            } else {
                1int
            }
            &&& after.store == state.store
            &&& after.failure == state.failure
            &&& state.has_place(permitted) <==> taken
        }),
{
}

/// A server starts with nobody taken or turned away, nobody asked and nothing failed, and may serve
/// as many as its store has permits.
pub proof fn servers_start_empty<E>(store: tokio::sync::Semaphore)
    ensures
        ({
            let state = ServerState::<E>::initial(store);
            &&& state.store == store
            &&& state.asked == 0
            &&& state.accepted == 0
            &&& state.rejected == 0
            &&& state.failure is None
            &&& state.capacity() == places::permits_of(store)
        }),
{
}

/// A failure changes nothing but the failure that is kept, and that only if there was none.
pub proof fn a_failure_changes_nothing_else<E>(state: ServerState<E>, failure: E)
    ensures
        state.fail(failure).failure == Some(
            match state.failure {
                Some(earlier) => earlier,
                None => failure,
            },
        ),
        state.fail(failure).store == state.store,
        state.fail(failure).asked == state.asked,
        state.fail(failure).accepted == state.accepted,
        state.fail(failure).rejected == state.rejected,
{
}

/// Something that happens to a server and the store that its permits come from.
pub enum Occurrence {
    /// Somebody connects, and the store gives a permit or gives none.
    Arrival { permitted: bool },
    /// A connection ends, and its permit goes back.
    Departure,
}

/// The server after all of the occurrences.
pub open spec fn after<E>(state: ServerState<E>, occurrences: Seq<Occurrence>) -> ServerState<E>
    decreases occurrences.len(),
{
    if occurrences.len() == 0 {
        state
    } else {
        let before = after(state, occurrences.drop_last());
        match occurrences.last() {
            Occurrence::Arrival { permitted } => before.ask().placed(permitted),
            Occurrence::Departure => before,
        }
    }
}

/// How many connections are served after all of the occurrences. Each holds a permit, and nobody
/// else does.
pub open spec fn served<E>(state: ServerState<E>, occurrences: Seq<Occurrence>) -> int
    decreases occurrences.len(),
{
    if occurrences.len() == 0 {
        0
    } else {
        let before = occurrences.drop_last();
        match occurrences.last() {
            Occurrence::Arrival { permitted } => if after(state, before).has_place(permitted) {
                served(state, before) + 1
            } else {
                served(state, before)
            },
            Occurrence::Departure => served(state, before) - 1,
        }
    }
}

/// How many permits the store has given.
pub open spec fn given(occurrences: Seq<Occurrence>) -> nat {
    occurrences.filter(
        |occurrence: Occurrence| occurrence == (Occurrence::Arrival { permitted: true }),
    ).len()
}

/// How many permits were given for which there was no number left.
pub open spec fn unnumbered<E>(state: ServerState<E>, occurrences: Seq<Occurrence>) -> nat
    decreases occurrences.len(),
{
    if occurrences.len() == 0 {
        0
    } else {
        let before = occurrences.drop_last();
        let spare = occurrences.last() == (Occurrence::Arrival { permitted: true }) && !after(
            state,
            before,
        ).has_place(true);
        unnumbered(state, before) + if spare {
            1nat
        } else {
            0nat
        }
    }
}

/// Every permit that the store gives goes to a connection that is served, unless the numbers are
/// used up.
pub proof fn every_permit_serves_a_connection<E>(
    state: ServerState<E>,
    occurrences: Seq<Occurrence>,
)
    requires
        state == ServerState::<E>::initial(state.store),
    ensures
        given(occurrences) == after(state, occurrences).accepted + unnumbered(state, occurrences),
    decreases occurrences.len(),
{
    reveal_with_fuel(Seq::filter, 2);
    if occurrences.len() > 0 {
        every_permit_serves_a_connection(state, occurrences.drop_last());
    }
}

/// How many of the occurrences are arrivals.
pub open spec fn arrived(occurrences: Seq<Occurrence>) -> nat {
    occurrences.filter(|occurrence: Occurrence| occurrence is Arrival).len()
}

/// The occurrences can come about: the store gives a permit if and only if fewer are held than it
/// was made with, and only a connection that is served can end.
pub open spec fn possible<E>(state: ServerState<E>, occurrences: Seq<Occurrence>) -> bool {
    forall|i: int|
        0 <= i < occurrences.len() ==> match #[trigger] occurrences[i] {
            Occurrence::Arrival { permitted } => permitted <==> served(state, occurrences.take(i))
                < state.capacity(),
            Occurrence::Departure => served(state, occurrences.take(i)) > 0,
        }
}

/// At no time are more connections served than there are permits. Everybody who connected is
/// counted once, as taken or as turned away, and one permit was asked for on account of each.
pub proof fn no_more_are_served_than_permitted<E>(
    state: ServerState<E>,
    occurrences: Seq<Occurrence>,
    end: int,
)
    requires
        state == ServerState::<E>::initial(state.store),
        possible(state, occurrences),
        0 <= end <= occurrences.len(),
    ensures
        0 <= served(state, occurrences.take(end)) <= places::permits_of(state.store),
        after(state, occurrences.take(end)).accepted + after(
            state,
            occurrences.take(end),
        ).rejected == arrived(occurrences.take(end)),
        after(state, occurrences.take(end)).asked == arrived(occurrences.take(end)),
        after(state, occurrences.take(end)).store == state.store,
    decreases end,
{
    reveal_with_fuel(Seq::filter, 2);
    if end > 0 {
        no_more_are_served_than_permitted(state, occurrences, end - 1);
        assert(occurrences.take(end).drop_last() =~= occurrences.take(end - 1));
        assert(occurrences.take(end).last() == occurrences[end - 1]);
    }
}

/// Somebody who connects is turned away only where as many are served as there are permits, or
/// where the numbers are used up, and is given the next number otherwise.
pub proof fn only_the_surplus_is_turned_away<E>(
    state: ServerState<E>,
    occurrences: Seq<Occurrence>,
    i: int,
)
    requires
        state == ServerState::<E>::initial(state.store),
        possible(state, occurrences),
        0 <= i < occurrences.len(),
        occurrences[i] is Arrival,
    ensures
        ({
            let before = after(state, occurrences.take(i));
            let now = after(state, occurrences.take(i + 1));
            if served(state, occurrences.take(i)) == places::permits_of(state.store)
                || before.accepted + 2 > u64::MAX {
                now.accepted == before.accepted && now.rejected == before.rejected + 1
            } else {
                now.accepted == before.accepted + 1 && now.rejected == before.rejected
            }
        }),
{
    no_more_are_served_than_permitted(state, occurrences, i);
    assert(occurrences.take(i + 1).drop_last() =~= occurrences.take(i));
    assert(occurrences.take(i + 1).last() == occurrences[i]);
}

} // verus!
