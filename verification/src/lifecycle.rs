//! The rule of a connection's life: its phases, the events that move it
//! from one to the next, and what each move owes the room.

use vstd::prelude::*;

verus! {

/// Where a connection stands in its life.
#[derive(Clone, Copy, Debug, PartialEq, Eq, Structural)]
pub enum Phase {
    /// Accepted by the transport; not yet a member of its room.
    Connecting,
    /// Registered in its room, its arrival announced.
    Joined,
    /// Reading what the client sends and relaying it.
    Relaying,
    /// The inbound side has ended; the departure is still owed.
    Leaving,
    /// Gone. A connection that was turned away is here from the start.
    Closed,
}

/// What can happen to a connection.
#[derive(Clone, Copy, Debug, PartialEq, Eq, Structural)]
pub enum Event {
    /// The connection asks to be registered; `capacity` tells whether the
    /// registry can still hand out an identity.
    Join { capacity: bool },
    /// A text frame arrived.
    Text,
    /// A frame arrived that is not text.
    Other,
    /// Reading from the transport failed.
    Failed,
    /// The client closed the connection.
    Ended,
    /// The connection is being torn down.
    Leave,
}

/// What the relay owes the room in answer to an event.
#[derive(Clone, Copy, Debug, PartialEq, Eq, Structural)]
pub enum Action {
    Nothing,
    /// Add the connection to its room and announce its arrival.
    Register,
    /// Broadcast what the client sent.
    Relay,
    /// Remove the connection from its room and announce its departure.
    Unregister,
}

/// The phase in which a connection starts: one that names no room is
/// turned away at once.
pub open spec fn initial_phase(room_given: bool) -> Phase {
    if room_given {
        Phase::Connecting
    } else {
        Phase::Closed
    }
}

/// Whether a connection in this phase is a member of its room.
pub open spec fn is_member(phase: Phase) -> bool {
    phase == Phase::Joined || phase == Phase::Relaying || phase == Phase::Leaving
}

/// The rule of the lifecycle: the next phase and the action owed.
pub open spec fn transition(phase: Phase, event: Event) -> (Phase, Action) {
    match (phase, event) {
        (Phase::Connecting, Event::Join { capacity: true }) => (Phase::Joined, Action::Register),
        (Phase::Connecting, Event::Join { capacity: false }) => (Phase::Closed, Action::Nothing),
        (Phase::Connecting, Event::Leave) => (Phase::Closed, Action::Nothing),
        (Phase::Joined, Event::Text) | (Phase::Relaying, Event::Text) => (
            Phase::Relaying,
            Action::Relay,
        ),
        (Phase::Joined, Event::Other) | (Phase::Relaying, Event::Other) => (
            Phase::Relaying,
            Action::Nothing,
        ),
        (Phase::Joined, Event::Failed) | (Phase::Relaying, Event::Failed) => (
            Phase::Leaving,
            Action::Nothing,
        ),
        (Phase::Joined, Event::Ended) | (Phase::Relaying, Event::Ended) => (
            Phase::Leaving,
            Action::Nothing,
        ),
        (Phase::Joined, Event::Leave) | (Phase::Relaying, Event::Leave) | (
            Phase::Leaving,
            Event::Leave,
        ) => (Phase::Closed, Action::Unregister),
        _ => (phase, Action::Nothing),
    }
}

/// Decides what an event means for a connection in the given phase.
pub fn decide(phase: Phase, event: Event) -> (next: (Phase, Action))
    ensures
        next == transition(phase, event),
{
    match phase {
        Phase::Connecting => match event {
            Event::Join { capacity } => if capacity {
                (Phase::Joined, Action::Register)
            } else {
                (Phase::Closed, Action::Nothing)
            },
            Event::Leave => (Phase::Closed, Action::Nothing),
            _ => (phase, Action::Nothing),
        },
        Phase::Joined | Phase::Relaying => match event {
            Event::Text => (Phase::Relaying, Action::Relay),
            Event::Other => (Phase::Relaying, Action::Nothing),
            Event::Failed | Event::Ended => (Phase::Leaving, Action::Nothing),
            Event::Leave => (Phase::Closed, Action::Unregister),
            Event::Join { .. } => (phase, Action::Nothing),
        },
        Phase::Leaving => match event {
            Event::Leave => (Phase::Closed, Action::Unregister),
            _ => (phase, Action::Nothing),
        },
        Phase::Closed => (phase, Action::Nothing),
    }
}

/// The phase a connection is in after a run of events.
pub open spec fn phase_after(start: Phase, events: Seq<Event>) -> Phase
    decreases events.len(),
{
    if events.len() == 0 {
        start
    } else {
        transition(phase_after(start, events.drop_last()), events.last()).0
    }
}

/// The actions that a run of events asks for, one for each event.
pub open spec fn actions_of(start: Phase, events: Seq<Event>) -> Seq<Action>
    decreases events.len(),
{
    if events.len() == 0 {
        Seq::empty()
    } else {
        actions_of(start, events.drop_last()).push(
            transition(phase_after(start, events.drop_last()), events.last()).1,
        )
    }
}

/// How often `what` occurs among `actions`.
pub open spec fn count_of(actions: Seq<Action>, what: Action) -> nat
    decreases actions.len(),
{
    if actions.len() == 0 {
        0
    } else {
        count_of(actions.drop_last(), what) + if actions.last() == what {
            1nat
        } else {
            0nat
        }
    }
}

/// A connection that names no room is closed from the start and stays so:
/// whatever happens to it, it is never registered, never unregistered, and
/// nothing is ever broadcast on its account.
pub proof fn lemma_turned_away_stays_silent(events: Seq<Event>)
    ensures
        phase_after(initial_phase(false), events) == Phase::Closed,
        actions_of(initial_phase(false), events).len() == events.len(),
        forall|i: int|
            0 <= i < events.len() ==> #[trigger] actions_of(initial_phase(false), events)[i]
                == Action::Nothing,
    decreases events.len(),
{
    if events.len() > 0 {
        lemma_turned_away_stays_silent(events.drop_last());
    }
}

/// Whatever happens to a connection that named a room, its arrival is
/// announced at most once and its departure at most once. Before it joins
/// neither has been; while it is a member its arrival has been and its
/// departure has not; once it is closed both have been or neither.
pub proof fn lemma_one_arrival_one_departure(events: Seq<Event>)
    ensures
        ({
            let phase = phase_after(initial_phase(true), events);
            let actions = actions_of(initial_phase(true), events);
            let arrivals = count_of(actions, Action::Register);
            let departures = count_of(actions, Action::Unregister);
            &&& phase == Phase::Connecting ==> arrivals == 0 && departures == 0
            &&& is_member(phase) ==> arrivals == 1 && departures == 0
            &&& phase == Phase::Closed ==> arrivals == departures && arrivals <= 1
        }),
    decreases events.len(),
{
    if events.len() > 0 {
        let init = events.drop_last();
        lemma_one_arrival_one_departure(init);
        let actions = actions_of(initial_phase(true), events);
        assert(actions.drop_last() =~= actions_of(initial_phase(true), init));
    }
}

/// Every way out of a room ends in exactly one departure: whether the client
/// closed the connection or the transport failed, and whatever else arrived
/// in between, tearing a member down unregisters it and closes it, and
/// tearing it down again does nothing.
pub proof fn lemma_every_exit_unregisters(phase: Phase, event: Event)
    requires
        is_member(phase),
        event != Event::Leave,
    ensures
        is_member(transition(phase, event).0),
        transition(phase, event).1 != Action::Register,
        transition(phase, event).1 != Action::Unregister,
        transition(transition(phase, event).0, Event::Leave) == (Phase::Closed, Action::Unregister),
        transition(Phase::Closed, Event::Leave) == (Phase::Closed, Action::Nothing),
{
}

/// A failed read and a clean close are one to the lifecycle: both stop the
/// relaying and leave the departure owed.
pub proof fn lemma_failure_is_a_departure(phase: Phase)
    requires
        phase == Phase::Joined || phase == Phase::Relaying,
    ensures
        transition(phase, Event::Failed) == (Phase::Leaving, Action::Nothing),
        transition(phase, Event::Ended) == (Phase::Leaving, Action::Nothing),
{
}

} // verus!
