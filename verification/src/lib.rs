//! An event-sourced seat-reservation core.
//!
//! A command handler rehydrates the aggregate's state by folding its ordered
//! event history from the empty set, hands that state to the decision logic,
//! and publishes the events the decision emits, in decision order. Nothing
//! here persists anything: the caller supplies the history and receives the
//! newly published events.

use std::collections::HashSet;
use vstd::prelude::*;

verus! {

broadcast use vstd::std_specs::hash::group_hash_axioms;

/// A seat identifier, unique per seat within the system.
pub type Seat = u32;

/// A request expressing intent, not yet validated against state.
pub enum Command {
    Reserve { number: u32, row: u32 },
}

/// An immutable fact describing something that happened to the aggregate.
#[derive(Debug, Eq, PartialEq, Clone, Copy, Structural)]
pub enum Event {
    SeatReserved { id: Seat },
}

impl Event {
    /// The seat identifier the event speaks of.
    pub open spec fn seat(self) -> Seat {
        match self {
            Event::SeatReserved { id } => id,
        }
    }
}

/// The reserved-seat set after folding `events`, oldest first, over `init`.
pub open spec fn seats_after(init: Set<Seat>, events: Seq<Event>) -> Set<Seat>
    decreases events.len(),
{
    if events.len() == 0 {
        init
    } else {
        seats_after(init, events.drop_last()).insert(events.last().seat())
    }
}

/// The reserved-seat set a history denotes: its fold from the empty set.
pub open spec fn seats_of(events: Seq<Event>) -> Set<Seat> {
    seats_after(Set::empty(), events)
}

/// The set of seat identifiers a history mentions.
pub open spec fn mentioned_seats(events: Seq<Event>) -> Set<Seat> {
    Set::new(|s: Seat| exists|i: int| 0 <= i < events.len() && events[i].seat() == s)
}

/// Idempotent replay: the reserved-set a history denotes is a pure function
/// of the history, so folding the same history twice yields the same set
/// both times. It is exactly the set of seat identifiers the history
/// mentions, so its size never exceeds the number of distinct seat
/// identifiers in the history, duplicates notwithstanding.
pub proof fn lemma_replay_idempotent(events: Seq<Event>)
    ensures
        seats_of(events) == mentioned_seats(events),
        seats_of(events).finite(),
        seats_of(events).len() <= mentioned_seats(events).len(),
    decreases events.len(),
{
    if events.len() == 0 {
        assert(seats_of(events) =~= mentioned_seats(events));
    } else {
        lemma_replay_idempotent(events.drop_last());
        assert forall|s: Seat| mentioned_seats(events).contains(s) implies seats_of(
            events,
        ).contains(s) by {
            let i = choose|i: int| 0 <= i < events.len() && events[i].seat() == s;
            if i < events.len() - 1 {
                assert(events.drop_last()[i].seat() == s);
            } else {
                assert(events.last().seat() == s);
            }
        };
        assert forall|s: Seat| seats_of(events).contains(s) implies mentioned_seats(
            events,
        ).contains(s) by {
            if s == events.last().seat() {
                assert(events[events.len() - 1].seat() == s);
            } else {
                let i = choose|i: int|
                    0 <= i < events.drop_last().len() && events.drop_last()[i].seat() == s;
                assert(events[i].seat() == s);
            }
        };
        assert(seats_of(events) =~= mentioned_seats(events));
    }
}

/// Order preservation: publishing appends. After a first and then a second
/// event are decided onto a sink, the sink holds exactly its previous
/// contents followed by the first and then the second event — nothing is
/// reordered or dropped.
pub proof fn lemma_emission_order(sink: Seq<Event>, first: Event, second: Event)
    ensures
        sink.push(first).push(second) == sink + seq![first, second],
{
    assert(sink.push(first).push(second) =~= sink + seq![first, second]);
}

/// The aggregate's state: the set of seats currently marked reserved. It is
/// never persisted; it is rebuilt from the event history on every command.
pub struct SeatState {
    pub reserved_seats: HashSet<Seat>,
}

impl View for SeatState {
    type V = Set<Seat>;

    open spec fn view(&self) -> Set<Seat> {
        self.reserved_seats@
    }
}

impl SeatState {
    /// Applies one event to the state. Reserving a seat that is already
    /// reserved is a no-op, not an error.
    pub fn apply(&mut self, event: Event)
        ensures
            final(self)@ == old(self)@.insert(event.seat()),
    {
        match event {
            Event::SeatReserved { id } => {
                self.reserved_seats.insert(id);
            }
        }
    }

    /// Folds a batch of events, oldest first, into the state.
    pub fn apply_events(&mut self, events: Vec<Event>)
        ensures
            final(self)@ == seats_after(old(self)@, events@),
    {
        let n: usize = events.len();
        for i in 0..n
            invariant
                n == events.len(),
                self@ == seats_after(old(self)@, events@.take(i as int)),
        {
            self.apply(events[i]);
            proof {
                assert(events@.take(i + 1).drop_last() =~= events@.take(i as int));
                assert(events@.take(i + 1).last() == events@[i as int]);
            }
        }
        proof {
            assert(events@.take(n as int) =~= events@);
        }
    }

    /// Rebuilds the state by replaying a full history from the empty set.
    /// Replay is total: it never fails, even over a duplicate-laden history.
    pub fn load(events: Vec<Event>) -> (state: SeatState)
        ensures
            state@ == seats_of(events@),
    {
        let mut initial_state = SeatState { reserved_seats: HashSet::new() };

        initial_state.apply_events(events);

        initial_state
    }
}

/// The decision logic for reservations: it holds the freshly loaded state
/// and the sink that every event it decides is appended to, in decision
/// order.
pub struct Reservation {
    pub state: SeatState,
    pub sink: Vec<Event>,
}

impl Reservation {
    /// Pairs a loaded state with the sink that decided events go to.
    pub fn new(state: SeatState, sink: Vec<Event>) -> (r: Reservation)
        ensures
            r.state@ == state@,
            r.sink@ == sink@,
    {
        Reservation { state, sink }
    }

    /// Decides to reserve seat `id`: exactly one `SeatReserved` event is
    /// appended to the sink. The decision is unconditional — it is made
    /// whether or not `id` is already reserved in the state — and the state
    /// itself is left untouched.
    pub fn reserve(&mut self, id: Seat)
        ensures
            final(self).sink@ == old(self).sink@.push(Event::SeatReserved { id }),
            final(self).state@ == old(self).state@,
    {
        let event = Event::SeatReserved { id };

        self.sink.push(event);
    }
}

/// Orchestrates one command end-to-end: replay the stored history into a
/// fresh state, dispatch to the decision logic, publish what it decides.
pub struct CommandHandler {
    pub events: Vec<Event>,
}

impl CommandHandler {
    /// Handles one command. The history is replayed into a private state
    /// (the handler is only read, never changed), the decision logic runs
    /// on it, and every event it decides is appended to `sink` in decision
    /// order; the grown sink is returned. A `Reserve` command publishes
    /// exactly one `SeatReserved` event, whatever the replayed state holds,
    /// and always for seat 0: the command's `number` and `row` are not
    /// routed into the decision.
    pub fn handle(&self, cmd: Command, sink: Vec<Event>) -> (published: Vec<Event>)
        ensures
            published@ == sink@.push(Event::SeatReserved { id: 0 }),
    {
        match cmd {
            Command::Reserve { number: _, row: _ } => {
                let state = SeatState::load(self.events.clone());

                let mut reservation = Reservation::new(state, sink);
                reservation.reserve(0);

                reservation.sink
            }
        }
    }
}

} // verus!
