//! The aggregator: the single consumer of the hit channel, as a state machine
//! from what its driver observed to what the driver must do next.
//!
//! The driver owns everything that blocks: it polls the channel, sleeps and
//! talks to the store. After each of these it reports the outcome as an
//! [`Event`] and carries out the [`Action`] it is given in return.

use crate::domain::clip::field::ShortCode;
use crate::web::hit_counter::pending::{
    count_of, credit, entries_of, lists, PendingHits, PendingTotal,
};
use vstd::prelude::*;

verus! {

/// Seconds the aggregator lets pass on an idle channel before it flushes.
pub const IDLE_INTERVAL_SECS: u64 = 5;

/// What travels on the hit channel.
#[derive(Debug)]
pub enum Message {
    /// `hits` more views of `shortcode` were served.
    Increment(ShortCode, u32),
    /// Hand out what is pending for commit now.
    FlushTick,
}

/// A message as the contracts see it.
pub enum MessageView {
    Increment(Seq<char>, nat),
    FlushTick,
}

impl View for Message {
    type V = MessageView;

    open spec fn view(&self) -> MessageView {
        match self {
            Message::Increment(shortcode, hits) => MessageView::Increment(
                shortcode@,
                *hits as nat,
            ),
            Message::FlushTick => MessageView::FlushTick,
        }
    }
}

/// What the driver reports to the aggregator.
#[derive(Debug)]
pub enum Event {
    /// The channel delivered a message.
    Received(Message),
    /// The channel holds no message at the moment.
    Idle,
    /// The idle interval that the aggregator asked for has passed.
    Waited,
    /// The commit that the aggregator asked for has been attempted.
    Committed,
    /// The channel is empty and no sender is left.
    Closed,
}

/// An event as the contracts see it.
pub enum EventView {
    Received(MessageView),
    Idle,
    Waited,
    Committed,
    Closed,
}

impl View for Event {
    type V = EventView;

    open spec fn view(&self) -> EventView {
        match self {
            Event::Received(message) => EventView::Received(message@),
            Event::Idle => EventView::Idle,
            Event::Waited => EventView::Waited,
            Event::Committed => EventView::Committed,
            Event::Closed => EventView::Closed,
        }
    }
}

/// What the aggregator asks of its driver.
#[derive(Debug)]
pub enum Action {
    /// Ask the channel for the next message without blocking.
    Poll,
    /// Block for this many seconds, then report [`Event::Waited`].
    Wait(u64),
    /// Write this batch to the store, then report [`Event::Committed`].
    Commit(Vec<PendingTotal>),
    /// Leave the loop: the aggregator has stopped.
    Stop,
}

/// An action as the contracts see it.
pub enum ActionView {
    Poll,
    Wait(nat),
    Commit(Seq<(Seq<char>, nat)>),
    Stop,
}

impl View for Action {
    type V = ActionView;

    open spec fn view(&self) -> ActionView {
        match self {
            Action::Poll => ActionView::Poll,
            Action::Wait(seconds) => ActionView::Wait(*seconds as nat),
            Action::Commit(batch) => ActionView::Commit(entries_of(batch@)),
            Action::Stop => ActionView::Stop,
        }
    }
}

/// Where the aggregator stands in its life.
#[derive(Clone, Copy, Debug, PartialEq, Eq, Structural)]
pub enum Phase {
    /// Normal operation.
    Running,
    /// The channel has closed and the final commit is under way.
    Terminating,
    /// Nothing more will happen.
    Stopped,
}

/// The aggregator as the contracts see it: its phase and the pending tally.
pub struct AggregatorView {
    pub phase: Phase,
    pub pending: Map<Seq<char>, nat>,
}

/// The kind of action an event calls for.
pub enum Duty {
    Poll,
    Wait,
    Commit,
    Stop,
}

/// The kind of action with which the aggregator answers `event` in `state`.
pub open spec fn duty(state: AggregatorView, event: EventView) -> Duty {
    match state.phase {
        Phase::Running => match event {
            EventView::Received(MessageView::Increment(_, _)) => Duty::Poll,
            EventView::Received(MessageView::FlushTick) => Duty::Commit,
            EventView::Idle => Duty::Wait,
            EventView::Waited => Duty::Commit,
            EventView::Committed => Duty::Poll,
            EventView::Closed => Duty::Commit,
        },
        Phase::Terminating => Duty::Stop,
        Phase::Stopped => Duty::Stop,
    }
}

/// The state in which `event` leaves an aggregator that was in `state`.
///
/// While running, an increment is merged into the pending tally, a flush
/// tick or the end of an idle wait empties it, and the closing of the channel
/// empties it and starts termination. A terminating aggregator stops at the
/// next event, and a stopped one stays stopped.
pub open spec fn next(state: AggregatorView, event: EventView) -> AggregatorView {
    match state.phase {
        Phase::Running => match event {
            EventView::Received(MessageView::Increment(key, hits)) => AggregatorView {
                phase: Phase::Running,
                pending: credit(state.pending, key, hits),
            },
            EventView::Received(MessageView::FlushTick) | EventView::Waited => AggregatorView {
                phase: Phase::Running,
                pending: Map::empty(),
            },
            EventView::Idle | EventView::Committed => state,
            EventView::Closed => AggregatorView {
                phase: Phase::Terminating,
                pending: Map::empty(),
            },
        },
        Phase::Terminating => AggregatorView { phase: Phase::Stopped, pending: state.pending },
        Phase::Stopped => state,
    }
}

/// Whether `action` is the answer to `event` in `state`: it has the kind that
/// [`duty`] names, a wait lasts the idle interval, and a commit lists exactly
/// what was pending.
pub open spec fn answers(state: AggregatorView, event: EventView, action: ActionView) -> bool {
    match duty(state, event) {
        Duty::Poll => action == ActionView::Poll,
        Duty::Wait => action == ActionView::Wait(IDLE_INTERVAL_SECS as nat),
        Duty::Commit => action matches ActionView::Commit(entries) && lists(
            entries,
            state.pending,
        ),
        Duty::Stop => action == ActionView::Stop,
    }
}

/// Whether the aggregator can take `event` in `state` without a pending
/// count leaving the range of `u32`.
pub open spec fn fits(state: AggregatorView, event: EventView) -> bool {
    state.phase == Phase::Running ==> (event matches EventView::Received(
        MessageView::Increment(key, hits),
    ) ==> count_of(state.pending, key) + hits <= u32::MAX)
}

/// The single consumer of the hit channel.
pub struct Aggregator {
    phase: Phase,
    pending: PendingHits,
}

impl View for Aggregator {
    type V = AggregatorView;

    closed spec fn view(&self) -> AggregatorView {
        AggregatorView { phase: self.phase, pending: self.pending@ }
    }
}

impl Aggregator {
    /// A running aggregator with nothing pending.
    pub fn new() -> (aggregator: Self)
        ensures
            aggregator@ == (AggregatorView { phase: Phase::Running, pending: Map::empty() }),
    {
        Aggregator { phase: Phase::Running, pending: PendingHits::new() }
    }

    /// The phase the aggregator is in.
    pub fn phase(&self) -> (phase: Phase)
        ensures
            phase == self@.phase,
    {
        self.phase
    }

    /// The pending count of `shortcode`.
    pub fn pending(&self, shortcode: &ShortCode) -> (hits: u32)
        ensures
            hits == count_of(self@.pending, shortcode@),
    {
        self.pending.get(shortcode)
    }

    /// Whether [`Aggregator::step`] can take `event` now.
    pub fn accepts(&self, event: &Event) -> (ok: bool)
        ensures
            ok == fits(self@, event@),
    {
        match self.phase {
            Phase::Running => match event {
                Event::Received(Message::Increment(shortcode, hits)) => self.pending.has_room(
                    shortcode,
                    *hits,
                ),
                _ => true,
            },
            _ => true,
        }
    }

    /// Takes one event and says what the driver must do next.
    pub fn step(&mut self, event: Event) -> (action: Action)
        requires
            fits(old(self)@, event@),
        ensures
            final(self)@ == next(old(self)@, event@),
            answers(old(self)@, event@, action@),
    {
        match self.phase {
            Phase::Running => match event {
                Event::Received(Message::Increment(shortcode, hits)) => {
                    self.pending.record(shortcode, hits);
                    Action::Poll
                },
                Event::Received(Message::FlushTick) | Event::Waited => {
                    let batch = self.pending.take();
                    Action::Commit(batch)
                },
                Event::Idle => Action::Wait(IDLE_INTERVAL_SECS),
                Event::Committed => Action::Poll,
                Event::Closed => {
                    let batch = self.pending.take();
                    self.phase = Phase::Terminating;
                    Action::Commit(batch)
                },
            },
            Phase::Terminating => {
                self.phase = Phase::Stopped;
                Action::Stop
            },
            Phase::Stopped => Action::Stop,
        }
    }

    /// Takes `event` if it fits and says what the driver must do next;
    /// otherwise gives the event back and changes nothing.
    pub fn try_step(&mut self, event: Event) -> (outcome: Result<Action, Event>)
        ensures
            match outcome {
                Ok(action) => fits(old(self)@, event@) && final(self)@ == next(old(self)@, event@)
                    && answers(old(self)@, event@, action@),
                Err(refused) => !fits(old(self)@, event@) && final(self)@ == old(self)@
                    && refused == event,
            },
    {
        if self.accepts(&event) {
            Ok(self.step(event))
        } else {
            Err(event)
        }
    }
}

} // verus!
