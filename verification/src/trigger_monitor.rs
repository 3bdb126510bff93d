//! The trigger that gates automatic recording. A presence oracle is
//! asked at a fixed cadence whether anything of interest is active; the
//! monitor turns its answers into events, one for each change.

use vstd::prelude::*;

verus! {

/// Whether the trigger condition held at the last poll.
#[derive(Debug, Clone, Copy, PartialEq, Eq, Structural)]
pub enum TriggerState {
    Inactive,
    Active,
}

/// A change of the trigger state.
#[derive(Debug, Clone, Copy, PartialEq, Eq, Structural)]
pub enum TriggerEvent {
    Activated,
    Deactivated,
}

/// The state that stands for an answer of the oracle.
pub open spec fn state_of(present: bool) -> TriggerState {
    if present {
        TriggerState::Active
    } else {
        TriggerState::Inactive
    }
}

/// The event of a poll: none while the answer agrees with the state, and
/// the change when it does not. One consistent answer is enough to change
/// the state.
pub open spec fn event_of(state: TriggerState, present: bool) -> Option<TriggerEvent> {
    match (state, present) {
        (TriggerState::Inactive, true) => Some(TriggerEvent::Activated),
        (TriggerState::Active, false) => Some(TriggerEvent::Deactivated),
        _ => None,
    }
}

/// The events of a series of polls, one entry for each poll.
pub open spec fn events_of(state: TriggerState, answers: Seq<bool>) -> Seq<Option<TriggerEvent>>
    decreases answers.len(),
{
    if answers.len() == 0 {
        Seq::empty()
    } else {
        seq![event_of(state, answers[0])] + events_of(state_of(answers[0]), answers.drop_first())
    }
}

/// The number of events in a series that are `event`.
pub open spec fn occurrences(events: Seq<Option<TriggerEvent>>, event: TriggerEvent) -> nat
    decreases events.len(),
{
    if events.len() == 0 {
        0
    } else {
        occurrences(events.drop_last(), event) + if events.last() == Some(event) {
            1nat
        } else {
            0nat
        }
    }
}

/// Follows the answers of a presence oracle and reports each change
/// once.
#[derive(Debug, Clone, Copy, PartialEq, Eq, Structural)]
pub struct TriggerMonitor {
    pub state: TriggerState,
}

impl TriggerMonitor {
    /// A monitor in the state `Inactive`.
    pub fn new() -> (m: TriggerMonitor)
        ensures
            m.state == TriggerState::Inactive,
    {
        TriggerMonitor { state: TriggerState::Inactive }
    }

    /// The state after the last poll.
    pub fn state(&self) -> (s: TriggerState)
        ensures
            s == self.state,
    {
        self.state
    }

    /// Whether the trigger condition held at the last poll.
    pub fn is_active(&self) -> (b: bool)
        ensures
            b == (self.state == TriggerState::Active),
    {
        match self.state {
            TriggerState::Active => true,
            TriggerState::Inactive => false,
        }
    }

    /// Takes one answer of the oracle. The state follows the answer, and
    /// an event comes back exactly when the state changed.
    pub fn poll(&mut self, present: bool) -> (event: Option<TriggerEvent>)
        ensures
            final(self).state == state_of(present),
            event == event_of(old(self).state, present),
    {
        let event = match self.state {
            TriggerState::Inactive => if present {
                Some(TriggerEvent::Activated)
            } else {
                None
            },
            TriggerState::Active => if present {
                None
            } else {
                Some(TriggerEvent::Deactivated)
            },
        };
        self.state = if present {
            TriggerState::Active
        } else {
            TriggerState::Inactive
        };
        event
    }
}

/// Events are edge-triggered: poll `j` of a series gives an event exactly
/// when its answer differs from the one before it, or, for the first poll,
/// from the state the series began in.
pub proof fn lemma_edge_triggered(state: TriggerState, answers: Seq<bool>, j: int)
    requires
        0 <= j < answers.len(),
    ensures
        events_of(state, answers).len() == answers.len(),
        events_of(state, answers)[j] == event_of(
            if j == 0 {
                state
            } else {
                state_of(answers[j - 1])
            },
            answers[j],
        ),
    decreases answers.len(),
{
    lemma_events_len(state, answers);
    if j > 0 {
        lemma_edge_triggered(state_of(answers[0]), answers.drop_first(), j - 1);
    }
}

/// A series of polls gives one entry for each poll.
pub proof fn lemma_events_len(state: TriggerState, answers: Seq<bool>)
    ensures
        events_of(state, answers).len() == answers.len(),
    decreases answers.len(),
{
    if answers.len() > 0 {
        lemma_events_len(state_of(answers[0]), answers.drop_first());
    }
}

/// An oracle that keeps saying yes activates an inactive monitor once:
/// the first poll gives `Activated`, every later poll gives nothing, and
/// so the whole series holds exactly one activation and no
/// deactivation.
pub proof fn lemma_steady_presence_activates_once(answers: Seq<bool>)
    requires
        answers.len() > 0,
        forall|j: int| 0 <= j < answers.len() ==> answers[j],
    ensures
        events_of(TriggerState::Inactive, answers).len() == answers.len(),
        events_of(TriggerState::Inactive, answers)[0] == Some(TriggerEvent::Activated),
        forall|j: int| 1 <= j < answers.len() ==> events_of(TriggerState::Inactive, answers)[j] is None,
        occurrences(events_of(TriggerState::Inactive, answers), TriggerEvent::Activated) == 1,
        occurrences(events_of(TriggerState::Inactive, answers), TriggerEvent::Deactivated) == 0,
{
    let events = events_of(TriggerState::Inactive, answers);
    lemma_events_len(TriggerState::Inactive, answers);
    assert forall|j: int| 0 <= j < answers.len() implies events[j] == if j == 0 {
        Some(TriggerEvent::Activated)
    } else {
        None::<TriggerEvent>
    } by {
        lemma_edge_triggered(TriggerState::Inactive, answers, j);
    }
    lemma_count_after_first(events, answers.len() as int);
    assert(events.subrange(0, answers.len() as int) =~= events);
}

/// In a series that begins with an activation and holds no other event,
/// every prefix that is not empty holds one activation and no
/// deactivation.
proof fn lemma_count_after_first(events: Seq<Option<TriggerEvent>>, n: int)
    requires
        1 <= n <= events.len(),
        events[0] == Some(TriggerEvent::Activated),
        forall|j: int| 1 <= j < events.len() ==> events[j] is None,
    ensures
        occurrences(events.subrange(0, n), TriggerEvent::Activated) == 1,
        occurrences(events.subrange(0, n), TriggerEvent::Deactivated) == 0,
    decreases n,
{
    let prefix = events.subrange(0, n);
    assert(prefix.drop_last() =~= events.subrange(0, n - 1));
    if n == 1 {
        assert(occurrences(events.subrange(0, 0), TriggerEvent::Activated) == 0);
        assert(occurrences(events.subrange(0, 0), TriggerEvent::Deactivated) == 0);
    } else {
        lemma_count_after_first(events, n - 1);
    }
}

} // verus!
