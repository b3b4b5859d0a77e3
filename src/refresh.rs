//! The refresh loop as a state machine: from a phase and the outcome of the
//! last action to the next phase and the action to perform.
use vstd::prelude::*;

verus! {

/// Phases of the refresh loop.
#[derive(Clone, Copy, Debug, PartialEq, Eq)]
pub enum Phase {
    Idle,
    Entering,
    Drawing,
    Sleeping,
    Exiting { failed: bool },
    Exited,
}

/// What the driver performs on entering a phase.
#[derive(Clone, Copy, Debug, PartialEq, Eq)]
pub enum Action {
    /// Enter the alternate screen and hide the cursor.
    AcquireTerminal,
    /// Sample the instant, clear, emit the lines and flush.
    Draw,
    /// Wait for the refresh interval.
    Sleep,
    /// Show the cursor and leave the alternate screen.
    RestoreTerminal,
    /// Terminate, successfully or not.
    Finish { success: bool },
    /// Nothing left to do.
    Nothing,
}

/// The outcome of the last action, and the stop flag as last sampled.
#[derive(Clone, Copy, Debug, PartialEq, Eq)]
pub struct Event {
    pub failed: bool,
    pub stop_requested: bool,
}

/// One transition. A draw in progress completes whatever the stop flag says;
/// the flag is honoured after a sleep; a failure to acquire the terminal or to
/// draw leads to a best-effort restore.
pub open spec fn transition(phase: Phase, event: Event) -> (Phase, Action) {
    match phase {
        Phase::Idle => (Phase::Entering, Action::AcquireTerminal),
        Phase::Entering => if event.failed {
            (Phase::Exiting { failed: true }, Action::RestoreTerminal)
        } else {
            (Phase::Drawing, Action::Draw)
        },
        Phase::Drawing => if event.failed {
            (Phase::Exiting { failed: true }, Action::RestoreTerminal)
        } else {
            (Phase::Sleeping, Action::Sleep)
        },
        Phase::Sleeping => if event.stop_requested {
            (Phase::Exiting { failed: false }, Action::RestoreTerminal)
        } else {
            (Phase::Drawing, Action::Draw)
        },
        Phase::Exiting { failed } => (Phase::Exited, Action::Finish { success: !failed }),
        Phase::Exited => (Phase::Exited, Action::Nothing),
    }
}

/// The next phase and the action to perform in it.
pub fn step(phase: Phase, event: Event) -> (r: (Phase, Action))
    ensures
        r == transition(phase, event),
{
    match phase {
        Phase::Idle => (Phase::Entering, Action::AcquireTerminal),
        Phase::Entering => {
            if event.failed {
                (Phase::Exiting { failed: true }, Action::RestoreTerminal)
            } else {
                (Phase::Drawing, Action::Draw)
            }
        },
        Phase::Drawing => {
            if event.failed {
                (Phase::Exiting { failed: true }, Action::RestoreTerminal)
            } else {
                (Phase::Sleeping, Action::Sleep)
            }
        },
        Phase::Sleeping => {
            if event.stop_requested {
                (Phase::Exiting { failed: false }, Action::RestoreTerminal)
            } else {
                (Phase::Drawing, Action::Draw)
            }
        },
        Phase::Exiting { failed } => (Phase::Exited, Action::Finish { success: !failed }),
        Phase::Exited => (Phase::Exited, Action::Nothing),
    }
}

/// The actions performed from `phase` over a sequence of events.
pub open spec fn actions(phase: Phase, events: Seq<Event>) -> Seq<Action>
    decreases events.len(),
{
    if events.len() == 0 {
        seq![]
    } else {
        let (next, a) = transition(phase, events[0]);
        seq![a] + actions(next, events.drop_first())
    }
}

/// The phase reached from `phase` over a sequence of events.
pub open spec fn reached(phase: Phase, events: Seq<Event>) -> Phase
    decreases events.len(),
{
    if events.len() == 0 {
        phase
    } else {
        reached(transition(phase, events[0]).0, events.drop_first())
    }
}

/// How many restores a sequence of actions holds.
pub open spec fn restores(a: Seq<Action>) -> nat
    decreases a.len(),
{
    if a.len() == 0 {
        0
    } else {
        (if a[0] == Action::RestoreTerminal { 1nat } else { 0nat }) + restores(a.drop_first())
    }
}

/// How many restores lie behind a phase.
pub open spec fn restored_by(phase: Phase) -> nat {
    match phase {
        Phase::Exiting { .. } | Phase::Exited => 1,
        _ => 0,
    }
}

proof fn lemma_restores_track_phase(phase: Phase, events: Seq<Event>)
    ensures
        restored_by(phase) + restores(actions(phase, events)) == restored_by(reached(phase, events)),
    decreases events.len(),
{
    if events.len() > 0 {
        let (next, a) = transition(phase, events[0]);
        lemma_restores_track_phase(next, events.drop_first());
        assert((seq![a] + actions(next, events.drop_first())).drop_first()
            =~= actions(next, events.drop_first()));
    }
}

/// From the idle phase, whatever the events (an interrupt during a draw, a
/// failure), the terminal is restored at most once, and exactly once by the
/// time the loop has exited.
pub proof fn lemma_restore_exactly_once(events: Seq<Event>)
    ensures
        restores(actions(Phase::Idle, events)) <= 1,
        reached(Phase::Idle, events) == Phase::Exited ==> restores(actions(Phase::Idle, events)) == 1,
{
    lemma_restores_track_phase(Phase::Idle, events);
}

} // verus!
