//! The outer loop: one session after another until the deadline.
//!
//! Two things can happen to a run: the session under way ends, or the
//! deadline of the whole run passes. The supervisor answers the first with a
//! pause and a new session, however often it happens, and only the second
//! with the final report and the end of the run.

use crate::session::SessionEnd;
use vstd::prelude::*;

verus! {

/// Milliseconds between the end of one session and the start of the next.
pub const BACKOFF_MS: u64 = 1000;

/// Where a run stands.
#[derive(Clone, Copy, Debug, PartialEq, Eq, Structural)]
pub enum SupervisorState {
    /// A session is under way.
    Streaming,
    /// The last session is over and the next has not begun.
    BackingOff,
    /// The deadline has passed.
    Stopped,
}

/// What can happen to a run.
#[derive(Clone, Copy, Debug, PartialEq, Eq, Structural)]
pub enum SupervisorEvent {
    /// The session under way ended.
    SessionEnded(SessionEnd),
    /// The pause after a session is over.
    BackoffElapsed,
    /// The deadline of the run has passed.
    DeadlineElapsed,
}

/// What the supervisor asks its caller to do next.
#[derive(Clone, Copy, Debug, PartialEq, Eq, Structural)]
pub enum SupervisorAction {
    /// Log how the session ended and wait `millis` milliseconds.
    Backoff { ended: SessionEnd, millis: u64 },
    /// Start a new session, which has seen no slot.
    StartSession,
    /// Emit the final report and shut down.
    Report,
    /// Nothing: the event has no place in this state.
    Ignore,
}

/// Where `event` takes a run in `state`, and what the supervisor asks for.
pub open spec fn supervise(state: SupervisorState, event: SupervisorEvent) -> (
    SupervisorState,
    SupervisorAction,
) {
    match (state, event) {
        (SupervisorState::Stopped, _) => (SupervisorState::Stopped, SupervisorAction::Ignore),
        (_, SupervisorEvent::DeadlineElapsed) => (
            SupervisorState::Stopped,
            SupervisorAction::Report,
        ),
        (SupervisorState::Streaming, SupervisorEvent::SessionEnded(ended)) => (
            SupervisorState::BackingOff,
            SupervisorAction::Backoff { ended, millis: BACKOFF_MS },
        ),
        (SupervisorState::BackingOff, SupervisorEvent::BackoffElapsed) => (
            SupervisorState::Streaming,
            SupervisorAction::StartSession,
        ),
        _ => (state, SupervisorAction::Ignore),
    }
}

/// Where a run stands after `events`, having begun with a session under way.
pub open spec fn state_after(events: Seq<SupervisorEvent>) -> SupervisorState
    decreases events.len(),
{
    if events.len() == 0 {
        SupervisorState::Streaming
    } else {
        supervise(state_after(events.drop_last()), events.last()).0
    }
}

/// The supervisor of a run. Its view is the state of the run.
pub struct ConnectionSupervisor {
    state: SupervisorState,
}

impl View for ConnectionSupervisor {
    type V = SupervisorState;

    closed spec fn view(&self) -> SupervisorState {
        self.state
    }
}

impl ConnectionSupervisor {
    /// The supervisor of a run whose first session is under way.
    pub fn new() -> (supervisor: Self)
        ensures
            supervisor@ == SupervisorState::Streaming,
    {
        ConnectionSupervisor { state: SupervisorState::Streaming }
    }

    /// Where the run stands.
    pub fn state(&self) -> (state: SupervisorState)
        ensures
            state == self@,
    {
        self.state
    }

    /// Moves the run on by one event and answers with what to do next.
    pub fn step(&mut self, event: SupervisorEvent) -> (action: SupervisorAction)
        ensures
            (final(self)@, action) == supervise(old(self)@, event),
    {
        match self.state {
            SupervisorState::Stopped => SupervisorAction::Ignore,
            SupervisorState::Streaming => match event {
                SupervisorEvent::DeadlineElapsed => {
                    self.state = SupervisorState::Stopped;
                    SupervisorAction::Report
                },
                SupervisorEvent::SessionEnded(ended) => {
                    self.state = SupervisorState::BackingOff;
                    SupervisorAction::Backoff { ended, millis: BACKOFF_MS }
                },
                SupervisorEvent::BackoffElapsed => SupervisorAction::Ignore,
            },
            SupervisorState::BackingOff => match event {
                SupervisorEvent::DeadlineElapsed => {
                    self.state = SupervisorState::Stopped;
                    SupervisorAction::Report
                },
                SupervisorEvent::BackoffElapsed => {
                    self.state = SupervisorState::Streaming;
                    SupervisorAction::StartSession
                },
                SupervisorEvent::SessionEnded(_) => SupervisorAction::Ignore,
            },
        }
    }
}

/// A run is over exactly if its deadline has passed: no number of sessions
/// that end, with or without an error, stops it.
pub proof fn lemma_only_deadline_stops(events: Seq<SupervisorEvent>)
    ensures
        state_after(events) == SupervisorState::Stopped <==> events.contains(
            SupervisorEvent::DeadlineElapsed,
        ),
    decreases events.len(),
{
    if events.len() > 0 {
        let rest = events.drop_last();
        lemma_only_deadline_stops(rest);
        if rest.contains(SupervisorEvent::DeadlineElapsed) {
            let i = choose|i: int|
                0 <= i < rest.len() && rest[i] == SupervisorEvent::DeadlineElapsed;
            assert(events[i] == SupervisorEvent::DeadlineElapsed);
        }
        if events.last() == SupervisorEvent::DeadlineElapsed {
            assert(events[events.len() - 1] == SupervisorEvent::DeadlineElapsed);
        }
        if events.contains(SupervisorEvent::DeadlineElapsed) {
            let i = choose|i: int|
                0 <= i < events.len() && events[i] == SupervisorEvent::DeadlineElapsed;
            if i < rest.len() {
                assert(rest[i] == SupervisorEvent::DeadlineElapsed);
            }
        }
    }
}

/// The final report is asked for once in a run: by the first deadline event,
/// and by nothing after it.
pub proof fn lemma_report_once(events: Seq<SupervisorEvent>, event: SupervisorEvent)
    ensures
        supervise(state_after(events), event).1 == SupervisorAction::Report <==> (event
            == SupervisorEvent::DeadlineElapsed && !events.contains(
            SupervisorEvent::DeadlineElapsed,
        )),
{
    lemma_only_deadline_stops(events);
}

} // verus!
