//! One connection to the proxy, from dialling to its end.
//!
//! The session decides; its caller does the waiting. Each event that the
//! transport delivers goes to [`StreamSession::step`], which moves the
//! session on and answers with what to do next.

use crate::decode::{decode_entries, decoded_batch};
use crate::dedup::SlotDeduplicator;
use crate::records::{batch_view, Record, RecordView};
use crate::sink::{output_fits, BatchOutput, Sink};
use vstd::prelude::*;

verus! {

/// How a session ended.
#[derive(Clone, Copy, Debug, PartialEq, Eq, Structural)]
pub enum SessionEnd {
    /// The stream ran out without an error.
    Graceful,
    /// Dialling, subscribing or the stream failed.
    Error,
}

/// Where a session stands.
#[derive(Clone, Copy, Debug, PartialEq, Eq, Structural)]
pub enum SessionPhase {
    /// The proxy is being dialled.
    Connecting,
    /// The connection stands and the subscription is being opened.
    Subscribed,
    /// Messages are being pulled from the stream.
    Receiving,
    /// The session is over.
    Ended(SessionEnd),
}

/// What the transport reports to a session.
#[derive(Clone, Debug, PartialEq, Eq)]
pub enum SessionEvent {
    /// The dial succeeded.
    Connected,
    /// The dial failed.
    ConnectFailed,
    /// The subscription was opened.
    SubscriptionOpened,
    /// The subscription was refused.
    SubscriptionFailed,
    /// A batch arrived.
    Message { slot: u64, payload: Vec<u8> },
    /// The stream reported an error.
    StreamFailed,
    /// The stream ran out.
    StreamClosed,
}

/// What a session asks its caller to do next.
#[derive(Clone, Debug, PartialEq, Eq)]
pub enum SessionAction {
    /// Open the subscription.
    Subscribe,
    /// Pull the next message.
    Pull,
    /// Do what the sink asks for, then pull the next message.
    Emit(BatchOutput),
    /// Log that the batch of `slot` could not be decoded, then pull the next
    /// message.
    SkipBatch { slot: u64, reason: String },
    /// Wait for the lookups still under way, then hand the end to the
    /// supervisor.
    Finish(SessionEnd),
    /// Nothing: the event has no place in this phase.
    Ignore,
}

/// A session in specifications: its phase and the slots it has seen.
pub struct SessionView {
    pub phase: SessionPhase,
    pub seen: Set<u64>,
}

/// Where an event other than a message takes a session in `phase`, and what
/// the session asks for. An event that the phase does not wait for changes
/// nothing.
pub open spec fn signal_outcome(phase: SessionPhase, event: SessionEvent) -> (
    SessionPhase,
    SessionAction,
) {
    match (phase, event) {
        (SessionPhase::Connecting, SessionEvent::Connected) => (
            SessionPhase::Subscribed,
            SessionAction::Subscribe,
        ),
        (SessionPhase::Connecting, SessionEvent::ConnectFailed) => (
            SessionPhase::Ended(SessionEnd::Error),
            SessionAction::Finish(SessionEnd::Error),
        ),
        (SessionPhase::Subscribed, SessionEvent::SubscriptionOpened) => (
            SessionPhase::Receiving,
            SessionAction::Pull,
        ),
        (SessionPhase::Subscribed, SessionEvent::SubscriptionFailed) => (
            SessionPhase::Ended(SessionEnd::Error),
            SessionAction::Finish(SessionEnd::Error),
        ),
        (SessionPhase::Receiving, SessionEvent::StreamFailed) => (
            SessionPhase::Ended(SessionEnd::Error),
            SessionAction::Finish(SessionEnd::Error),
        ),
        (SessionPhase::Receiving, SessionEvent::StreamClosed) => (
            SessionPhase::Ended(SessionEnd::Graceful),
            SessionAction::Finish(SessionEnd::Graceful),
        ),
        _ => (phase, SessionAction::Ignore),
    }
}

/// Whether a session that stood at `before` has dealt rightly with a batch
/// for `slot` by standing at `after` and asking for `action`. `decoded` is
/// the batch, or `None` where its payload could not be decoded.
///
/// Outside the receiving phase nothing changes. In it, a batch that could
/// not be decoded is skipped and its slot not recorded; any other has its
/// slot recorded and goes to the sink.
pub open spec fn batch_handled(
    before: SessionView,
    sink: Sink,
    slot: u64,
    decoded: Option<Seq<RecordView>>,
    after: SessionView,
    action: SessionAction,
) -> bool {
    if before.phase != SessionPhase::Receiving {
        after == before && action == SessionAction::Ignore
    } else {
        match decoded {
            None => {
                &&& after == before
                &&& action matches SessionAction::SkipBatch { slot: skipped, .. }
                &&& skipped == slot
            },
            Some(batch) => {
                &&& after.phase == SessionPhase::Receiving
                &&& after.seen == before.seen.insert(slot)
                &&& action matches SessionAction::Emit(output)
                &&& output_fits(sink, slot, !before.seen.contains(slot), batch, output)
            },
        }
    }
}

/// The decoded batch as specifications see it.
pub open spec fn decoded_view(decoded: Result<Vec<Record>, String>) -> Option<Seq<RecordView>> {
    match decoded {
        Ok(batch) => Some(batch_view(batch@)),
        Err(_) => None,
    }
}

/// One connection attempt and the slots seen on it.
pub struct StreamSession {
    phase: SessionPhase,
    seen: SlotDeduplicator,
}

impl View for StreamSession {
    type V = SessionView;

    closed spec fn view(&self) -> SessionView {
        SessionView { phase: self.phase, seen: self.seen@ }
    }
}

impl StreamSession {
    /// A session about to dial, which has seen no slot.
    pub fn new() -> (session: Self)
        ensures
            session@ == (SessionView { phase: SessionPhase::Connecting, seen: Set::empty() }),
    {
        StreamSession { phase: SessionPhase::Connecting, seen: SlotDeduplicator::new() }
    }

    /// Where the session stands.
    pub fn phase(&self) -> (phase: SessionPhase)
        ensures
            phase == self@.phase,
    {
        self.phase
    }

    /// Whether the session has recorded `slot`.
    pub fn has_seen(&self, slot: u64) -> (seen: bool)
        ensures
            seen == self@.seen.contains(slot),
    {
        self.seen.contains(slot)
    }

    /// Deals with a batch for `slot` whose payload was decoded to `decoded`.
    pub fn on_decoded(
        &mut self,
        sink: &Sink,
        slot: u64,
        decoded: Result<Vec<Record>, String>,
    ) -> (action: SessionAction)
        ensures
            batch_handled(old(self)@, *sink, slot, decoded_view(decoded), final(self)@, action),
            old(self)@.phase == SessionPhase::Receiving ==> (decoded matches Err(reason) ==> action
                == (SessionAction::SkipBatch { slot, reason })),
    {
        match self.phase {
            SessionPhase::Receiving => match decoded {
                Err(reason) => SessionAction::SkipBatch { slot, reason },
                Ok(batch) => {
                    let is_new = self.seen.mark_if_new(slot);
                    SessionAction::Emit(sink.consume(slot, is_new, &batch))
                },
            },
            _ => SessionAction::Ignore,
        }
    }

    /// Moves the session on by one event and answers with what to do next.
    ///
    /// A message is decoded and dealt with as `on_decoded` says. Every other
    /// event moves the phase as `signal_outcome` says and leaves the recorded
    /// slots alone.
    pub fn step(&mut self, sink: &Sink, event: SessionEvent) -> (action: SessionAction)
        ensures
            match event {
                SessionEvent::Message { slot, payload } => batch_handled(
                    old(self)@,
                    *sink,
                    slot,
                    decoded_batch(payload@),
                    final(self)@,
                    action,
                ),
                _ => {
                    &&& final(self)@.seen == old(self)@.seen
                    &&& (final(self)@.phase, action) == signal_outcome(old(self)@.phase, event)
                },
            },
    {
        match event {
            SessionEvent::Message { slot, payload } => {
                match self.phase {
                    SessionPhase::Receiving => {
                        let decoded = decode_entries(payload.as_slice());
                        self.on_decoded(sink, slot, decoded)
                    },
                    _ => SessionAction::Ignore,
                }
            },
            SessionEvent::Connected => match self.phase {
                SessionPhase::Connecting => {
                    self.phase = SessionPhase::Subscribed;
                    SessionAction::Subscribe
                },
                _ => SessionAction::Ignore,
            },
            SessionEvent::ConnectFailed => match self.phase {
                SessionPhase::Connecting => self.finish(SessionEnd::Error),
                _ => SessionAction::Ignore,
            },
            SessionEvent::SubscriptionOpened => match self.phase {
                SessionPhase::Subscribed => {
                    self.phase = SessionPhase::Receiving;
                    SessionAction::Pull
                },
                _ => SessionAction::Ignore,
            },
            SessionEvent::SubscriptionFailed => match self.phase {
                SessionPhase::Subscribed => self.finish(SessionEnd::Error),
                _ => SessionAction::Ignore,
            },
            SessionEvent::StreamFailed => match self.phase {
                SessionPhase::Receiving => self.finish(SessionEnd::Error),
                _ => SessionAction::Ignore,
            },
            SessionEvent::StreamClosed => match self.phase {
                SessionPhase::Receiving => self.finish(SessionEnd::Graceful),
                _ => SessionAction::Ignore,
            },
        }
    }

    /// Ends the session with `end`.
    fn finish(&mut self, end: SessionEnd) -> (action: SessionAction)
        ensures
            final(self)@ == (SessionView {
                phase: SessionPhase::Ended(end),
                seen: old(self)@.seen,
            }),
            action == SessionAction::Finish(end),
    {
        self.phase = SessionPhase::Ended(end);
        SessionAction::Finish(end)
    }
}

/// While a session measures latency, a batch asks for a measurement exactly
/// if its slot has not been seen in the session, and a batch that follows
/// for the same slot asks for none.
pub proof fn lemma_measured_once(
    before: SessionView,
    slot: u64,
    first: Seq<RecordView>,
    between: SessionView,
    first_action: SessionAction,
    second: Seq<RecordView>,
    after: SessionView,
    second_action: SessionAction,
)
    requires
        before.phase == SessionPhase::Receiving,
        batch_handled(before, Sink::LatencyMeasurement, slot, Some(first), between, first_action),
        batch_handled(between, Sink::LatencyMeasurement, slot, Some(second), after, second_action),
    ensures
        first_action == SessionAction::Emit(BatchOutput::Measure { slot })
            <==> !before.seen.contains(slot),
        second_action == SessionAction::Emit(BatchOutput::Nothing),
        after.seen == between.seen,
{
    assert(between.seen.insert(slot) =~= between.seen);
}

} // verus!
