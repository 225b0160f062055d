//! The phases of a channel, and what takes it from one to the next.
//!
//! A channel is opened, played round by round, and closed; a channel whose
//! other party has gone silent is disputed and then closed. What happens
//! in a phase that has no place for it is refused and changes nothing.

use vstd::prelude::*;
use crate::cache::channel::{unopened, ChannelCache};
use crate::error::ChannelError;

verus! {

/// Where a channel stands.
#[derive(Clone, Copy, Debug, PartialEq, Eq, Structural)]
pub enum ChannelPhase {
    /// No channel yet.
    Unopened,
    /// The opening transaction is on its way.
    Opening,
    /// The channel is open: rounds are played.
    Open,
    /// The other party has gone silent: the channel is settled on the
    /// ledger.
    Disputed,
    /// The closing transaction is on its way.
    Closing,
    /// The channel is closed, and its record is removed.
    Closed,
}

/// What happens to a channel.
#[derive(Clone, Copy, Debug, PartialEq, Eq, Structural)]
pub enum ProtocolEvent {
    /// The opening transaction was handed to the other party.
    OpenStarted,
    /// The opening transaction was seen committed by both parties.
    OpenConfirmed,
    /// An operation of the round was committed.
    OperationCommitted,
    /// A round was closed under a history that verifies.
    RoundAdvanced,
    /// A party asked to close the channel by agreement.
    CloseStarted,
    /// The other party stopped answering.
    CounterpartySilent,
    /// The record was reconciled with what the ledger holds.
    Reconciled,
    /// The closing transaction was seen committed.
    CloseConfirmed,
}

/// The phase that an event leads to from a phase, or nothing where the
/// phase has no place for the event.
pub open spec fn spec_next_phase(phase: ChannelPhase, event: ProtocolEvent) -> Option<ChannelPhase> {
    match (phase, event) {
        (ChannelPhase::Unopened, ProtocolEvent::OpenStarted) => Some(ChannelPhase::Opening),
        (ChannelPhase::Opening, ProtocolEvent::OpenConfirmed) => Some(ChannelPhase::Open),
        (ChannelPhase::Open, ProtocolEvent::OperationCommitted) => Some(ChannelPhase::Open),
        (ChannelPhase::Open, ProtocolEvent::RoundAdvanced) => Some(ChannelPhase::Open),
        (ChannelPhase::Open, ProtocolEvent::CloseStarted) => Some(ChannelPhase::Closing),
        (ChannelPhase::Open, ProtocolEvent::CounterpartySilent) => Some(ChannelPhase::Disputed),
        (ChannelPhase::Disputed, ProtocolEvent::Reconciled) => Some(ChannelPhase::Closing),
        (ChannelPhase::Closing, ProtocolEvent::CloseConfirmed) => Some(ChannelPhase::Closed),
        _ => None,
    }
}

/// The phase after the events in order, or nothing where one of them has no
/// place in the phase that the events before it have led to.
pub open spec fn phase_after(phase: ChannelPhase, events: Seq<ProtocolEvent>) -> Option<ChannelPhase>
    decreases events.len(),
{
    if events.len() == 0 {
        Some(phase)
    } else {
        match phase_after(phase, events.drop_last()) {
            Some(before) => spec_next_phase(before, events.last()),
            None => None,
        }
    }
}

/// The order of the phases: a channel never goes back.
pub open spec fn phase_rank(phase: ChannelPhase) -> int {
    match phase {
        ChannelPhase::Unopened => 0,
        ChannelPhase::Opening => 1,
        ChannelPhase::Open => 2,
        ChannelPhase::Disputed => 3,
        ChannelPhase::Closing => 4,
        ChannelPhase::Closed => 5,
    }
}

/// Whatever happens, a channel does not go back to an earlier phase, a
/// closed channel stays closed, rounds are played and disputes begin in an
/// open channel only, and a channel is closed only after it was open.
pub proof fn lemma_phases_in_order(phase: ChannelPhase, events: Seq<ProtocolEvent>)
    requires
        phase_after(phase, events).is_some(),
    ensures
        phase_rank(phase) <= phase_rank(phase_after(phase, events).unwrap()),
        phase == ChannelPhase::Closed ==> events.len() == 0,
        forall|i: int|
            0 <= i < events.len() && (#[trigger] events[i] == ProtocolEvent::RoundAdvanced || events[i]
                == ProtocolEvent::OperationCommitted || events[i] == ProtocolEvent::CounterpartySilent)
                ==> phase_after(phase, events.take(i)) == Some(ChannelPhase::Open),
        phase_rank(phase) < 2 && phase_rank(phase_after(phase, events).unwrap()) > 2 ==> exists|i: int|
            0 <= i < events.len() && #[trigger] phase_after(phase, events.take(i)) == Some(
                ChannelPhase::Open,
            ),
    decreases events.len(),
{
    if events.len() > 0 {
        let before = events.drop_last();
        lemma_phases_in_order(phase, before);
        let last = events.len() - 1;
        assert(events.take(last) =~= before);
        assert forall|i: int|
            0 <= i < events.len() && (#[trigger] events[i] == ProtocolEvent::RoundAdvanced || events[i]
                == ProtocolEvent::OperationCommitted || events[i] == ProtocolEvent::CounterpartySilent)
            implies phase_after(phase, events.take(i)) == Some(ChannelPhase::Open) by {
            if i < last {
                assert(events.take(i) =~= before.take(i));
                assert(events[i] == before[i]);
            }
        }
        let reached = phase_after(phase, before).unwrap();
        if phase_rank(phase) < 2 && phase_rank(phase_after(phase, events).unwrap()) > 2 {
            if phase_rank(reached) > 2 {
                let i = choose|i: int|
                    0 <= i < before.len() && #[trigger] phase_after(phase, before.take(i)) == Some(
                        ChannelPhase::Open,
                    );
                assert(events.take(i) =~= before.take(i));
            } else {
                assert(reached == ChannelPhase::Open);
                assert(phase_after(phase, events.take(last)) == Some(ChannelPhase::Open));
            }
        }
    }
}

/// The phase that an event leads to from a phase; `InvalidState` where the
/// phase has no place for the event.
pub fn next_phase(phase: ChannelPhase, event: ProtocolEvent) -> (next: Result<ChannelPhase, ChannelError>)
    ensures
        match spec_next_phase(phase, event) {
            Some(after) => next == Ok::<ChannelPhase, ChannelError>(after),
            None => next == Err::<ChannelPhase, ChannelError>(ChannelError::InvalidState),
        },
{
    match (phase, event) {
        (ChannelPhase::Unopened, ProtocolEvent::OpenStarted) => Ok(ChannelPhase::Opening),
        (ChannelPhase::Opening, ProtocolEvent::OpenConfirmed) => Ok(ChannelPhase::Open),
        (ChannelPhase::Open, ProtocolEvent::OperationCommitted) => Ok(ChannelPhase::Open),
        (ChannelPhase::Open, ProtocolEvent::RoundAdvanced) => Ok(ChannelPhase::Open),
        (ChannelPhase::Open, ProtocolEvent::CloseStarted) => Ok(ChannelPhase::Closing),
        (ChannelPhase::Open, ProtocolEvent::CounterpartySilent) => Ok(ChannelPhase::Disputed),
        (ChannelPhase::Disputed, ProtocolEvent::Reconciled) => Ok(ChannelPhase::Closing),
        (ChannelPhase::Closing, ProtocolEvent::CloseConfirmed) => Ok(ChannelPhase::Closed),
        _ => Err(ChannelError::InvalidState),
    }
}

/// The phase of a channel whose record was brought back: open where a round
/// has been played or signed, unopened where none has.
pub fn recovered_phase(channel: &ChannelCache) -> (phase: ChannelPhase)
    ensures
        phase == if unopened(channel@) {
            ChannelPhase::Unopened
        } else {
            ChannelPhase::Open
        },
{
    if channel.round == 0 && channel.signed_rounds.len() == 0 {
        ChannelPhase::Unopened
    } else {
        ChannelPhase::Open
    }
}

} // verus!
