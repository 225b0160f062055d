//! Reconciliation with a challenge that was published on the ledger.
//!
//! When the other party has gone silent, what it has published on the
//! ledger is merged into the local record before the channel is closed, so
//! that the local party cannot close on a history that lacks operations to
//! which the other party is committed on the ledger.

use vstd::prelude::*;
use crate::cache::channel::{advance_round, countersign_outcome, countersign_round, get_clone, get_kabletop_signed_rounds, ChannelCache, ChannelView};
use crate::chain::{signed_rounds_view, SignedRound};
use crate::error::ChannelError;
use crate::round::{decode_texts, operations_equal, operations_from_bytes, operations_view, raw_view};

verus! {

/// The claim that a party has published on the ledger: who published it,
/// the operations that it holds to be in flight, and the signature of the
/// last hand-over.
#[derive(Clone, Debug, PartialEq, Eq)]
pub struct Challenge {
    pub challenger: u8,
    pub operations: Vec<Vec<u8>>,
    pub snapshot_signature: [u8; 65],
}

/// What a challenge holds, as mathematical values.
pub struct ChallengeView {
    pub challenger: u8,
    pub operations: Seq<Seq<u8>>,
    pub snapshot_signature: Seq<u8>,
}

impl View for Challenge {
    type V = ChallengeView;

    open spec fn view(&self) -> ChallengeView {
        ChallengeView {
            challenger: self.challenger,
            operations: raw_view(self.operations@),
            snapshot_signature: self.snapshot_signature@,
        }
    }
}

/// Whether the record already holds what the challenge claims: nothing is
/// pending, and the claimed operations, if there are any, are the last
/// signed round, as a round of the other party.
pub open spec fn challenge_reflected(channel: ChannelView, operations: Seq<Seq<char>>) -> bool {
    &&& channel.round_operations.len() == 0
    &&& operations.len() == 0 || (channel.signed_rounds.len() > 0 && channel.signed_rounds.last().round.user_type
        == channel.opponent_type && channel.signed_rounds.last().round.operations == operations)
}

/// The record with the round given to the party of type `owner`, as a
/// dispute does.
pub open spec fn reassigned(channel: ChannelView, owner: u8) -> ChannelView {
    ChannelView { round_owner: owner, ..channel }
}

/// The record once what is pending has been closed as the local party's
/// round under the challenge's signature; the record itself where nothing
/// is pending.
pub open spec fn fold_pending(channel: ChannelView, snapshot_signature: Seq<u8>) -> Result<
    ChannelView,
    ChannelError,
> {
    if channel.round_operations.len() == 0 {
        Ok(channel)
    } else {
        reassigned(channel, channel.user_type).advance_outcome(channel.user_type, snapshot_signature)
    }
}

/// The record once the claimed operations have been closed as a round of
/// the other party under the local party's own signature; the record itself
/// where none are claimed.
pub open spec fn fold_claimed(channel: ChannelView, operations: Seq<Seq<char>>, privkey: Seq<u8>) -> Result<
    ChannelView,
    ChannelError,
> {
    if operations.len() == 0 {
        Ok(channel)
    } else {
        match countersign_outcome(
            ChannelView {
                round_operations: channel.round_operations + operations,
                round_owner: channel.opponent_type,
                ..channel
            },
            privkey,
        ) {
            Ok((signature, next)) => Ok(next),
            Err(error) => Err(error),
        }
    }
}

/// What reconciliation with a challenge comes to: the record afterwards and
/// whether anything of the challenge was taken, or the reason why nothing
/// changes.
pub open spec fn reconcile_outcome(channel: ChannelView, challenge: ChallengeView, privkey: Seq<u8>) -> Result<
    (ChannelView, bool),
    ChannelError,
> {
    if challenge.challenger == channel.user_type {
        Err(ChannelError::DuplicateChallenge)
    } else {
        match decode_texts(challenge.operations) {
            None => Err(ChannelError::MalformedRound),
            Some(operations) => if challenge_reflected(channel, operations) {
                Ok((channel, false))
            } else {
                match fold_pending(channel, challenge.snapshot_signature) {
                    Err(error) => Err(error),
                    Ok(folded) => match fold_claimed(folded, operations, privkey) {
                        Err(error) => Err(error),
                        Ok(next) => Ok((next, true)),
                    },
                }
            },
        }
    }
}

/// What completing the history for a dispute comes to, for what was found
/// on the ledger: whether the channel's cell is there, and the challenge in
/// it, if there is one.
pub open spec fn complete_outcome(
    channel: ChannelView,
    cell_found: bool,
    challenge: Option<ChallengeView>,
    privkey: Seq<u8>,
) -> Result<(ChannelView, bool), ChannelError> {
    if !cell_found {
        Err(ChannelError::InvalidState)
    } else {
        match challenge {
            None => Ok((channel, false)),
            Some(challenge) => reconcile_outcome(channel, challenge, privkey),
        }
    }
}

/// Reconciliation is idempotent: on a record that a reconciliation has left
/// behind, reconciliation with the same challenge changes nothing and says
/// that nothing was taken.
pub proof fn lemma_reconcile_idempotent(channel: ChannelView, challenge: ChallengeView, privkey: Seq<u8>)
    requires
        reconcile_outcome(channel, challenge, privkey).is_ok(),
    ensures
        reconcile_outcome(reconcile_outcome(channel, challenge, privkey).unwrap().0, challenge, privkey)
            == Ok::<(ChannelView, bool), ChannelError>(
            (reconcile_outcome(channel, challenge, privkey).unwrap().0, false),
        ),
{
}

/// Completes the history of signed rounds for a dispute.
///
/// `cell_found` says whether the channel's cell is on the ledger, and
/// `challenge` is the challenge published in it, if there is one. Without a
/// cell there is no channel to dispute: `InvalidState`. Without a challenge
/// the history is complete as it stands. With one:
/// - a challenge of the local party's own is `DuplicateChallenge`;
/// - claimed operations that are not valid UTF-8 are `MalformedRound`;
/// - where the record already holds what the challenge claims, nothing is
///   taken;
/// - otherwise what is pending is closed as the local party's round under
///   the challenge's signature, and the claimed operations are closed as a
///   round of the other party under the local party's own signature. Each
///   of the two is verified as `advance_round` verifies.
///
/// The history afterwards is returned together with whether anything of the
/// challenge was taken. On an error the record stays as it is.
pub fn complete_signed_rounds_for_challenge(
    channel: &mut ChannelCache,
    cell_found: bool,
    challenge: Option<&Challenge>,
    privkey: &[u8; 32],
) -> (done: Result<(Vec<SignedRound>, bool), ChannelError>)
    ensures
        match complete_outcome(
            old(channel)@,
            cell_found,
            match challenge {
                Some(challenge) => Some(challenge@),
                None => None,
            },
            privkey@,
        ) {
            Ok((next, taken)) => done.is_ok() && final(channel)@ == next && done.unwrap().1 == taken
                && signed_rounds_view(done.unwrap().0@) == next.signed_rounds,
            Err(error) => done == Err::<(Vec<SignedRound>, bool), ChannelError>(error) && final(channel)@ == old(channel)@,
        },
        old(channel)@.wf() ==> final(channel)@.wf(),
{
    if !cell_found {
        return Err(ChannelError::InvalidState);
    }
    let challenge = match challenge {
        Some(challenge) => challenge,
        None => {
            return Ok((get_kabletop_signed_rounds(channel), false));
        },
    };
    if challenge.challenger == channel.user_type {
        return Err(ChannelError::DuplicateChallenge);
    }
    let mut operations = match operations_from_bytes(&challenge.operations) {
        Ok(operations) => operations,
        Err(error) => {
            return Err(error);
        },
    };
    let nothing_pending = channel.round_operations.len() == 0;
    let reflected = nothing_pending && (operations.len() == 0 || {
        let signed = channel.signed_rounds.len();
        signed > 0 && channel.signed_rounds[signed - 1].round.user_type == channel.opponent_type
            && operations_equal(
            &channel.signed_rounds[signed - 1].round.operations,
            &operations,
        )
    });
    if reflected {
        return Ok((get_kabletop_signed_rounds(channel), false));
    }
    let mut work = get_clone(channel);
    if !nothing_pending {
        work.round_owner = work.user_type;
        let owner = work.user_type;
        match advance_round(&mut work, owner, challenge.snapshot_signature) {
            Ok(()) => {},
            Err(error) => {
                return Err(error);
            },
        }
    }
    if operations.len() != 0 {
        work.round_operations.append(&mut operations);
        work.round_owner = work.opponent_type;
        match countersign_round(&mut work, privkey) {
            Ok(_) => {},
            Err(error) => {
                return Err(error);
            },
        }
    }
    let rounds = get_kabletop_signed_rounds(&work);
    *channel = work;
    Ok((rounds, true))
}

} // verus!
