//! The party that is asked: what it checks, what it changes and what it
//! answers.

pub mod hook;

use vstd::prelude::*;
use crate::bytes::{bytes_equal, copy_range};
use crate::cache::channel::{can_open, clone_nfts, commit_opponent_operation, countersign_outcome, countersign_round, opened, unopened, with_operation, ChannelCache, ChannelView};
use crate::p2p::protocol::types::ChannelTransaction;
use crate::error::ChannelError;
use crate::p2p::protocol::types::request;
use crate::p2p::protocol::types::response;
use crate::round::{operations_equal, operations_view};

verus! {

/// Whether the stake and the bet that the other party proposes are the
/// local party's own.
pub fn propose_channel_parameter(channel: &ChannelCache, asked: &request::ProposeGameParameter) -> (answer:
    response::ApproveGameParameter)
    ensures
        answer.result == (asked.staking_ckb == channel@.staking_ckb && asked.bet_ckb
            == channel@.bet_ckb),
{
    response::ApproveGameParameter {
        result: asked.staking_ckb == channel.staking_ckb && asked.bet_ckb == channel.bet_ckb,
    }
}

/// The record once the other party's opening transaction has been taken
/// and completed: the party of type 1 that the request names is the other
/// party, and the completed transaction gives the channel its identity.
pub open spec fn prepared_with(channel: ChannelView, asked: ChannelTransaction, completed: ChannelTransaction) -> ChannelView {
    ChannelView {
        opponent_pkhash: asked.args.user1_pkhash@,
        opponent_nfts: asked.args.user1_nfts@,
        channel_hash: completed.hash@,
        script_hash: completed.lock_hash@,
        script_args: completed.lock_args@,
        capacity: completed.capacity,
        ..channel
    }
}

/// Answers the other party's opening transaction with the transaction
/// that the local party has completed and signed.
///
/// The party of type 1 that the request names becomes the other party of
/// the channel, and the completed transaction gives the channel its
/// identity. A record that is open already takes no other identity:
/// `InvalidState`, and nothing changes.
pub fn prepare_kabletop_channel(
    channel: &mut ChannelCache,
    asked: &request::PrepareChannel,
    completed: ChannelTransaction,
) -> (done: Result<response::CompleteAndSignChannel, ChannelError>)
    ensures
        done.is_ok() == unopened(old(channel)@),
        done.is_ok() ==> done.unwrap().tx == completed && final(channel)@ == prepared_with(
            old(channel)@,
            asked.tx,
            completed,
        ),
        done.is_err() ==> done == Err::<response::CompleteAndSignChannel, ChannelError>(
            ChannelError::InvalidState,
        ) && final(channel)@ == old(channel)@,
        old(channel)@.wf() ==> final(channel)@.wf(),
{
    if channel.round != 0 || channel.signed_rounds.len() != 0 {
        return Err(ChannelError::InvalidState);
    }
    channel.opponent_pkhash = asked.tx.args.user1_pkhash;
    channel.opponent_nfts = clone_nfts(&asked.tx.args.user1_nfts);
    channel.channel_hash = completed.hash;
    channel.script_hash = completed.lock_hash;
    channel.script_args = copy_range(completed.lock_args.as_slice(), 0, completed.lock_args.len());
    assert(channel.script_args@ =~= completed.lock_args@);
    channel.capacity = completed.capacity;
    Ok(response::CompleteAndSignChannel { tx: completed })
}

/// Answers the other party's notice that the opening transaction is
/// submitted, when the local party has looked for it on the ledger.
///
/// The answer says whether it was found committed. Where it was, and the
/// record can be opened, the channel is open: the first round begins,
/// owned by the party of type 1. Otherwise the record stays as it is.
pub fn open_kabletop_channel(channel: &mut ChannelCache, committed: bool) -> (answer: response::OpenChannel)
    ensures
        answer.result == committed,
        final(channel)@ == if committed && can_open(old(channel)@) {
            opened(old(channel)@)
        } else {
            old(channel)@
        },
        old(channel)@.wf() ==> final(channel)@.wf(),
{
    if committed && channel.round == 0 && channel.signed_rounds.len() == 0 && channel.user_type != 0 {
        channel.round = 1;
        channel.round_owner = 1;
    }
    response::OpenChannel { result: committed }
}

/// Answers the other party's notice that the closing transaction is
/// submitted, when the local party has looked for it on the ledger.
///
/// The request must name the channel of the record by the hash of its
/// opening transaction: for another channel it is `ProtocolMismatch`. The
/// answer says whether the closing transaction was found committed.
pub fn close_kabletop_channel(channel: &ChannelCache, asked: &request::CloseChannel, committed: bool) -> (done:
    Result<response::CloseChannel, ChannelError>)
    ensures
        done.is_ok() == (asked.channel_hash@ == channel@.channel_hash),
        done.is_ok() ==> done.unwrap().result == committed,
        done.is_err() ==> done == Err::<response::CloseChannel, ChannelError>(
            ChannelError::ProtocolMismatch,
        ),
{
    if !bytes_equal(channel.channel_hash.as_slice(), asked.channel_hash.as_slice()) {
        return Err(ChannelError::ProtocolMismatch);
    }
    Ok(response::CloseChannel { result: committed })
}

/// What a request to close the other party's round comes to.
pub open spec fn switch_round_outcome(
    channel: ChannelView,
    round: u8,
    operations: Seq<Seq<char>>,
    privkey: Seq<u8>,
) -> Result<(Seq<u8>, ChannelView), ChannelError> {
    if round != channel.round || operations != channel.round_operations {
        Err(ChannelError::ProtocolMismatch)
    } else {
        countersign_outcome(channel, privkey)
    }
}

/// Answers the other party's request to close its round.
///
/// The request must name the round that the record is in, and list exactly
/// the operations that the record holds for it. Then the round is signed
/// over the whole history, closed in the record, and the answer carries the
/// round's number and the signature. Otherwise the record stays as it is:
/// `ProtocolMismatch` for another round number or other operations,
/// `SigningFailed` where the key gives no signature, and the errors of
/// `advance_round`.
pub fn switch_round(channel: &mut ChannelCache, asked: &request::CloseRound, privkey: &[u8; 32]) -> (done:
    Result<response::OpenRound, ChannelError>)
    ensures
        match switch_round_outcome(
            old(channel)@,
            asked.round,
            operations_view(asked.operations@),
            privkey@,
        ) {
            Ok((signature, next)) => done.is_ok() && done.unwrap().round == old(channel)@.round
                && done.unwrap().signature@ == signature && final(channel)@ == next,
            Err(error) => done == Err::<response::OpenRound, ChannelError>(error) && final(channel)@ == old(channel)@,
        },
        old(channel)@.wf() ==> final(channel)@.wf(),
{
    if asked.round != channel.round || !operations_equal(&asked.operations, &channel.round_operations) {
        return Err(ChannelError::ProtocolMismatch);
    }
    let round = channel.round;
    match countersign_round(channel, privkey) {
        Ok(signature) => {
            let bytes = copy_range(signature.as_slice(), 0, 65);
            Ok(response::OpenRound { round, signature: bytes })
        },
        Err(error) => Err(error),
    }
}

/// How often a notice of the end of the game may wait a second for the
/// local game to name its winner before it is answered.
pub const WINNER_WAITS: u32 = 5;

/// What a notice of the end of the game comes to.
pub open spec fn game_over_outcome(
    channel: ChannelView,
    round: u8,
    operations: Seq<Seq<char>>,
    privkey: Seq<u8>,
) -> Result<(Seq<u8>, ChannelView), ChannelError> {
    if round != channel.round || operations != channel.round_operations {
        Err(ChannelError::ProtocolMismatch)
    } else if channel.winner == 0 {
        Err(ChannelError::InvalidState)
    } else {
        countersign_outcome(channel, privkey)
    }
}

/// Answers the other party's notice that the game is over.
///
/// As `switch_round`, and the local game must have named a winner already:
/// as long as it has not, the notice is refused with `InvalidState`, and may
/// be tried again.
pub fn notify_game_over(channel: &mut ChannelCache, asked: &request::CloseGame, privkey: &[u8; 32]) -> (done:
    Result<response::CloseGame, ChannelError>)
    ensures
        match game_over_outcome(
            old(channel)@,
            asked.round,
            operations_view(asked.operations@),
            privkey@,
        ) {
            Ok((signature, next)) => done.is_ok() && done.unwrap().result
                && done.unwrap().signature@ == signature && final(channel)@ == next,
            Err(error) => done == Err::<response::CloseGame, ChannelError>(error) && final(channel)@ == old(channel)@,
        },
        old(channel)@.wf() ==> final(channel)@.wf(),
{
    if asked.round != channel.round || !operations_equal(&asked.operations, &channel.round_operations) {
        return Err(ChannelError::ProtocolMismatch);
    }
    if channel.winner == 0 {
        return Err(ChannelError::InvalidState);
    }
    match countersign_round(channel, privkey) {
        Ok(signature) => {
            let bytes = copy_range(signature.as_slice(), 0, 65);
            Ok(response::CloseGame { result: true, signature: bytes })
        },
        Err(error) => Err(error),
    }
}

/// Answers an operation that the other party passes on: it is committed
/// where it is meant for the round that the record is in, and refused with
/// `ProtocolMismatch` where it is meant for another.
pub fn sync_operation(channel: &mut ChannelCache, asked: &request::PushOperation) -> (done: Result<
    response::ApplyOperation,
    ChannelError,
>)
    ensures
        done.is_ok() == (asked.round == old(channel)@.round),
        done.is_ok() ==> done.unwrap().result && final(channel)@ == with_operation(
            old(channel)@,
            asked.operation@,
        ),
        done.is_err() ==> done == Err::<response::ApplyOperation, ChannelError>(
            ChannelError::ProtocolMismatch,
        ) && final(channel)@ == old(channel)@,
        old(channel)@.wf() ==> final(channel)@.wf(),
{
    if asked.round != channel.round {
        return Err(ChannelError::ProtocolMismatch);
    }
    commit_opponent_operation(channel, asked.operation.clone());
    Ok(response::ApplyOperation { result: true })
}

} // verus!
