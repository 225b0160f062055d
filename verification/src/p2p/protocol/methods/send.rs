//! The party that asks: what it sends, and what it does upon the answer.
//!
//! Nothing is changed before the answer is there and has been checked: a
//! call that is given up has changed nothing.

use vstd::prelude::*;
use crate::bytes::copy_range;
use crate::cache::channel::{can_open, clone_nfts, commit_user_operation, commit_user_round, opened, with_operation, ChannelCache, ChannelView};
use crate::chain::{signed_rounds_view, SignedRound, SignedRoundView};
use crate::chain::signature_from_slice;
use crate::error::ChannelError;
use crate::p2p::protocol::types::request;
use crate::p2p::protocol::types::response;
use crate::p2p::protocol::types::ChannelTransaction;
use crate::round::{clone_operations, encode_round, operations_view};

verus! {

/// What a party brings into a channel: its stakes, the number of assets
/// that a party may play with, and its own assets and key fingerprint.
#[derive(Clone, Debug, PartialEq, Eq)]
pub struct ChannelOffer {
    pub staking_ckb: u64,
    pub bet_ckb: u64,
    pub max_nfts_count: u8,
    pub user_nfts: Vec<[u8; 20]>,
    pub user_pkhash: [u8; 20],
}

/// What the local party brings into a channel, for the transaction that
/// opens it. A party that has chosen no assets to play with cannot open a
/// channel: `InvalidState`.
pub fn prepare_channel(channel: &ChannelCache) -> (offer: Result<ChannelOffer, ChannelError>)
    ensures
        offer.is_ok() == (channel@.user_nfts.len() > 0),
        offer.is_err() ==> offer == Err::<ChannelOffer, ChannelError>(ChannelError::InvalidState),
        offer.is_ok() ==> {
            let offer = offer.unwrap();
            &&& offer.staking_ckb == channel@.staking_ckb
            &&& offer.bet_ckb == channel@.bet_ckb
            &&& offer.max_nfts_count == channel@.max_nfts_count
            &&& offer.user_nfts@ == channel@.user_nfts
            &&& offer.user_pkhash@ == channel@.user_pkhash
        },
{
    if channel.user_nfts.len() == 0 {
        return Err(ChannelError::InvalidState);
    }
    Ok(
        ChannelOffer {
            staking_ckb: channel.staking_ckb,
            bet_ckb: channel.bet_ckb,
            max_nfts_count: channel.max_nfts_count,
            user_nfts: clone_nfts(&channel.user_nfts),
            user_pkhash: channel.user_pkhash,
        },
    )
}

/// Takes the transaction that the other party has completed: the party of
/// type 2 that it names is the other party of the channel.
pub fn accept_completed_channel(channel: &mut ChannelCache, answer: &response::CompleteAndSignChannel)
    ensures
        final(channel)@ == (ChannelView {
            opponent_pkhash: answer.tx.args.user2_pkhash@,
            opponent_nfts: answer.tx.args.user2_nfts@,
            ..old(channel)@
        }),
        old(channel)@.wf() ==> final(channel)@.wf(),
{
    channel.opponent_pkhash = answer.tx.args.user2_pkhash;
    channel.opponent_nfts = clone_nfts(&answer.tx.args.user2_nfts);
}

/// The record of a channel that is open under the identity that the
/// transaction gives it.
pub open spec fn opened_with(channel: ChannelView, tx: ChannelTransaction) -> ChannelView {
    opened(
        ChannelView {
            channel_hash: tx.hash@,
            script_hash: tx.lock_hash@,
            script_args: tx.lock_args@,
            capacity: tx.capacity,
            ..channel
        },
    )
}

/// Takes the other party's answer to the opening transaction, which the
/// local party has signed, submitted and seen committed.
///
/// Where the other party has seen it committed too, the channel is open:
/// the transaction gives it its identity, which is final from now on, and
/// the first round begins, owned by the party of type 1. The hash of the
/// transaction is returned. Where the other party has not seen it within
/// its bound, nothing changes: `ChainTimeout`. A record that is open
/// already, or has no types assigned, is not opened: `InvalidState`.
pub fn open_kabletop_channel(channel: &mut ChannelCache, tx: &ChannelTransaction, answer: &response::OpenChannel) -> (done:
    Result<[u8; 32], ChannelError>)
    ensures
        done.is_ok() == (answer.result && can_open(old(channel)@)),
        done.is_ok() ==> done.unwrap() == tx.hash && final(channel)@ == opened_with(old(channel)@, *tx),
        done.is_err() ==> final(channel)@ == old(channel)@ && done == Err::<[u8; 32], ChannelError>(
            if answer.result {
                ChannelError::InvalidState
            } else {
                ChannelError::ChainTimeout
            },
        ),
        old(channel)@.wf() ==> final(channel)@.wf(),
{
    if !answer.result {
        return Err(ChannelError::ChainTimeout);
    }
    if channel.round != 0 || channel.signed_rounds.len() != 0 || channel.user_type == 0 {
        return Err(ChannelError::InvalidState);
    }
    channel.channel_hash = tx.hash;
    channel.script_hash = tx.lock_hash;
    channel.script_args = copy_range(tx.lock_args.as_slice(), 0, tx.lock_args.len());
    assert(channel.script_args@ =~= tx.lock_args@);
    channel.capacity = tx.capacity;
    channel.round = 1;
    channel.round_owner = 1;
    Ok(tx.hash)
}

/// What the transaction that closes a channel is built from: the arguments
/// of the channel's lock script, the hash of the opening transaction, every
/// signed round as its encoding and its signature, and the winner.
#[derive(Clone, Debug, PartialEq, Eq)]
pub struct ClosePlan {
    pub script_args: Vec<u8>,
    pub channel_hash: [u8; 32],
    pub signed_rounds: Vec<(Vec<u8>, Vec<u8>)>,
    pub winner: u8,
}

/// The encoding and the signature of each round of a history.
pub open spec fn encoded_rounds(rounds: Seq<SignedRoundView>) -> Seq<(Seq<u8>, Seq<u8>)> {
    Seq::new(rounds.len(), |i: int| (encode_round(rounds[i].round), rounds[i].signature))
}

/// What a list of pairs of byte strings holds.
pub open spec fn pairs_view(pairs: Seq<(Vec<u8>, Vec<u8>)>) -> Seq<(Seq<u8>, Seq<u8>)> {
    Seq::new(pairs.len(), |i: int| (pairs[i].0@, pairs[i].1@))
}

/// Every round of a history as its encoding and its signature.
pub fn encode_signed_rounds(rounds: &Vec<SignedRound>) -> (pairs: Vec<(Vec<u8>, Vec<u8>)>)
    ensures
        pairs_view(pairs@) == encoded_rounds(signed_rounds_view(rounds@)),
{
    let mut pairs: Vec<(Vec<u8>, Vec<u8>)> = Vec::new();
    let mut index: usize = 0;
    while index < rounds.len()
        invariant
            index <= rounds@.len(),
            pairs@.len() == index,
            forall|k: int|
                0 <= k < index ==> (#[trigger] pairs@[k]).0@ == encode_round(rounds@[k]@.round)
                    && pairs@[k].1@ == rounds@[k]@.signature,
        decreases rounds@.len() - index,
    {
        let signature = copy_range(rounds[index].signature.as_slice(), 0, 65);
        pairs.push((rounds[index].round.encode(), signature));
        index += 1;
    }
    pairs
}

/// What the transaction that closes the channel by agreement is built
/// from. Only a game with a winner is closed: without one, `InvalidState`.
pub fn prepare_close(channel: &ChannelCache) -> (plan: Result<ClosePlan, ChannelError>)
    ensures
        plan.is_ok() == (channel@.winner != 0),
        plan.is_err() ==> plan == Err::<ClosePlan, ChannelError>(ChannelError::InvalidState),
        plan.is_ok() ==> {
            let plan = plan.unwrap();
            &&& plan.script_args@ == channel@.script_args
            &&& plan.channel_hash@ == channel@.channel_hash
            &&& pairs_view(plan.signed_rounds@) == encoded_rounds(channel@.signed_rounds)
            &&& plan.winner == channel@.winner
        },
{
    if channel.winner == 0 {
        return Err(ChannelError::InvalidState);
    }
    let script_args = copy_range(channel.script_args.as_slice(), 0, channel.script_args.len());
    Ok(
        ClosePlan {
            script_args,
            channel_hash: channel.channel_hash,
            signed_rounds: encode_signed_rounds(&channel.signed_rounds),
            winner: channel.winner,
        },
    )
}

/// The request that tells the other party of the closing transaction.
pub fn close_channel_request(channel: &ChannelCache, tx_hash: [u8; 32]) -> (asked: request::CloseChannel)
    ensures
        asked.tx_hash == tx_hash,
        asked.channel_hash@ == channel@.channel_hash,
{
    request::CloseChannel { tx_hash, channel_hash: channel.channel_hash }
}

/// Takes the other party's answer to the closing transaction with the hash
/// `tx_hash`, which the local party has submitted and seen committed: the
/// channel is closed where the other party has seen it committed too, and
/// `ChainTimeout` is returned where it has not.
pub fn close_kabletop_channel(tx_hash: [u8; 32], answer: &response::CloseChannel) -> (done: Result<
    [u8; 32],
    ChannelError,
>)
    ensures
        done.is_ok() == answer.result,
        done.is_ok() ==> done.unwrap() == tx_hash,
        done.is_err() ==> done == Err::<[u8; 32], ChannelError>(ChannelError::ChainTimeout),
{
    if answer.result {
        Ok(tx_hash)
    } else {
        Err(ChannelError::ChainTimeout)
    }
}

/// The request that proposes the local party's stake and bet.
pub fn propose_request(channel: &ChannelCache) -> (asked: request::ProposeGameParameter)
    ensures
        asked.staking_ckb == channel@.staking_ckb,
        asked.bet_ckb == channel@.bet_ckb,
{
    request::ProposeGameParameter { staking_ckb: channel.staking_ckb, bet_ckb: channel.bet_ckb }
}

/// The stake and the bet are agreed exactly where the other party says so;
/// otherwise the two sides differ: `ProtocolMismatch`.
pub fn propose_channel_parameter(answer: &response::ApproveGameParameter) -> (done: Result<(), ChannelError>)
    ensures
        done.is_ok() == answer.result,
        done.is_err() ==> done == Err::<(), ChannelError>(ChannelError::ProtocolMismatch),
{
    if answer.result {
        Ok(())
    } else {
        Err(ChannelError::ProtocolMismatch)
    }
}

/// The request that closes the local party's round: its number and the
/// operations that are pending.
pub fn close_round_request(channel: &ChannelCache) -> (asked: request::CloseRound)
    ensures
        asked.round == channel@.round,
        operations_view(asked.operations@) == channel@.round_operations,
{
    request::CloseRound { round: channel.round, operations: clone_operations(&channel.round_operations) }
}

/// The request that ends the game: the number of the round and the
/// operations that are pending.
pub fn close_game_request(channel: &ChannelCache) -> (asked: request::CloseGame)
    ensures
        asked.round == channel@.round,
        operations_view(asked.operations@) == channel@.round_operations,
{
    request::CloseGame { round: channel.round, operations: clone_operations(&channel.round_operations) }
}

/// The request that passes on one operation of the round.
pub fn push_operation_request(channel: &ChannelCache, operation: &String) -> (asked: request::PushOperation)
    ensures
        asked.round == channel@.round,
        asked.operation@ == operation@,
{
    request::PushOperation { round: channel.round, operation: operation.clone() }
}

/// What the answer to a closed round comes to for the party that asked.
pub open spec fn switch_round_outcome(channel: ChannelView, round: u8, signature: Seq<u8>) -> Result<
    ChannelView,
    ChannelError,
> {
    if round != channel.round {
        Err(ChannelError::ProtocolMismatch)
    } else if signature.len() != 65 {
        Err(ChannelError::SignatureDecodeError)
    } else {
        channel.advance_outcome(channel.user_type, signature)
    }
}

/// Takes the answer to `close_round_request`.
///
/// The answer must name the round that was closed, and carry a signature
/// under which the history with the closed round at its end verifies. Then
/// the round is closed in the record, and the signature is returned.
/// Otherwise the record stays as it is: `ProtocolMismatch` for another round
/// number, `SignatureDecodeError` for bytes that are no signature, and the
/// errors of `advance_round`.
pub fn switch_round(channel: &mut ChannelCache, answer: &response::OpenRound) -> (done: Result<
    [u8; 65],
    ChannelError,
>)
    ensures
        match switch_round_outcome(old(channel)@, answer.round, answer.signature@) {
            Ok(next) => done.is_ok() && done.unwrap()@ == answer.signature@ && final(channel)@
                == next,
            Err(error) => done == Err::<[u8; 65], ChannelError>(error) && final(channel)@ == old(channel)@,
        },
        old(channel)@.wf() ==> final(channel)@.wf(),
{
    if answer.round != channel.round {
        return Err(ChannelError::ProtocolMismatch);
    }
    let signature = match signature_from_slice(answer.signature.as_slice()) {
        Ok(signature) => signature,
        Err(error) => {
            return Err(error);
        },
    };
    match commit_user_round(channel, signature) {
        Ok(()) => Ok(signature),
        Err(error) => Err(error),
    }
}

/// What the answer to the end of the game comes to for the party that asked.
pub open spec fn game_over_outcome(channel: ChannelView, result: bool, signature: Seq<u8>) -> Result<
    ChannelView,
    ChannelError,
> {
    if !result {
        Err(ChannelError::ProtocolMismatch)
    } else if signature.len() != 65 {
        Err(ChannelError::SignatureDecodeError)
    } else {
        channel.advance_outcome(channel.user_type, signature)
    }
}

/// Takes the answer to `close_game_request`.
///
/// The other party must have agreed, and its signature must make the
/// history with the last round at its end verify. Then the round is closed
/// in the record, and the signature is returned. Otherwise the record stays
/// as it is: `ProtocolMismatch` where the other party did not agree,
/// `SignatureDecodeError` for bytes that are no signature, and the errors of
/// `advance_round`.
pub fn notify_game_over(channel: &mut ChannelCache, answer: &response::CloseGame) -> (done: Result<
    [u8; 65],
    ChannelError,
>)
    ensures
        match game_over_outcome(old(channel)@, answer.result, answer.signature@) {
            Ok(next) => done.is_ok() && done.unwrap()@ == answer.signature@ && final(channel)@
                == next,
            Err(error) => done == Err::<[u8; 65], ChannelError>(error) && final(channel)@ == old(channel)@,
        },
        old(channel)@.wf() ==> final(channel)@.wf(),
{
    if !answer.result {
        return Err(ChannelError::ProtocolMismatch);
    }
    let signature = match signature_from_slice(answer.signature.as_slice()) {
        Ok(signature) => signature,
        Err(error) => {
            return Err(error);
        },
    };
    match commit_user_round(channel, signature) {
        Ok(()) => Ok(signature),
        Err(error) => Err(error),
    }
}

/// Takes the answer to `push_operation_request`: the operation is committed
/// where the other party has taken it and the round is the local party's.
/// Otherwise the record stays as it is: `ProtocolMismatch` where the other
/// party refused, `InvalidState` where the round is not the local party's.
pub fn sync_operation(channel: &mut ChannelCache, operation: String, answer: &response::ApplyOperation) -> (done:
    Result<(), ChannelError>)
    ensures
        done.is_ok() == (answer.result && old(channel)@.user_type != 0 && old(channel)@.round_owner
            == old(channel)@.user_type),
        done.is_ok() ==> final(channel)@ == with_operation(old(channel)@, operation@),
        done.is_err() ==> final(channel)@ == old(channel)@ && done == Err::<(), ChannelError>(
            if answer.result {
                ChannelError::InvalidState
            } else {
                ChannelError::ProtocolMismatch
            },
        ),
        old(channel)@.wf() ==> final(channel)@.wf(),
{
    if !answer.result {
        return Err(ChannelError::ProtocolMismatch);
    }
    commit_user_operation(channel, operation)
}

} // verus!
