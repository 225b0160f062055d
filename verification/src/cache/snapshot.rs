//! The record of a channel as it is kept between two runs: every field as
//! it is, and every signed round as its encoding and its signature.
//!
//! What is brought back is held to the same conditions as what the
//! operations on a record can reach, so that a record from a file that was
//! changed by hand is not taken for one of them.

use vstd::prelude::*;
use crate::bytes::copy_range;
use crate::cache::channel::{clone_nfts, ChannelCache, ChannelView};
use crate::chain::{history_well_formed, signature_from_slice, signed_rounds_view, SignedRound, SignedRoundView};
use crate::error::ChannelError;
use crate::hexstr::{hex_encode, hex_text};
use crate::p2p::protocol::methods::send::{encode_signed_rounds, encoded_rounds, pairs_view};
use crate::round::{clone_operations, decode_round, encodable, encode_round, lemma_decode_encode_round, Round};

verus! {

/// The record of a channel as it is written down: `fields` is the record
/// without its history, and `signed_rounds` the history, each round as its
/// encoding and its signature.
#[derive(Clone, Debug, PartialEq, Eq)]
pub struct ChannelSnapshot {
    pub fields: ChannelCache,
    pub signed_rounds: Vec<(Vec<u8>, Vec<u8>)>,
}

/// The record without its history.
pub open spec fn without_history(channel: ChannelView) -> ChannelView {
    ChannelView { signed_rounds: Seq::empty(), ..channel }
}

/// The history that encodings and signatures spell: every encoding must be
/// that of a round, else `MalformedRound`, and every signature must have
/// its 65 bytes, else `SignatureDecodeError`. The first that fails decides.
pub open spec fn decode_history(pairs: Seq<(Seq<u8>, Seq<u8>)>) -> Result<
    Seq<SignedRoundView>,
    ChannelError,
>
    decreases pairs.len(),
{
    if pairs.len() == 0 {
        Ok(Seq::empty())
    } else {
        match decode_history(pairs.drop_last()) {
            Err(error) => Err(error),
            Ok(prior) => match decode_round(pairs.last().0) {
                None => Err(ChannelError::MalformedRound),
                Some(round) => if pairs.last().1.len() != 65 {
                    Err(ChannelError::SignatureDecodeError)
                } else {
                    Ok(prior.push(SignedRoundView { round, signature: pairs.last().1 }))
                },
            },
        }
    }
}

/// What bringing back a record comes to: the record, or `MalformedRound` or
/// `SignatureDecodeError` from its history, or `InvalidState` where what is
/// spelled is not well-formed.
pub open spec fn recover_outcome(fields: ChannelView, pairs: Seq<(Seq<u8>, Seq<u8>)>) -> Result<
    ChannelView,
    ChannelError,
> {
    match decode_history(pairs) {
        Err(error) => Err(error),
        Ok(signed_rounds) => {
            let channel = ChannelView { signed_rounds, ..fields };
            if channel.wf() {
                Ok(channel)
            } else {
                Err(ChannelError::InvalidState)
            }
        },
    }
}

/// The history of encoded rounds decodes to the rounds.
pub proof fn lemma_decode_encoded_history(rounds: Seq<SignedRoundView>)
    requires
        history_well_formed(rounds),
    ensures
        decode_history(encoded_rounds(rounds)) == Ok::<Seq<SignedRoundView>, ChannelError>(rounds),
    decreases rounds.len(),
{
    let pairs = encoded_rounds(rounds);
    if rounds.len() == 0 {
        assert(rounds =~= Seq::<SignedRoundView>::empty());
    } else {
        let prior = rounds.drop_last();
        assert(pairs.drop_last() =~= encoded_rounds(prior));
        assert forall|i: int| 0 <= i < prior.len() implies encodable((#[trigger] prior[i]).round)
            && prior[i].signature.len() == 65 by {
            assert(prior[i] == rounds[i]);
        }
        lemma_decode_encoded_history(prior);
        let last = rounds.last();
        assert(last == rounds[rounds.len() - 1]);
        lemma_decode_encode_round(last.round);
        assert(pairs.last() == (encode_round(last.round), last.signature));
        assert(prior.push(last) =~= rounds);
    }
}

/// What was written down is brought back as it was: a well-formed record
/// that is written down and brought back is the same record.
pub proof fn lemma_persist_recover(channel: ChannelView)
    requires
        channel.wf(),
        history_well_formed(channel.signed_rounds),
    ensures
        recover_outcome(without_history(channel), encoded_rounds(channel.signed_rounds)) == Ok::<
            ChannelView,
            ChannelError,
        >(channel),
{
    lemma_decode_encoded_history(channel.signed_rounds);
}

/// The name under which the record of a channel is kept: the hash of the
/// channel's lock script in hexadecimal digits.
pub fn cache_name(channel: &ChannelCache) -> (name: String)
    ensures
        name@ == hex_text(channel@.script_hash),
{
    hex_encode(channel.script_hash.as_slice())
}

/// The record as it is written down.
pub fn persist(channel: &ChannelCache) -> (snapshot: ChannelSnapshot)
    ensures
        snapshot.fields@ == without_history(channel@),
        pairs_view(snapshot.signed_rounds@) == encoded_rounds(channel@.signed_rounds),
{
    let script_args = copy_range(channel.script_args.as_slice(), 0, channel.script_args.len());
    assert(script_args@ =~= channel.script_args@);
    let fields = ChannelCache {
        staking_ckb: channel.staking_ckb,
        bet_ckb: channel.bet_ckb,
        script_hash: channel.script_hash,
        script_args,
        channel_hash: channel.channel_hash,
        capacity: channel.capacity,
        max_nfts_count: channel.max_nfts_count,
        user_nfts: clone_nfts(&channel.user_nfts),
        opponent_nfts: clone_nfts(&channel.opponent_nfts),
        user_pkhash: channel.user_pkhash,
        opponent_pkhash: channel.opponent_pkhash,
        winner: channel.winner,
        round: channel.round,
        round_owner: channel.round_owner,
        user_type: channel.user_type,
        opponent_type: channel.opponent_type,
        round_operations: clone_operations(&channel.round_operations),
        signed_rounds: Vec::new(),
    };
    assert(fields@.signed_rounds =~= Seq::<SignedRoundView>::empty());
    ChannelSnapshot { fields, signed_rounds: encode_signed_rounds(&channel.signed_rounds) }
}

/// Whether the record is well-formed.
pub fn is_well_formed(channel: &ChannelCache) -> (well_formed: bool)
    ensures
        well_formed == channel@.wf(),
{
    let types_fit = (channel.user_type == 0 && channel.opponent_type == 0) || (channel.user_type == 1
        && channel.opponent_type == 2) || (channel.user_type == 2 && channel.opponent_type == 1);
    let owner_fits = channel.round_owner == 0 || ((channel.round_owner == 1 || channel.round_owner
        == 2) && channel.user_type != 0);
    let signed: usize = channel.signed_rounds.len();
    let round_fits = (channel.round == 0 && signed == 0) || (signed < channel.round as usize
        && channel.round as usize - signed == 1);
    if !(types_fit && owner_fits && round_fits) {
        return false;
    }
    let mut index: usize = 0;
    while index < signed
        invariant
            index <= signed,
            signed == channel.signed_rounds@.len(),
            forall|i: int|
                0 <= i < index ==> {
                    let owner = (#[trigger] channel@.signed_rounds[i]).round.user_type;
                    owner == 1 || owner == 2
                },
        decreases signed - index,
    {
        let owner = channel.signed_rounds[index].round.user_type;
        if owner != 1 && owner != 2 {
            assert(channel@.signed_rounds[index as int].round.user_type == owner);
            return false;
        }
        index += 1;
    }
    true
}

/// Brings back a record that was written down.
///
/// The history is decoded, round by round and signature by signature, and
/// the record that results must be well-formed: see `recover_outcome`.
pub fn recover(snapshot: ChannelSnapshot) -> (done: Result<ChannelCache, ChannelError>)
    ensures
        match recover_outcome(snapshot.fields@, pairs_view(snapshot.signed_rounds@)) {
            Ok(channel) => done.is_ok() && done.unwrap()@ == channel && channel.wf(),
            Err(error) => done == Err::<ChannelCache, ChannelError>(error),
        },
{
    let ghost pairs = pairs_view(snapshot.signed_rounds@);
    let mut rounds: Vec<SignedRound> = Vec::new();
    let mut index: usize = 0;
    assert(pairs.take(0) =~= Seq::<(Seq<u8>, Seq<u8>)>::empty());
    assert(signed_rounds_view(rounds@) =~= Seq::<SignedRoundView>::empty());
    while index < snapshot.signed_rounds.len()
        invariant
            index <= snapshot.signed_rounds@.len(),
            pairs == pairs_view(snapshot.signed_rounds@),
            decode_history(pairs.take(index as int)) == Ok::<Seq<SignedRoundView>, ChannelError>(
                signed_rounds_view(rounds@),
            ),
        decreases snapshot.signed_rounds@.len() - index,
    {
        let ghost longer = pairs.take(index + 1);
        let ghost prior = signed_rounds_view(rounds@);
        proof {
            assert(longer.drop_last() =~= pairs.take(index as int));
            assert(longer.last() == pairs[index as int]);
        }
        let round = match Round::decode(snapshot.signed_rounds[index].0.as_slice()) {
            Ok(round) => round,
            Err(error) => {
                proof {
                    lemma_decode_history_prefix(pairs, index + 1);
                }
                return Err(error);
            },
        };
        let signature = match signature_from_slice(snapshot.signed_rounds[index].1.as_slice()) {
            Ok(signature) => signature,
            Err(error) => {
                proof {
                    lemma_decode_history_prefix(pairs, index + 1);
                }
                return Err(error);
            },
        };
        rounds.push(SignedRound { round, signature });
        assert(signed_rounds_view(rounds@) =~= prior.push(
            SignedRoundView { round: round@, signature: signature@ },
        ));
        index += 1;
    }
    assert(pairs.take(index as int) =~= pairs);
    let mut channel = snapshot.fields;
    channel.signed_rounds = rounds;
    if is_well_formed(&channel) {
        Ok(channel)
    } else {
        Err(ChannelError::InvalidState)
    }
}

/// A history that fails to decode up to some round fails in the same way
/// as a whole.
pub proof fn lemma_decode_history_prefix(pairs: Seq<(Seq<u8>, Seq<u8>)>, length: int)
    requires
        0 <= length <= pairs.len(),
        decode_history(pairs.take(length)).is_err(),
    ensures
        decode_history(pairs) == decode_history(pairs.take(length)),
    decreases pairs.len(),
{
    if length < pairs.len() {
        assert(pairs.drop_last().take(length) =~= pairs.take(length));
        lemma_decode_history_prefix(pairs.drop_last(), length);
    } else {
        assert(pairs.take(length) =~= pairs);
    }
}

} // verus!
