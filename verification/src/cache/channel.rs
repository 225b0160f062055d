//! The record of one channel: its parameters, its two parties, the round that
//! is being played and the history of signed rounds.
//!
//! Every operation either takes place as a whole or leaves the record as it
//! was, and every operation keeps a well-formed record well-formed.

use vstd::prelude::*;
use crate::chain::{chain_decodes, chain_verifies, clone_signed_rounds, round_message, sign_round, signed_rounds_view, verify_chain, SignedRound, SignedRoundView};
use crate::crypto::spec_sign_recoverable;
use crate::bytes::copy_range;
use crate::error::ChannelError;
use crate::round::{clone_operations, make_round, operations_view, Round, RoundView};

verus! {

/// Which of the two parties the local party is.
#[allow(non_camel_case_types)]
#[derive(Clone, Copy, Debug, PartialEq, Eq, Structural)]
pub enum PLAYER_TYPE {
    ONE,
    TWO,
}

/// What the arguments of a channel's lock script say: the block at which
/// the channel began, and the two parties with the assets that each plays
/// with.
#[derive(Clone, Debug, PartialEq, Eq)]
pub struct Args {
    pub begin_blocknumber: u64,
    pub user1_pkhash: [u8; 20],
    pub user1_nfts: Vec<[u8; 20]>,
    pub user2_pkhash: [u8; 20],
    pub user2_nfts: Vec<[u8; 20]>,
}

/// The number of shannons in one CKB.
pub const SHANNONS_PER_CKB: u64 = 100_000_000;

/// The record of one channel.
#[derive(Clone, Debug, PartialEq, Eq)]
pub struct ChannelCache {
    pub staking_ckb: u64,
    pub bet_ckb: u64,
    pub script_hash: [u8; 32],
    pub script_args: Vec<u8>,
    pub channel_hash: [u8; 32],
    pub capacity: u64,
    pub max_nfts_count: u8,
    pub user_nfts: Vec<[u8; 20]>,
    pub opponent_nfts: Vec<[u8; 20]>,
    pub user_pkhash: [u8; 20],
    pub opponent_pkhash: [u8; 20],
    pub winner: u8,
    pub round: u8,
    pub round_owner: u8,
    pub user_type: u8,
    pub opponent_type: u8,
    pub round_operations: Vec<String>,
    pub signed_rounds: Vec<SignedRound>,
}

/// What a record holds, as mathematical values.
pub struct ChannelView {
    pub staking_ckb: u64,
    pub bet_ckb: u64,
    pub script_hash: Seq<u8>,
    pub script_args: Seq<u8>,
    pub channel_hash: Seq<u8>,
    pub capacity: u64,
    pub max_nfts_count: u8,
    pub user_nfts: Seq<[u8; 20]>,
    pub opponent_nfts: Seq<[u8; 20]>,
    pub user_pkhash: Seq<u8>,
    pub opponent_pkhash: Seq<u8>,
    pub winner: u8,
    pub round: u8,
    pub round_owner: u8,
    pub user_type: u8,
    pub opponent_type: u8,
    pub round_operations: Seq<Seq<char>>,
    pub signed_rounds: Seq<SignedRoundView>,
}

impl View for ChannelCache {
    type V = ChannelView;

    open spec fn view(&self) -> ChannelView {
        ChannelView {
            staking_ckb: self.staking_ckb,
            bet_ckb: self.bet_ckb,
            script_hash: self.script_hash@,
            script_args: self.script_args@,
            channel_hash: self.channel_hash@,
            capacity: self.capacity,
            max_nfts_count: self.max_nfts_count,
            user_nfts: self.user_nfts@,
            opponent_nfts: self.opponent_nfts@,
            user_pkhash: self.user_pkhash@,
            opponent_pkhash: self.opponent_pkhash@,
            winner: self.winner,
            round: self.round,
            round_owner: self.round_owner,
            user_type: self.user_type,
            opponent_type: self.opponent_type,
            round_operations: operations_view(self.round_operations@),
            signed_rounds: signed_rounds_view(self.signed_rounds@),
        }
    }
}

/// The record of a channel that nobody has opened: no types, no rounds, the
/// default stakes, and the local party's key fingerprint.
pub open spec fn blank_channel(user_pkhash: Seq<u8>) -> ChannelView {
    ChannelView {
        staking_ckb: 30_000_000_000,
        bet_ckb: 10_000_000_000,
        script_hash: Seq::new(32, |i: int| 0u8),
        script_args: Seq::empty(),
        channel_hash: Seq::new(32, |i: int| 0u8),
        capacity: 0,
        max_nfts_count: 40,
        user_nfts: Seq::empty(),
        opponent_nfts: Seq::empty(),
        user_pkhash,
        opponent_pkhash: Seq::new(20, |i: int| 0u8),
        winner: 0,
        round: 0,
        round_owner: 0,
        user_type: 0,
        opponent_type: 0,
        round_operations: Seq::empty(),
        signed_rounds: Seq::empty(),
    }
}

/// The type of the other party.
pub open spec fn counterparty(user_type: u8) -> u8 {
    if user_type == 1 {
        2
    } else if user_type == 2 {
        1
    } else {
        0
    }
}

impl ChannelView {
    /// Whether the record is one that the operations of this module can
    /// reach:
    /// - the two types are 1 and 2 in some order, or both unassigned;
    /// - the owner of the round is one of the two parties, or nobody;
    /// - the round counter is 0 as long as the channel is not open, and from
    ///   then on the number of the round that is being played: one more than
    ///   the number of signed rounds;
    /// - every signed round is owned by one of the two parties.
    pub open spec fn wf(self) -> bool {
        &&& (self.user_type == 0 && self.opponent_type == 0) || ((self.user_type == 1
            || self.user_type == 2) && self.opponent_type == counterparty(self.user_type))
        &&& self.round_owner == 0 || ((self.round_owner == 1 || self.round_owner == 2)
            && self.user_type != 0)
        &&& (self.round == 0 && self.signed_rounds.len() == 0) || self.round
            == self.signed_rounds.len() + 1
        &&& forall|i: int|
            0 <= i < self.signed_rounds.len() ==> {
                let owner = (#[trigger] self.signed_rounds[i]).round.user_type;
                owner == 1 || owner == 2
            }
    }

    /// The fingerprint of the party of type 1.
    pub open spec fn user1_pkhash(self) -> Seq<u8> {
        if self.user_type == 1 {
            self.user_pkhash
        } else {
            self.opponent_pkhash
        }
    }

    /// The fingerprint of the party of type 2.
    pub open spec fn user2_pkhash(self) -> Seq<u8> {
        if self.user_type == 1 {
            self.opponent_pkhash
        } else {
            self.user_pkhash
        }
    }

    /// Whether the party of type `owner` can close the round now: a round
    /// is being played, it is that party's round, and the counter can still
    /// grow.
    pub open spec fn can_advance(self, owner: u8) -> bool {
        &&& owner == 1 || owner == 2
        &&& self.user_type == 1 || self.user_type == 2
        &&& self.round_owner == owner
        &&& 1 <= self.round < 255
    }

    /// The history with the round that is being played, owned by `owner` and
    /// signed with `signature`, at its end.
    pub open spec fn extended_rounds(self, owner: u8, signature: Seq<u8>) -> Seq<SignedRoundView> {
        self.signed_rounds.push(
            SignedRoundView {
                round: RoundView { user_type: owner, operations: self.round_operations },
                signature,
            },
        )
    }

    /// The record after the party of type `owner` has closed its round with
    /// `signature`: the pending operations have become the last signed
    /// round, the counter has grown by one and the round is the other
    /// party's.
    pub open spec fn advance(self, owner: u8, signature: Seq<u8>) -> ChannelView {
        ChannelView {
            signed_rounds: self.extended_rounds(owner, signature),
            round_operations: Seq::empty(),
            round: (self.round + 1) as u8,
            round_owner: counterparty(owner),
            ..self
        }
    }

    /// What closing the round as `owner` with `signature` comes to: the next
    /// record, or the reason why the record stays as it is.
    pub open spec fn advance_outcome(self, owner: u8, signature: Seq<u8>) -> Result<
        ChannelView,
        ChannelError,
    > {
        let extended = self.extended_rounds(owner, signature);
        if !self.can_advance(owner) {
            Err(ChannelError::InvalidState)
        } else if !chain_decodes(self.script_hash, self.capacity, extended) {
            Err(ChannelError::SignatureDecodeError)
        } else if !chain_verifies(
            self.script_hash,
            self.capacity,
            extended,
            self.user1_pkhash(),
            self.user2_pkhash(),
        ) {
            Err(ChannelError::SignatureInvalid)
        } else {
            Ok(self.advance(owner, signature))
        }
    }
}

/// Closing a round keeps a well-formed record well-formed.
pub proof fn lemma_advance_preserves_wf(channel: ChannelView, owner: u8, signature: Seq<u8>)
    requires
        channel.wf(),
        channel.can_advance(owner),
    ensures
        channel.advance(owner, signature).wf(),
{
}

/// The record after `signatures.len()` rounds have been closed in turn, each
/// by the party that owned it, with the signatures in order.
pub open spec fn advances(channel: ChannelView, signatures: Seq<Seq<u8>>) -> ChannelView
    decreases signatures.len(),
{
    if signatures.len() == 0 {
        channel
    } else {
        let before = advances(channel, signatures.drop_last());
        before.advance(before.round_owner, signatures.last())
    }
}

/// The round alternates: after an even number of closed rounds it is owned
/// by the party that owned it at first, after an odd number by that party's
/// counterparty; and the history has grown by one round for each.
pub proof fn lemma_round_owner_alternates(channel: ChannelView, signatures: Seq<Seq<u8>>)
    requires
        channel.round_owner == 1 || channel.round_owner == 2,
    ensures
        advances(channel, signatures).round_owner == if signatures.len() % 2 == 0 {
            channel.round_owner
        } else {
            counterparty(channel.round_owner)
        },
        advances(channel, signatures).signed_rounds.len() == channel.signed_rounds.len()
            + signatures.len(),
    decreases signatures.len(),
{
    if signatures.len() > 0 {
        lemma_round_owner_alternates(channel, signatures.drop_last());
    }
}

impl ChannelCache {
    /// The record of a channel that nobody has opened, for the party with the
    /// given key fingerprint.
    pub fn new(user_pkhash: [u8; 20]) -> (channel: ChannelCache)
        ensures
            channel@ == blank_channel(user_pkhash@),
            channel@.wf(),
    {
        let channel = ChannelCache {
            staking_ckb: 300 * SHANNONS_PER_CKB,
            bet_ckb: 100 * SHANNONS_PER_CKB,
            script_hash: [0u8; 32],
            script_args: Vec::new(),
            channel_hash: [0u8; 32],
            capacity: 0,
            max_nfts_count: 40,
            user_nfts: Vec::new(),
            opponent_nfts: Vec::new(),
            user_pkhash,
            opponent_pkhash: [0u8; 20],
            winner: 0,
            round: 0,
            round_owner: 0,
            user_type: 0,
            opponent_type: 0,
            round_operations: Vec::new(),
            signed_rounds: Vec::new(),
        };
        assert(channel@.script_hash =~= blank_channel(user_pkhash@).script_hash);
        assert(channel@.channel_hash =~= blank_channel(user_pkhash@).channel_hash);
        assert(channel@.opponent_pkhash =~= blank_channel(user_pkhash@).opponent_pkhash);
        assert(channel@.round_operations =~= blank_channel(user_pkhash@).round_operations);
        assert(channel@.signed_rounds =~= blank_channel(user_pkhash@).signed_rounds);
        channel
    }
}

impl Default for ChannelCache {
    /// The record of a channel that nobody has opened, for a party whose key
    /// is not known yet.
    fn default() -> (channel: ChannelCache)
        ensures
            channel@ == blank_channel(Seq::new(20, |i: int| 0u8)),
            channel@.wf(),
    {
        let channel = ChannelCache::new([0u8; 20]);
        assert(channel@.user_pkhash =~= Seq::new(20, |i: int| 0u8));
        channel
    }
}

/// A round is closed only under a history that verifies: wherever closing
/// a round succeeds, every signature of the history with the new round at
/// its end names a signer, and every round of it is signed by its owner's
/// counterparty.
pub proof fn lemma_advance_only_verified(channel: ChannelView, owner: u8, signature: Seq<u8>)
    requires
        channel.advance_outcome(owner, signature).is_ok(),
    ensures
        channel.can_advance(owner),
        chain_decodes(channel.script_hash, channel.capacity, channel.extended_rounds(owner, signature)),
        chain_verifies(
            channel.script_hash,
            channel.capacity,
            channel.extended_rounds(owner, signature),
            channel.user1_pkhash(),
            channel.user2_pkhash(),
        ),
        channel.advance_outcome(owner, signature).unwrap().signed_rounds == channel.extended_rounds(
            owner,
            signature,
        ),
{
}

/// Starts a record afresh for a local party of the given type: everything but
/// the local key fingerprint goes back to its default, and the two types are
/// assigned.
pub fn init(channel: &mut ChannelCache, player_type: PLAYER_TYPE)
    ensures
        final(channel)@ == (ChannelView {
            user_type: if player_type == PLAYER_TYPE::ONE { 1u8 } else { 2u8 },
            opponent_type: if player_type == PLAYER_TYPE::ONE { 2u8 } else { 1u8 },
            ..blank_channel(old(channel)@.user_pkhash)
        }),
        final(channel)@.wf(),
{
    let mut fresh = ChannelCache::new(channel.user_pkhash);
    match player_type {
        PLAYER_TYPE::ONE => {
            fresh.user_type = 1;
            fresh.opponent_type = 2;
        },
        PLAYER_TYPE::TWO => {
            fresh.user_type = 2;
            fresh.opponent_type = 1;
        },
    }
    *channel = fresh;
}

/// Puts the record back to that of a channel that nobody has opened.
pub fn clear(channel: &mut ChannelCache)
    ensures
        final(channel)@ == blank_channel(old(channel)@.user_pkhash),
        final(channel)@.wf(),
{
    *channel = ChannelCache::new(channel.user_pkhash);
}

/// Whether the round counter `count` and the owner `owner` fit the record:
/// the counter is one more than the number of signed rounds, and the owner
/// is one of the two assigned parties.
pub open spec fn round_status_fits(channel: ChannelView, count: u8, owner: u8) -> bool {
    &&& count == channel.signed_rounds.len() + 1
    &&& owner == 1 || owner == 2
    &&& channel.user_type != 0
}

/// Sets the round counter and the owner of the round, as the game reports
/// them, where they fit the record; a report that does not fit is refused
/// with `InvalidState`.
pub fn set_round_status(channel: &mut ChannelCache, count: u8, owner: u8) -> (done: Result<
    (),
    ChannelError,
>)
    ensures
        done.is_ok() == round_status_fits(old(channel)@, count, owner),
        done.is_ok() ==> final(channel)@ == (ChannelView {
            round: count,
            round_owner: owner,
            ..old(channel)@
        }),
        done.is_err() ==> done == Err::<(), ChannelError>(ChannelError::InvalidState) && final(channel)@ == old(channel)@,
        old(channel)@.wf() ==> final(channel)@.wf(),
{
    let signed: usize = channel.signed_rounds.len();
    let fits = signed < count as usize && count as usize - signed == 1 && (owner == 1 || owner
        == 2) && channel.user_type != 0;
    if !fits {
        return Err(ChannelError::InvalidState);
    }
    channel.round = count;
    channel.round_owner = owner;
    Ok(())
}

/// The number of shannons in `ckb` CKB, where that fits 64 bits.
pub open spec fn ckb_to_shannons(ckb: u64) -> Option<u64> {
    if ckb * SHANNONS_PER_CKB <= u64::MAX {
        Some((ckb * SHANNONS_PER_CKB) as u64)
    } else {
        None
    }
}

/// Sets the stake and the bet, given in CKB and kept in shannons. Amounts
/// that do not fit 64 bits in shannons are refused with `InvalidState`.
pub fn set_staking_and_bet_ckb(channel: &mut ChannelCache, staking: u64, bet: u64) -> (done: Result<
    (),
    ChannelError,
>)
    ensures
        done.is_ok() == (ckb_to_shannons(staking).is_some() && ckb_to_shannons(bet).is_some()),
        done.is_ok() ==> final(channel)@ == (ChannelView {
            staking_ckb: ckb_to_shannons(staking).unwrap(),
            bet_ckb: ckb_to_shannons(bet).unwrap(),
            ..old(channel)@
        }),
        done.is_err() ==> done == Err::<(), ChannelError>(ChannelError::InvalidState) && final(channel)@ == old(channel)@,
        old(channel)@.wf() ==> final(channel)@.wf(),
{
    match (staking.checked_mul(SHANNONS_PER_CKB), bet.checked_mul(SHANNONS_PER_CKB)) {
        (Some(staking_shannons), Some(bet_shannons)) => {
            channel.staking_ckb = staking_shannons;
            channel.bet_ckb = bet_shannons;
            Ok(())
        },
        _ => Err(ChannelError::InvalidState),
    }
}

/// Whether the channel has not been opened yet: no round has been played or
/// signed.
pub open spec fn unopened(channel: ChannelView) -> bool {
    channel.round == 0 && channel.signed_rounds.len() == 0
}

/// Sets the identity of the channel: the hash of the opening transaction,
/// the hash and the arguments of the channel's lock script, and its
/// capacity. The identity is final once the channel is open: from then on a
/// new one is refused with `InvalidState`.
pub fn set_channel_verification(
    channel: &mut ChannelCache,
    channel_hash: [u8; 32],
    script_hash: [u8; 32],
    script_args: Vec<u8>,
    capacity: u64,
) -> (done: Result<(), ChannelError>)
    ensures
        done.is_ok() == unopened(old(channel)@),
        done.is_ok() ==> final(channel)@ == (ChannelView {
            channel_hash: channel_hash@,
            script_hash: script_hash@,
            script_args: script_args@,
            capacity,
            ..old(channel)@
        }),
        done.is_err() ==> done == Err::<(), ChannelError>(ChannelError::InvalidState) && final(channel)@ == old(channel)@,
        old(channel)@.wf() ==> final(channel)@.wf(),
{
    if channel.round != 0 || channel.signed_rounds.len() != 0 {
        return Err(ChannelError::InvalidState);
    }
    channel.channel_hash = channel_hash;
    channel.script_hash = script_hash;
    channel.script_args = script_args;
    channel.capacity = capacity;
    Ok(())
}

/// Sets the hash of the channel's lock script and its capacity, under the
/// same condition as `set_channel_verification`.
pub fn set_scripthash_and_capacity(channel: &mut ChannelCache, script_hash: [u8; 32], capacity: u64) -> (done:
    Result<(), ChannelError>)
    ensures
        done.is_ok() == unopened(old(channel)@),
        done.is_ok() ==> final(channel)@ == (ChannelView {
            script_hash: script_hash@,
            capacity,
            ..old(channel)@
        }),
        done.is_err() ==> done == Err::<(), ChannelError>(ChannelError::InvalidState) && final(channel)@ == old(channel)@,
        old(channel)@.wf() ==> final(channel)@.wf(),
{
    if channel.round != 0 || channel.signed_rounds.len() != 0 {
        return Err(ChannelError::InvalidState);
    }
    channel.script_hash = script_hash;
    channel.capacity = capacity;
    Ok(())
}

/// The record of a channel that has just been opened: the first round is
/// being played, and it is the round of the party of type 1, who opened the
/// channel.
pub open spec fn opened(channel: ChannelView) -> ChannelView {
    ChannelView { round: 1, round_owner: 1, ..channel }
}

/// Whether the record can pass from unopened to open: no round has been
/// played, and the two types are assigned.
pub open spec fn can_open(channel: ChannelView) -> bool {
    unopened(channel) && channel.user_type != 0
}

/// Records the winner of the game.
pub fn set_winner(channel: &mut ChannelCache, winner: u8)
    ensures
        final(channel)@ == (ChannelView { winner, ..old(channel)@ }),
        old(channel)@.wf() ==> final(channel)@.wf(),
{
    channel.winner = winner;
}

/// Sets the assets that the local party plays with.
pub fn set_playing_nfts(channel: &mut ChannelCache, nfts: Vec<[u8; 20]>)
    ensures
        final(channel)@ == (ChannelView { user_nfts: nfts@, ..old(channel)@ }),
        old(channel)@.wf() ==> final(channel)@.wf(),
{
    channel.user_nfts = nfts;
}

/// Sets the assets that the other party plays with.
pub fn set_opponent_nfts(channel: &mut ChannelCache, nfts: Vec<[u8; 20]>)
    ensures
        final(channel)@ == (ChannelView { opponent_nfts: nfts@, ..old(channel)@ }),
        old(channel)@.wf() ==> final(channel)@.wf(),
{
    channel.opponent_nfts = nfts;
}

/// Sets the key fingerprint of the other party.
pub fn set_opponent_pkhash(channel: &mut ChannelCache, pkhash: [u8; 20])
    ensures
        final(channel)@ == (ChannelView { opponent_pkhash: pkhash@, ..old(channel)@ }),
        old(channel)@.wf() ==> final(channel)@.wf(),
{
    channel.opponent_pkhash = pkhash;
}

/// The record with `operation` at the end of the pending operations.
pub open spec fn with_operation(channel: ChannelView, operation: Seq<char>) -> ChannelView {
    ChannelView { round_operations: channel.round_operations.push(operation), ..channel }
}

/// Appends an operation to the pending ones.
fn push_operation(channel: &mut ChannelCache, operation: String)
    ensures
        final(channel)@ == with_operation(old(channel)@, operation@),
{
    channel.round_operations.push(operation);
    assert(operations_view(channel.round_operations@) =~= operations_view(
        old(channel).round_operations@,
    ).push(operation@));
}

/// Commits an operation of the local party to the round that is being
/// played. It is refused with `InvalidState` where the round is not the
/// local party's.
pub fn commit_user_operation(channel: &mut ChannelCache, operation: String) -> (done: Result<
    (),
    ChannelError,
>)
    ensures
        done.is_ok() == (old(channel)@.user_type != 0 && old(channel)@.round_owner == old(channel)@.user_type),
        done.is_ok() ==> final(channel)@ == with_operation(old(channel)@, operation@),
        done.is_err() ==> done == Err::<(), ChannelError>(ChannelError::InvalidState) && final(channel)@ == old(channel)@,
        old(channel)@.wf() ==> final(channel)@.wf(),
{
    if channel.user_type == 0 || channel.round_owner != channel.user_type {
        return Err(ChannelError::InvalidState);
    }
    push_operation(channel, operation);
    Ok(())
}

/// Commits an operation that the other party has sent for the round that is
/// being played. Whose round it is is not asked.
pub fn commit_opponent_operation(channel: &mut ChannelCache, operation: String)
    ensures
        final(channel)@ == with_operation(old(channel)@, operation@),
        old(channel)@.wf() ==> final(channel)@.wf(),
{
    push_operation(channel, operation);
}

/// Commits an operation to the round that is being played, whoever of the
/// two parties owns it. It is refused with `InvalidState` where the round
/// has no owner.
pub fn commit_round_operation(channel: &mut ChannelCache, operation: String) -> (done: Result<
    (),
    ChannelError,
>)
    ensures
        done.is_ok() == (old(channel)@.round_owner != 0 && (old(channel)@.round_owner == old(channel)@.user_type || old(channel)@.round_owner == old(channel)@.opponent_type)),
        done.is_ok() ==> final(channel)@ == with_operation(old(channel)@, operation@),
        done.is_err() ==> done == Err::<(), ChannelError>(ChannelError::InvalidState) && final(channel)@ == old(channel)@,
        old(channel)@.wf() ==> final(channel)@.wf(),
{
    if channel.round_owner == 0 || (channel.round_owner != channel.user_type && channel.round_owner
        != channel.opponent_type) {
        return Err(ChannelError::InvalidState);
    }
    push_operation(channel, operation);
    Ok(())
}

/// Closes the round that is being played as the party of type `owner`, with
/// the signature of that party's counterparty.
///
/// The pending operations become a round of `owner`, and the history with
/// that round at its end is verified as a whole before anything is kept.
/// Where it verifies, the round is appended, the pending operations are
/// cleared, the counter grows by one and the round passes to the other
/// party. Otherwise nothing changes: `InvalidState` where it is not
/// `owner`'s round, no round is being played or the counter is at its end,
/// `SignatureDecodeError` where a signature of the history names no signer,
/// `SignatureInvalid` where a round is not signed by its owner's
/// counterparty.
pub fn advance_round(channel: &mut ChannelCache, owner: u8, signature: [u8; 65]) -> (done: Result<
    (),
    ChannelError,
>)
    ensures
        match old(channel)@.advance_outcome(owner, signature@) {
            Ok(next) => done.is_ok() && final(channel)@ == next,
            Err(error) => done == Err::<(), ChannelError>(error) && final(channel)@ == old(channel)@,
        },
        old(channel)@.wf() ==> final(channel)@.wf(),
{
    let allowed = (owner == 1 || owner == 2) && (channel.user_type == 1 || channel.user_type == 2)
        && channel.round_owner == owner && 1 <= channel.round && channel.round < 255;
    if !allowed {
        return Err(ChannelError::InvalidState);
    }
    let ghost before = channel@;
    let mut operations: Vec<String> = Vec::new();
    core::mem::swap(&mut operations, &mut channel.round_operations);
    channel.signed_rounds.push(SignedRound { round: Round { user_type: owner, operations }, signature });
    assert(signed_rounds_view(channel.signed_rounds@) =~= before.extended_rounds(owner, signature@));
    let verdict = if channel.user_type == 1 {
        verify_chain(
            &channel.script_hash,
            channel.capacity,
            &channel.signed_rounds,
            &channel.user_pkhash,
            &channel.opponent_pkhash,
        )
    } else {
        verify_chain(
            &channel.script_hash,
            channel.capacity,
            &channel.signed_rounds,
            &channel.opponent_pkhash,
            &channel.user_pkhash,
        )
    };
    match verdict {
        Ok(true) => {
            channel.round = channel.round + 1;
            channel.round_owner = if owner == 1 { 2 } else { 1 };
            assert(channel@.round_operations =~= Seq::<Seq<char>>::empty());
            proof {
                if before.wf() {
                    lemma_advance_preserves_wf(before, owner, signature@);
                }
            }
            Ok(())
        },
        other => {
            match channel.signed_rounds.pop() {
                Some(entry) => {
                    channel.round_operations = entry.round.operations;
                },
                None => {},
            }
            assert(channel@.signed_rounds =~= before.signed_rounds);
            assert(channel@.round_operations =~= before.round_operations);
            match other {
                Err(error) => Err(error),
                Ok(_) => Err(ChannelError::SignatureInvalid),
            }
        },
    }
}

/// Closes the local party's round with the signature that the other party
/// has given for it. See `advance_round`.
pub fn commit_user_round(channel: &mut ChannelCache, signature: [u8; 65]) -> (done: Result<
    (),
    ChannelError,
>)
    ensures
        match old(channel)@.advance_outcome(old(channel)@.user_type, signature@) {
            Ok(next) => done.is_ok() && final(channel)@ == next,
            Err(error) => done == Err::<(), ChannelError>(error) && final(channel)@ == old(channel)@,
        },
        old(channel)@.wf() ==> final(channel)@.wf(),
{
    let owner = channel.user_type;
    advance_round(channel, owner, signature)
}

/// Closes the other party's round with the signature that the local party
/// has given for it. See `advance_round`.
pub fn commit_opponent_round(channel: &mut ChannelCache, signature: [u8; 65]) -> (done: Result<
    (),
    ChannelError,
>)
    ensures
        match old(channel)@.advance_outcome(old(channel)@.opponent_type, signature@) {
            Ok(next) => done.is_ok() && final(channel)@ == next,
            Err(error) => done == Err::<(), ChannelError>(error) && final(channel)@ == old(channel)@,
        },
        old(channel)@.wf() ==> final(channel)@.wf(),
{
    let owner = channel.opponent_type;
    advance_round(channel, owner, signature)
}

/// The signature that the party with the key `privkey` gives for the round
/// that is pending in the record, as a round of the other party.
pub open spec fn opponent_round_signature(channel: ChannelView, privkey: Seq<u8>) -> Option<Seq<u8>> {
    spec_sign_recoverable(
        privkey,
        round_message(
            channel.script_hash,
            channel.capacity,
            channel.signed_rounds,
            RoundView { user_type: channel.opponent_type, operations: channel.round_operations },
        ),
    )
}

/// What signing and closing the other party's round comes to: the
/// signature and the next record, or the reason why nothing changes.
pub open spec fn countersign_outcome(channel: ChannelView, privkey: Seq<u8>) -> Result<
    (Seq<u8>, ChannelView),
    ChannelError,
> {
    match opponent_round_signature(channel, privkey) {
        None => Err(ChannelError::SigningFailed),
        Some(signature) => match channel.advance_outcome(channel.opponent_type, signature) {
            Ok(next) => Ok((signature, next)),
            Err(error) => Err(error),
        },
    }
}

/// Signs the pending round as a round of the other party, over the whole
/// history, and closes it. Where the key gives no signature, or the round
/// cannot be closed, the record stays as it is, with `SigningFailed` or the
/// error of `advance_round`.
pub fn countersign_round(channel: &mut ChannelCache, privkey: &[u8; 32]) -> (done: Result<[u8; 65], ChannelError>)
    ensures
        match countersign_outcome(old(channel)@, privkey@) {
            Ok((signature, next)) => done.is_ok() && done.unwrap()@ == signature && final(channel)@
                == next,
            Err(error) => done == Err::<[u8; 65], ChannelError>(error) && final(channel)@ == old(channel)@,
        },
        old(channel)@.wf() ==> final(channel)@.wf(),
{
    let next_round = make_round(channel.opponent_type, clone_operations(&channel.round_operations));
    let signature = match sign_round(
        &channel.script_hash,
        channel.capacity,
        &channel.signed_rounds,
        &next_round,
        privkey,
    ) {
        Ok(signature) => signature,
        Err(error) => {
            return Err(error);
        },
    };
    match commit_opponent_round(channel, signature) {
        Ok(()) => Ok(signature),
        Err(error) => Err(error),
    }
}

/// A copy of a list of assets.
pub fn clone_nfts(nfts: &Vec<[u8; 20]>) -> (copy: Vec<[u8; 20]>)
    ensures
        copy@ == nfts@,
{
    let mut copy: Vec<[u8; 20]> = Vec::new();
    let mut index: usize = 0;
    while index < nfts.len()
        invariant
            index <= nfts@.len(),
            copy@ == nfts@.subrange(0, index as int),
        decreases nfts@.len() - index,
    {
        copy.push(nfts[index]);
        index += 1;
    }
    copy
}

/// The history of signed rounds, as a copy.
pub fn get_kabletop_signed_rounds(channel: &ChannelCache) -> (rounds: Vec<SignedRound>)
    ensures
        signed_rounds_view(rounds@) == channel@.signed_rounds,
{
    clone_signed_rounds(&channel.signed_rounds)
}

/// A copy of the record.
pub fn get_clone(channel: &ChannelCache) -> (copy: ChannelCache)
    ensures
        copy@ == channel@,
{
    let script_args = copy_range(channel.script_args.as_slice(), 0, channel.script_args.len());
    assert(script_args@ =~= channel.script_args@);
    ChannelCache {
        staking_ckb: channel.staking_ckb,
        bet_ckb: channel.bet_ckb,
        script_hash: channel.script_hash,
        script_args,
        channel_hash: channel.channel_hash,
        capacity: channel.capacity,
        max_nfts_count: channel.max_nfts_count,
        user_nfts: clone_nfts(&channel.user_nfts),
        opponent_nfts: clone_nfts(&channel.opponent_nfts),
        user_pkhash: channel.user_pkhash,
        opponent_pkhash: channel.opponent_pkhash,
        winner: channel.winner,
        round: channel.round,
        round_owner: channel.round_owner,
        user_type: channel.user_type,
        opponent_type: channel.opponent_type,
        round_operations: clone_operations(&channel.round_operations),
        signed_rounds: clone_signed_rounds(&channel.signed_rounds),
    }
}

} // verus!
