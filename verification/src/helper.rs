//! What the game is told of the records that are kept, and the operations
//! that the game has run but not yet passed on.

use vstd::prelude::*;
use crate::bytes::bytes_equal;
use crate::cache::channel::{Args, ChannelCache, ChannelView, SHANNONS_PER_CKB};
use crate::challenge::{Challenge, ChallengeView};
use crate::hexstr::{from_nfts, hex_bytes, hex_decode, hex_encode, hex_text, is_hex_text};
use crate::round::{decode_texts, operations_from_bytes, operations_view};

verus! {

/// An operation with its mark, as mathematical values.
pub type CodeView = (Seq<char>, bool);

/// What a list of marked operations holds.
pub open spec fn codes_view(codes: Seq<(String, bool)>) -> Seq<CodeView> {
    Seq::new(codes.len(), |i: int| (codes[i].0@, codes[i].1))
}

/// The texts of the operations that are not marked, in order.
pub open spec fn pending_codes(codes: Seq<CodeView>) -> Seq<Seq<char>>
    decreases codes.len(),
{
    if codes.len() == 0 {
        Seq::empty()
    } else if codes.last().1 {
        pending_codes(codes.drop_last())
    } else {
        pending_codes(codes.drop_last()).push(codes.last().0)
    }
}

/// The operations that are not marked, in order, still unmarked.
pub open spec fn unmarked_codes(codes: Seq<CodeView>) -> Seq<CodeView> {
    Seq::new(pending_codes(codes).len(), |i: int| (pending_codes(codes)[i], false))
}

/// The operations, all marked.
pub open spec fn marked_codes(codes: Seq<CodeView>) -> Seq<CodeView> {
    Seq::new(codes.len(), |i: int| (codes[i].0, true))
}

/// The texts of all operations, in order.
pub open spec fn all_codes(codes: Seq<CodeView>) -> Seq<Seq<char>> {
    Seq::new(codes.len(), |i: int| codes[i].0)
}

/// The operations to pass on.
///
/// With `from_sync`, these are the operations that are not marked, and all
/// operations are marked from now on. Without, these are all operations,
/// and the marks stay.
pub fn dump_cached_codes(codes: &mut Vec<(String, bool)>, from_sync: bool) -> (dumped: Vec<String>)
    ensures
        operations_view(dumped@) == if from_sync {
            pending_codes(codes_view(old(codes)@))
        } else {
            all_codes(codes_view(old(codes)@))
        },
        codes_view(final(codes)@) == if from_sync {
            marked_codes(codes_view(old(codes)@))
        } else {
            codes_view(old(codes)@)
        },
{
    let ghost before = codes_view(codes@);
    let mut dumped: Vec<String> = Vec::new();
    let mut marked: Vec<(String, bool)> = Vec::new();
    let mut index: usize = 0;
    assert(before.take(0) =~= Seq::<CodeView>::empty());
    while index < codes.len()
        invariant
            index <= codes@.len(),
            before == codes_view(codes@),
            marked@.len() == index,
            forall|k: int| 0 <= k < index ==> (#[trigger] marked@[k]).0@ == before[k].0 && marked@[k].1,
            operations_view(dumped@) == if from_sync {
                pending_codes(before.take(index as int))
            } else {
                all_codes(before.take(index as int))
            },
        decreases codes@.len() - index,
    {
        let ghost so_far = operations_view(dumped@);
        proof {
            assert(before.take(index + 1).drop_last() =~= before.take(index as int));
            assert(before.take(index + 1).last() == before[index as int]);
        }
        if !from_sync || !codes[index].1 {
            dumped.push(codes[index].0.clone());
            assert(operations_view(dumped@) =~= so_far.push(before[index as int].0));
        }
        proof {
            if !from_sync {
                assert(all_codes(before.take(index + 1)) =~= all_codes(before.take(index as int)).push(
                    before[index as int].0,
                ));
            }
        }
        marked.push((codes[index].0.clone(), true));
        index += 1;
    }
    assert(before.take(index as int) =~= before);
    if from_sync {
        *codes = marked;
        assert(codes_view(codes@) =~= marked_codes(before));
    }
    dumped
}

/// Forgets the operations that are marked.
pub fn remove_cached_codes(codes: &mut Vec<(String, bool)>)
    ensures
        codes_view(final(codes)@) == unmarked_codes(codes_view(old(codes)@)),
{
    let ghost before = codes_view(codes@);
    let mut kept: Vec<(String, bool)> = Vec::new();
    let mut index: usize = 0;
    assert(before.take(0) =~= Seq::<CodeView>::empty());
    assert(codes_view(kept@) =~= unmarked_codes(before.take(0)));
    while index < codes.len()
        invariant
            index <= codes@.len(),
            before == codes_view(codes@),
            codes_view(kept@) == unmarked_codes(before.take(index as int)),
        decreases codes@.len() - index,
    {
        let ghost so_far = codes_view(kept@);
        proof {
            assert(before.take(index + 1).drop_last() =~= before.take(index as int));
            assert(before.take(index + 1).last() == before[index as int]);
        }
        if !codes[index].1 {
            kept.push((codes[index].0.clone(), false));
            assert(codes_view(kept@) =~= so_far.push((before[index as int].0, false)));
            assert(codes_view(kept@) =~= unmarked_codes(before.take(index + 1)));
        }
        index += 1;
    }
    assert(before.take(index as int) =~= before);
    *codes = kept;
}

/// What a list of counted assets holds.
pub open spec fn counted_view(entries: Seq<(String, u64)>) -> Seq<(Seq<char>, nat)> {
    Seq::new(entries.len(), |i: int| (entries[i].0@, entries[i].1 as nat))
}

/// The runs of a list: each asset with the number of times that it stands
/// in a row, in order.
pub open spec fn runs(value: Seq<Seq<char>>) -> Seq<(Seq<char>, nat)>
    decreases value.len(),
{
    if value.len() == 0 {
        Seq::empty()
    } else {
        let prior = runs(value.drop_last());
        if prior.len() > 0 && prior.last().0 == value.last() {
            prior.drop_last().push((value.last(), prior.last().1 + 1))
        } else {
            prior.push((value.last(), 1))
        }
    }
}

/// The list that counted assets stand for: each asset as often as it is
/// counted, in order.
pub open spec fn expand(entries: Seq<(Seq<char>, nat)>) -> Seq<Seq<char>>
    decreases entries.len(),
{
    if entries.len() == 0 {
        Seq::empty()
    } else {
        expand(entries.drop_last()) + Seq::new(entries.last().1, |i: int| entries.last().0)
    }
}

/// The runs of a list stand for the list.
pub proof fn lemma_expand_runs(value: Seq<Seq<char>>)
    ensures
        expand(runs(value)) == value,
        forall|i: int| 0 <= i < runs(value).len() ==> (#[trigger] runs(value)[i]).1 >= 1,
        value.len() > 0 ==> runs(value).len() > 0 && runs(value).last().0 == value.last(),
        runs(value).len() <= value.len(),
    decreases value.len(),
{
    if value.len() > 0 {
        let before = value.drop_last();
        let prior = runs(before);
        lemma_expand_runs(before);
        if prior.len() > 0 && prior.last().0 == value.last() {
            let merged = prior.drop_last().push((value.last(), prior.last().1 + 1));
            assert(merged.drop_last() =~= prior.drop_last());
            assert(Seq::new((prior.last().1 + 1) as nat, |i: int| value.last()) =~= Seq::new(
                prior.last().1,
                |i: int| prior.last().0,
            ).push(value.last()));
            assert(expand(merged) =~= expand(prior).push(value.last()));
            assert(forall|i: int| 0 <= i < merged.len() - 1 ==> merged[i] == prior[i]);
        } else {
            let extended = prior.push((value.last(), 1nat));
            assert(extended.drop_last() =~= prior);
            assert(Seq::new(1nat, |i: int| value.last()) =~= seq![value.last()]);
            assert(expand(extended) =~= expand(prior).push(value.last()));
            assert(forall|i: int| 0 <= i < extended.len() - 1 ==> extended[i] == prior[i]);
        }
        assert(before.push(value.last()) =~= value);
    }
}

/// The assets of a list with the number of times that each stands in a row.
pub fn into_dictionary(value: &Vec<String>) -> (entries: Vec<(String, u64)>)
    ensures
        counted_view(entries@) == runs(operations_view(value@)),
{
    let ghost texts = operations_view(value@);
    let mut entries: Vec<(String, u64)> = Vec::new();
    let mut index: usize = 0;
    assert(texts.take(0) =~= Seq::<Seq<char>>::empty());
    assert(counted_view(entries@) =~= runs(texts.take(0)));
    while index < value.len()
        invariant
            index <= value@.len(),
            texts == operations_view(value@),
            counted_view(entries@) == runs(texts.take(index as int)),
        decreases value@.len() - index,
    {
        let ghost prior = counted_view(entries@);
        proof {
            assert(texts.take(index + 1).drop_last() =~= texts.take(index as int));
            assert(texts.take(index + 1).last() == texts[index as int]);
            lemma_expand_runs(texts.take(index as int));
        }
        let merge = entries.len() > 0 && entries[entries.len() - 1].0 == value[index];
        assert(merge == (prior.len() > 0 && prior.last().0 == texts[index as int]));
        if merge {
            match entries.pop() {
                Some((asset, count)) => {
                    assert(count as nat == prior.last().1);
                    assert(prior.last().1 <= index) by {
                        lemma_run_length_bound(texts.take(index as int));
                    }
                    entries.push((asset, count + 1));
                    assert(counted_view(entries@) =~= prior.drop_last().push(
                        (texts[index as int], prior.last().1 + 1),
                    ));
                },
                None => {},
            }
        } else {
            entries.push((value[index].clone(), 1));
            assert(counted_view(entries@) =~= prior.push((texts[index as int], 1nat)));
        }
        index += 1;
    }
    assert(texts.take(index as int) =~= texts);
    entries
}

/// No run is longer than the list.
pub proof fn lemma_run_length_bound(value: Seq<Seq<char>>)
    ensures
        forall|i: int| 0 <= i < runs(value).len() ==> (#[trigger] runs(value)[i]).1 <= value.len(),
    decreases value.len(),
{
    if value.len() > 0 {
        let prior = runs(value.drop_last());
        lemma_run_length_bound(value.drop_last());
        if prior.len() > 0 && prior.last().0 == value.last() {
            let merged = prior.drop_last().push((value.last(), prior.last().1 + 1));
            assert(forall|i: int| 0 <= i < merged.len() - 1 ==> merged[i] == prior[i]);
        } else {
            let extended = prior.push((value.last(), 1nat));
            assert(forall|i: int| 0 <= i < extended.len() - 1 ==> extended[i] == prior[i]);
        }
    }
}

/// The list that counted assets stand for.
pub fn from_dictionary(entries: &Vec<(String, u64)>) -> (value: Vec<String>)
    ensures
        operations_view(value@) == expand(counted_view(entries@)),
{
    let ghost counted = counted_view(entries@);
    let mut value: Vec<String> = Vec::new();
    let mut index: usize = 0;
    assert(counted.take(0) =~= Seq::<(Seq<char>, nat)>::empty());
    assert(operations_view(value@) =~= expand(counted.take(0)));
    while index < entries.len()
        invariant
            index <= entries@.len(),
            counted == counted_view(entries@),
            operations_view(value@) == expand(counted.take(index as int)),
        decreases entries@.len() - index,
    {
        let ghost before = operations_view(value@);
        let count: u64 = entries[index].1;
        let mut copies: u64 = 0;
        while copies < count
            invariant
                copies <= count,
                index < entries@.len(),
                count == entries@[index as int].1,
                operations_view(value@) == before + Seq::new(
                    copies as nat,
                    |i: int| entries@[index as int].0@,
                ),
            decreases count - copies,
        {
            let ghost so_far = operations_view(value@);
            value.push(entries[index].0.clone());
            assert(operations_view(value@) =~= so_far.push(entries@[index as int].0@));
            assert(operations_view(value@) =~= before + Seq::new(
                (copies + 1) as nat,
                |i: int| entries@[index as int].0@,
            ));
            copies += 1;
        }
        proof {
            assert(counted.take(index + 1).drop_last() =~= counted.take(index as int));
            assert(counted.take(index + 1).last() == counted[index as int]);
        }
        index += 1;
    }
    assert(counted.take(index as int) =~= counted);
    value
}

/// What the game is told of a record that is kept for a channel that is
/// not closed yet.
#[derive(Clone, Debug, PartialEq, Eq)]
pub struct CacheSummary {
    /// The hash of the channel's lock script, in hexadecimal digits.
    pub script_hash: String,
    /// The type of the local party.
    pub user_type: u8,
    pub user1_pkhash: String,
    pub user2_pkhash: String,
    pub user1_nfts: Vec<String>,
    pub user2_nfts: Vec<String>,
    /// The stake and the bet, in whole CKB.
    pub staking_ckb: u64,
    pub bet_ckb: u64,
    /// The number of rounds that a dispute would settle.
    pub round_count: u64,
    /// The number of blocks until a challenge can be settled.
    pub block_countdown: u64,
    /// Who has published a challenge, 0 for nobody.
    pub challenger: u8,
    /// The operations that the challenge claims.
    pub operations: Vec<String>,
}

/// What becomes of a record once the ledger has been asked about its
/// channel.
#[derive(Clone, Debug, PartialEq, Eq)]
pub enum ScanVerdict {
    /// The game is told of the record.
    Keep(CacheSummary),
    /// The record is passed over.
    Skip,
    /// The channel's cell is gone: the record is to be removed.
    Remove,
}

/// A number, or the largest that 64 bits hold where it is larger.
pub open spec fn clip(number: int) -> u64 {
    if number > u64::MAX {
        u64::MAX
    } else {
        number as u64
    }
}

/// The number of rounds of a record: the signed ones, and one more where
/// operations are pending.
pub open spec fn cache_round_count(channel: ChannelView) -> int {
    channel.signed_rounds.len() + if channel.round_operations.len() > 0 {
        1int
    } else {
        0int
    }
}

/// The number of blocks that a challenge stays open: the square of the
/// number of rounds, which counts as 5 below 5 signed rounds and as 30
/// above 30.
pub open spec fn challenge_window(channel: ChannelView) -> int {
    let signed = channel.signed_rounds.len();
    let rounds = if signed > 30 {
        30int
    } else if signed < 5 {
        5int
    } else {
        cache_round_count(channel)
    };
    rounds * rounds
}

/// The number of blocks from the tip to the block at which a challenge can
/// be settled, none where the tip is past it.
pub open spec fn block_countdown(channel: ChannelView, begin_blocknumber: u64, tipnumber: u64) -> int {
    let target = clip(begin_blocknumber + challenge_window(channel));
    if target > tipnumber {
        target - tipnumber
    } else {
        0
    }
}

/// Whether a record is kept under the name that its channel gives it: the
/// name spells the hash of the channel's lock script.
pub open spec fn name_matches(name: Seq<char>, channel: ChannelView) -> bool {
    is_hex_text(name) && hex_bytes(name) == channel.script_hash
}

/// The type of the party with the fingerprint `owner` among the two that
/// the channel's lock names, 0 where it is neither.
pub open spec fn owner_type(owner: Seq<u8>, user1_pkhash: Seq<u8>, user2_pkhash: Seq<u8>) -> u8 {
    if owner == user1_pkhash {
        1
    } else if owner == user2_pkhash {
        2
    } else {
        0
    }
}

/// What the game is told of the record that was found under `name`, for
/// the party with the key fingerprint `owner_pkhash` and the ledger at the
/// block `tipnumber`.
///
/// A record under a name that is not its own, or of a channel that the
/// party is no part of, is passed over. Nothing is known of a challenge
/// yet: see `merge_challenge_data`.
pub fn scan_uncomplete_kabletop_cache(
    name: &str,
    channel: &ChannelCache,
    args: &Args,
    owner_pkhash: &[u8; 20],
    tipnumber: u64,
) -> (found: Option<CacheSummary>)
    ensures
        found.is_some() == (name_matches(name@, channel@) && owner_type(
            owner_pkhash@,
            args.user1_pkhash@,
            args.user2_pkhash@,
        ) != 0),
        found.is_some() ==> {
            let summary = found.unwrap();
            &&& summary.script_hash@ == hex_text(channel@.script_hash)
            &&& summary.user_type == owner_type(owner_pkhash@, args.user1_pkhash@, args.user2_pkhash@)
            &&& summary.user1_pkhash@ == hex_text(args.user1_pkhash@)
            &&& summary.user2_pkhash@ == hex_text(args.user2_pkhash@)
            &&& summary.user1_nfts@.len() == args.user1_nfts@.len()
            &&& summary.user2_nfts@.len() == args.user2_nfts@.len()
            &&& forall|i: int|
                0 <= i < args.user1_nfts@.len() ==> (#[trigger] summary.user1_nfts@[i])@ == hex_text(
                    args.user1_nfts@[i]@,
                )
            &&& forall|i: int|
                0 <= i < args.user2_nfts@.len() ==> (#[trigger] summary.user2_nfts@[i])@ == hex_text(
                    args.user2_nfts@[i]@,
                )
            &&& summary.staking_ckb == channel@.staking_ckb / SHANNONS_PER_CKB
            &&& summary.bet_ckb == channel@.bet_ckb / SHANNONS_PER_CKB
            &&& summary.round_count == clip(cache_round_count(channel@))
            &&& summary.block_countdown == block_countdown(channel@, args.begin_blocknumber, tipnumber)
            &&& summary.challenger == 0
            &&& summary.operations@.len() == 0
        },
{
    match hex_decode(name) {
        None => {
            return None;
        },
        Some(hash) => {
            if !bytes_equal(hash.as_slice(), channel.script_hash.as_slice()) {
                return None;
            }
        },
    }
    let user_type: u8 = if bytes_equal(owner_pkhash.as_slice(), args.user1_pkhash.as_slice()) {
        1
    } else if bytes_equal(owner_pkhash.as_slice(), args.user2_pkhash.as_slice()) {
        2
    } else {
        return None;
    };
    let signed: usize = channel.signed_rounds.len();
    let round_count: u64 = if channel.round_operations.len() != 0 {
        (signed as u64).saturating_add(1)
    } else {
        signed as u64
    };
    let rounds: u64 = if signed > 30 {
        30
    } else if signed < 5 {
        5
    } else {
        round_count
    };
    assert(rounds * rounds <= 961) by (nonlinear_arith)
        requires
            rounds <= 31,
    ;
    let target: u64 = args.begin_blocknumber.saturating_add(rounds * rounds);
    let countdown: u64 = if target > tipnumber {
        target - tipnumber
    } else {
        0
    };
    Some(
        CacheSummary {
            script_hash: hex_encode(channel.script_hash.as_slice()),
            user_type,
            user1_pkhash: hex_encode(args.user1_pkhash.as_slice()),
            user2_pkhash: hex_encode(args.user2_pkhash.as_slice()),
            user1_nfts: from_nfts(&args.user1_nfts),
            user2_nfts: from_nfts(&args.user2_nfts),
            staking_ckb: channel.staking_ckb / SHANNONS_PER_CKB,
            bet_ckb: channel.bet_ckb / SHANNONS_PER_CKB,
            round_count,
            block_countdown: countdown,
            challenger: 0,
            operations: Vec::new(),
        },
    )
}

/// The challenger and the operations that a challenge claims, nobody and
/// none without a challenge, and nothing where the claimed operations are
/// not valid UTF-8.
pub open spec fn claimed(challenge: Option<ChallengeView>) -> Option<(u8, Seq<Seq<char>>)> {
    match challenge {
        None => Some((0u8, Seq::empty())),
        Some(challenge) => match decode_texts(challenge.operations) {
            Some(operations) => Some((challenge.challenger, operations)),
            None => None,
        },
    }
}

/// Whether `merged` is `summary` with the challenger and the claimed
/// operations added, and one round more unless the challenger is the local
/// party.
pub open spec fn is_merged(summary: CacheSummary, merged: CacheSummary, challenger: u8, operations: Seq<Seq<char>>) -> bool {
    &&& merged == (CacheSummary {
        round_count: clip(
            summary.round_count + if summary.user_type != challenger {
                1int
            } else {
                0int
            },
        ),
        challenger,
        operations: merged.operations,
        ..summary
    })
    &&& operations_view(merged.operations@) == operations
}

/// Completes what the game is told of a record with what the ledger says
/// of its channel: whether the channel's cell is there, and the challenge in
/// it, if there is one.
///
/// Without a cell the record is to be removed. A challenge whose operations
/// are not valid UTF-8 has the record passed over. Otherwise the challenger
/// and the claimed operations are added (nobody and none without a
/// challenge), and the rounds count one more unless the challenge is the
/// local party's own.
pub fn merge_challenge_data(summary: CacheSummary, cell_found: bool, challenge: Option<&Challenge>) -> (verdict:
    ScanVerdict)
    ensures
        !cell_found ==> verdict == ScanVerdict::Remove,
        cell_found ==> match claimed(
            match challenge {
                Some(challenge) => Some(challenge@),
                None => None,
            },
        ) {
            None => verdict == ScanVerdict::Skip,
            Some((challenger, operations)) => verdict is Keep && is_merged(
                summary,
                verdict->Keep_0,
                challenger,
                operations,
            ),
        },
{
    if !cell_found {
        return ScanVerdict::Remove;
    }
    let (challenger, operations) = match challenge {
        None => (0u8, Vec::<String>::new()),
        Some(challenge) => match operations_from_bytes(&challenge.operations) {
            Ok(operations) => (challenge.challenger, operations),
            Err(_) => {
                return ScanVerdict::Skip;
            },
        },
    };
    let round_count = if summary.user_type != challenger {
        summary.round_count.saturating_add(1)
    } else {
        summary.round_count
    };
    proof {
        if challenge.is_none() {
            assert(operations_view(operations@) =~= Seq::<Seq<char>>::empty());
        }
    }
    ScanVerdict::Keep(
        CacheSummary {
            script_hash: summary.script_hash,
            user_type: summary.user_type,
            user1_pkhash: summary.user1_pkhash,
            user2_pkhash: summary.user2_pkhash,
            user1_nfts: summary.user1_nfts,
            user2_nfts: summary.user2_nfts,
            staking_ckb: summary.staking_ckb,
            bet_ckb: summary.bet_ckb,
            round_count,
            block_countdown: summary.block_countdown,
            challenger,
            operations,
        },
    )
}

} // verus!
