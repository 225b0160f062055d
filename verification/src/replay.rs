//! Replay: the steps that rebuild the state of a game from the history of
//! its signed rounds.
//!
//! The interpreter of the game is seeded with the hash of the channel's lock
//! script, then runs the operations of each round in order, and after each
//! round is seeded anew with the round's signature. The interpreter gets
//! nothing else, so that both parties come to the same state from the same
//! history.

use vstd::prelude::*;
use vstd::bytes::u64_from_le_bytes;
use vstd::slice::slice_subrange;
use crate::bytes::{bytes_equal, from_le64};
use crate::cache::channel::{Args, ChannelCache, ChannelView};
use crate::chain::{clone_signed_rounds, signed_rounds_view, SignedRound, SignedRoundView};
use crate::challenge::{Challenge, ChallengeView};
use crate::crypto::{privkey_to_pkhash, spec_privkey_hash};
use crate::error::ChannelError;
use crate::hexstr::{from_nfts, hex_bytes, hex_decode, hex_text, is_hex_text};
use crate::round::{clone_operations, make_round};

verus! {

/// One step of a replay.
#[derive(Clone, Debug, PartialEq, Eq)]
pub enum ReplayStep {
    /// Seed the interpreter's random source with the two numbers.
    Seed(i64, i64),
    /// Run one operation.
    Run(String),
}

/// What a step holds, as mathematical values.
pub enum ReplayStepView {
    Seed(i64, i64),
    Run(Seq<char>),
}

impl View for ReplayStep {
    type V = ReplayStepView;

    open spec fn view(&self) -> ReplayStepView {
        match self {
            ReplayStep::Seed(first, second) => ReplayStepView::Seed(*first, *second),
            ReplayStep::Run(operation) => ReplayStepView::Run(operation@),
        }
    }
}

/// What a list of steps holds.
pub open spec fn steps_view(steps: Seq<ReplayStep>) -> Seq<ReplayStepView> {
    Seq::new(steps.len(), |i: int| steps[i]@)
}

/// The two numbers that the first 16 bytes of a seed spell: each from eight
/// bytes, least significant first, as a signed number.
pub open spec fn seed_of(seed: Seq<u8>) -> (i64, i64) {
    (from_le64(seed.subrange(0, 8)) as i64, from_le64(seed.subrange(8, 16)) as i64)
}

/// The step that seeds the interpreter with `seed`.
pub open spec fn seed_step(seed: Seq<u8>) -> ReplayStepView {
    ReplayStepView::Seed(seed_of(seed).0, seed_of(seed).1)
}

/// The steps of one round: its operations in order, then the seed that its
/// signature gives.
pub open spec fn round_steps(round: SignedRoundView) -> Seq<ReplayStepView> {
    Seq::new(round.round.operations.len(), |i: int| ReplayStepView::Run(round.round.operations[i])).push(
        seed_step(round.signature),
    )
}

/// The steps of a history: those of its rounds, in order.
pub open spec fn history_steps(rounds: Seq<SignedRoundView>) -> Seq<ReplayStepView>
    decreases rounds.len(),
{
    if rounds.len() == 0 {
        Seq::empty()
    } else {
        history_steps(rounds.drop_last()) + round_steps(rounds.last())
    }
}

/// The steps of a replay: the first seed, then the steps of the history.
pub open spec fn replay_steps(first_seed: Seq<u8>, rounds: Seq<SignedRoundView>) -> Seq<ReplayStepView> {
    seq![seed_step(first_seed)] + history_steps(rounds)
}

/// What an interpreter in a given state has emitted, and the state it is
/// in, after it has taken the steps in order. The interpreter is any
/// function from a state and a step to the next state and what it emits.
pub open spec fn run_steps<S, E>(
    interpreter: spec_fn(S, ReplayStepView) -> (S, Seq<E>),
    state: S,
    steps: Seq<ReplayStepView>,
) -> (S, Seq<E>)
    decreases steps.len(),
{
    if steps.len() == 0 {
        (state, Seq::empty())
    } else {
        let before = run_steps(interpreter, state, steps.drop_last());
        let last = interpreter(before.0, steps.last());
        (last.0, before.1 + last.1)
    }
}

/// Replay is a function of the seeds and the operations alone: two
/// histories with the same operations and the same signatures, round for
/// round, replayed from first seeds with the same first 16 bytes, take an
/// interpreter through the same steps, and so to the same state and the
/// same events, whoever owns the rounds.
pub proof fn lemma_replay_deterministic<S, E>(
    interpreter: spec_fn(S, ReplayStepView) -> (S, Seq<E>),
    state: S,
    left_seed: Seq<u8>,
    left: Seq<SignedRoundView>,
    right_seed: Seq<u8>,
    right: Seq<SignedRoundView>,
)
    requires
        left_seed.len() >= 16,
        right_seed.len() >= 16,
        left_seed.subrange(0, 16) == right_seed.subrange(0, 16),
        left.len() == right.len(),
        forall|i: int|
            0 <= i < left.len() ==> (#[trigger] left[i]).round.operations == right[i].round.operations
                && left[i].signature == right[i].signature,
    ensures
        replay_steps(left_seed, left) == replay_steps(right_seed, right),
        run_steps(interpreter, state, replay_steps(left_seed, left)) == run_steps(
            interpreter,
            state,
            replay_steps(right_seed, right),
        ),
{
    assert(left_seed.subrange(0, 8) =~= left_seed.subrange(0, 16).subrange(0, 8));
    assert(right_seed.subrange(0, 8) =~= right_seed.subrange(0, 16).subrange(0, 8));
    assert(left_seed.subrange(8, 16) =~= left_seed.subrange(0, 16).subrange(8, 16));
    assert(right_seed.subrange(8, 16) =~= right_seed.subrange(0, 16).subrange(8, 16));
    lemma_history_steps_agree(left, right);
}

/// Histories with the same operations and signatures have the same steps.
proof fn lemma_history_steps_agree(left: Seq<SignedRoundView>, right: Seq<SignedRoundView>)
    requires
        left.len() == right.len(),
        forall|i: int|
            0 <= i < left.len() ==> (#[trigger] left[i]).round.operations == right[i].round.operations
                && left[i].signature == right[i].signature,
    ensures
        history_steps(left) == history_steps(right),
    decreases left.len(),
{
    if left.len() > 0 {
        lemma_history_steps_agree(left.drop_last(), right.drop_last());
    }
}

/// Replaying a longer history goes on where the replay of the shorter one
/// ended: the steps of a history with one more round are the steps of the
/// history and then those of the round, and an interpreter that takes them
/// emits what it emitted on the history and then what it emits on the
/// round. So a replay emits what the game emitted while it was played.
pub proof fn lemma_replay_extends<S, E>(
    interpreter: spec_fn(S, ReplayStepView) -> (S, Seq<E>),
    state: S,
    first_seed: Seq<u8>,
    rounds: Seq<SignedRoundView>,
    round: SignedRoundView,
)
    ensures
        replay_steps(first_seed, rounds.push(round)) == replay_steps(first_seed, rounds) + round_steps(
            round,
        ),
        ({
            let played = run_steps(interpreter, state, replay_steps(first_seed, rounds));
            let next = run_steps(interpreter, played.0, round_steps(round));
            run_steps(interpreter, state, replay_steps(first_seed, rounds.push(round))) == (
                next.0,
                played.1 + next.1,
            )
        }),
{
    assert(rounds.push(round).drop_last() =~= rounds);
    assert(replay_steps(first_seed, rounds.push(round)) =~= replay_steps(first_seed, rounds)
        + round_steps(round));
    lemma_run_steps_concat(interpreter, state, replay_steps(first_seed, rounds), round_steps(round));
}

/// Taking two lists of steps one after the other is taking their
/// concatenation.
pub proof fn lemma_run_steps_concat<S, E>(
    interpreter: spec_fn(S, ReplayStepView) -> (S, Seq<E>),
    state: S,
    first: Seq<ReplayStepView>,
    second: Seq<ReplayStepView>,
)
    ensures
        ({
            let played = run_steps(interpreter, state, first);
            let next = run_steps(interpreter, played.0, second);
            run_steps(interpreter, state, first + second) == (next.0, played.1 + next.1)
        }),
    decreases second.len(),
{
    let played = run_steps(interpreter, state, first);
    if second.len() == 0 {
        assert(first + second =~= first);
        assert(played.1 + Seq::<E>::empty() =~= played.1);
    } else {
        lemma_run_steps_concat(interpreter, state, first, second.drop_last());
        assert((first + second).drop_last() =~= first + second.drop_last());
        assert((first + second).last() == second.last());
        let before = run_steps(interpreter, played.0, second.drop_last());
        let last = interpreter(before.0, second.last());
        assert(played.1 + (before.1 + last.1) =~= (played.1 + before.1) + last.1);
    }
}

/// The two numbers that seed the interpreter's random source, from the
/// first 16 bytes of `seed`.
pub fn randomseed(seed: &[u8]) -> (numbers: (i64, i64))
    requires
        seed@.len() >= 16,
    ensures
        numbers == seed_of(seed@),
{
    let first = u64_from_le_bytes(slice_subrange(seed, 0, 8));
    let second = u64_from_le_bytes(slice_subrange(seed, 8, 16));
    (first as i64, second as i64)
}

/// The steps of one round appended to `steps`.
fn push_round_steps(steps: &mut Vec<ReplayStep>, round: &SignedRound)
    ensures
        steps_view(final(steps)@) == steps_view(old(steps)@) + round_steps(round@),
{
    let ghost before = steps_view(steps@);
    let ghost operations = round@.round.operations;
    let mut index: usize = 0;
    while index < round.round.operations.len()
        invariant
            index <= round.round.operations@.len(),
            operations == round@.round.operations,
            steps_view(steps@) == before + Seq::new(
                index as nat,
                |i: int| ReplayStepView::Run(operations[i]),
            ),
        decreases round.round.operations@.len() - index,
    {
        let ghost so_far = steps_view(steps@);
        steps.push(ReplayStep::Run(round.round.operations[index].clone()));
        assert(steps_view(steps@) =~= so_far.push(ReplayStepView::Run(operations[index as int])));
        assert(steps_view(steps@) =~= before + Seq::new(
            (index + 1) as nat,
            |i: int| ReplayStepView::Run(operations[i]),
        ));
        index += 1;
    }
    let ghost so_far = steps_view(steps@);
    let numbers = randomseed(round.signature.as_slice());
    steps.push(ReplayStep::Seed(numbers.0, numbers.1));
    assert(steps_view(steps@) =~= so_far.push(seed_step(round@.signature)));
    assert(steps_view(steps@) =~= before + round_steps(round@));
}

/// The steps that replay a history from a first seed.
pub fn replay_plan(first_seed: &[u8], signed_rounds: &Vec<SignedRound>) -> (steps: Vec<ReplayStep>)
    requires
        first_seed@.len() >= 16,
    ensures
        steps_view(steps@) == replay_steps(first_seed@, signed_rounds_view(signed_rounds@)),
{
    let ghost rounds = signed_rounds_view(signed_rounds@);
    let mut steps: Vec<ReplayStep> = Vec::new();
    let numbers = randomseed(first_seed);
    steps.push(ReplayStep::Seed(numbers.0, numbers.1));
    assert(steps_view(steps@) =~= seq![seed_step(first_seed@)]);
    let mut index: usize = 0;
    assert(rounds.take(0) =~= Seq::<SignedRoundView>::empty());
    while index < signed_rounds.len()
        invariant
            index <= signed_rounds@.len(),
            rounds == signed_rounds_view(signed_rounds@),
            steps_view(steps@) == seq![seed_step(first_seed@)] + history_steps(rounds.take(index as int)),
        decreases signed_rounds@.len() - index,
    {
        push_round_steps(&mut steps, &signed_rounds[index]);
        proof {
            let longer = rounds.take(index + 1);
            assert(longer.drop_last() =~= rounds.take(index as int));
            assert(longer.last() == rounds[index as int]);
            assert(steps_view(steps@) =~= seq![seed_step(first_seed@)] + history_steps(longer));
        }
        index += 1;
    }
    assert(rounds.take(index as int) =~= rounds);
    steps
}

/// What a replay takes: the assets of the two parties, as the texts that
/// the interpreter is given at its start, and the steps.
#[derive(Clone, Debug, PartialEq, Eq)]
pub struct Replay {
    pub user1_nfts: Vec<String>,
    pub user2_nfts: Vec<String>,
    pub steps: Vec<ReplayStep>,
}

/// The history that is replayed: the signed rounds of the record, and
/// after them what is pending, as the local party's round under the
/// signature of a challenge that the other party has published.
pub open spec fn replay_rounds(channel: ChannelView, challenge: Option<ChallengeView>) -> Seq<
    SignedRoundView,
> {
    match challenge {
        Some(challenge) => if channel.round_operations.len() > 0 && challenge.challenger
            != channel.user_type {
            channel.extended_rounds(channel.user_type, challenge.snapshot_signature)
        } else {
            channel.signed_rounds
        },
        None => channel.signed_rounds,
    }
}

/// Whether the key is that of the party that the record says the local
/// party is: its fingerprint is that of exactly the party of the local type
/// among the two that the channel's lock names.
pub open spec fn owner_matches(user_type: u8, user1_pkhash: Seq<u8>, user2_pkhash: Seq<u8>, privkey: Seq<u8>) -> bool {
    match spec_privkey_hash(privkey) {
        None => false,
        Some(owner) => {
            &&& owner == user1_pkhash ==> user_type == 1
            &&& owner == user2_pkhash ==> user_type == 2
            &&& owner == user1_pkhash || owner == user2_pkhash
        },
    }
}

/// Whether the name of a record spells a seed: hexadecimal digits for at
/// least 16 bytes.
pub open spec fn is_seed_text(script_hash: Seq<char>) -> bool {
    is_hex_text(script_hash) && script_hash.len() >= 32
}

/// The replay of a record that was brought back under the name
/// `script_hash`, the hash of its channel's lock script in hexadecimal
/// digits.
///
/// `args` is what the lock's arguments say, and `challenge` what the other
/// party has published on the ledger, if anything. The replay is refused
/// with `InvalidState` where the name spells no seed or the key is not that
/// of the local party of the record.
pub fn replay_kabletop_cache(
    script_hash: &str,
    channel: &ChannelCache,
    args: &Args,
    challenge: Option<&Challenge>,
    privkey: &[u8; 32],
) -> (done: Result<Replay, ChannelError>)
    ensures
        done.is_ok() == (is_seed_text(script_hash@) && owner_matches(
            channel@.user_type,
            args.user1_pkhash@,
            args.user2_pkhash@,
            privkey@,
        )),
        done.is_err() ==> done == Err::<Replay, ChannelError>(ChannelError::InvalidState),
        done.is_ok() ==> {
            let replay = done.unwrap();
            &&& steps_view(replay.steps@) == replay_steps(
                hex_bytes(script_hash@),
                replay_rounds(
                    channel@,
                    match challenge {
                        Some(challenge) => Some(challenge@),
                        None => None,
                    },
                ),
            )
            &&& replay.user1_nfts@.len() == args.user1_nfts@.len()
            &&& replay.user2_nfts@.len() == args.user2_nfts@.len()
            &&& forall|i: int|
                0 <= i < args.user1_nfts@.len() ==> (#[trigger] replay.user1_nfts@[i])@ == hex_text(
                    args.user1_nfts@[i]@,
                )
            &&& forall|i: int|
                0 <= i < args.user2_nfts@.len() ==> (#[trigger] replay.user2_nfts@[i])@ == hex_text(
                    args.user2_nfts@[i]@,
                )
        },
{
    let seed = match hex_decode(script_hash) {
        Some(seed) => seed,
        None => {
            return Err(ChannelError::InvalidState);
        },
    };
    if seed.len() < 16 {
        return Err(ChannelError::InvalidState);
    }
    let owner = match privkey_to_pkhash(privkey) {
        Some(owner) => owner,
        None => {
            return Err(ChannelError::InvalidState);
        },
    };
    let is_user1 = bytes_equal(owner.as_slice(), args.user1_pkhash.as_slice());
    let is_user2 = bytes_equal(owner.as_slice(), args.user2_pkhash.as_slice());
    if (is_user1 && channel.user_type != 1) || (is_user2 && channel.user_type != 2) || (!is_user1
        && !is_user2) {
        return Err(ChannelError::InvalidState);
    }
    let mut rounds = clone_signed_rounds(&channel.signed_rounds);
    match challenge {
        Some(challenge) => {
            if channel.round_operations.len() != 0 && challenge.challenger != channel.user_type {
                rounds.push(
                    SignedRound {
                        round: make_round(channel.user_type, clone_operations(&channel.round_operations)),
                        signature: challenge.snapshot_signature,
                    },
                );
                assert(signed_rounds_view(rounds@) =~= channel@.extended_rounds(
                    channel@.user_type,
                    challenge@.snapshot_signature,
                ));
            }
        },
        None => {},
    }
    let steps = replay_plan(seed.as_slice(), &rounds);
    Ok(Replay { user1_nfts: from_nfts(&args.user1_nfts), user2_nfts: from_nfts(&args.user2_nfts), steps })
}

} // verus!
