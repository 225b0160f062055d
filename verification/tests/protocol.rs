use kabletop_godot_sdk::cache::channel::{
    commit_user_operation, init, set_playing_nfts, set_round_status, set_winner, Args, ChannelCache, PLAYER_TYPE,
};
use kabletop_godot_sdk::chain::{sign_round, verify_chain};
use kabletop_godot_sdk::crypto::privkey_to_pkhash;
use kabletop_godot_sdk::error::ChannelError;
use kabletop_godot_sdk::p2p::protocol::methods::{reply, send};
use kabletop_godot_sdk::p2p::protocol::types::{request, response, ChannelTransaction};
use kabletop_godot_sdk::replay::{replay_plan, ReplayStep};
use kabletop_godot_sdk::replay::randomseed;
use kabletop_godot_sdk::round::make_round;

const KEY_A: [u8; 32] = [0x11; 32];
const KEY_B: [u8; 32] = [0x22; 32];
const KEY_C: [u8; 32] = [0x33; 32];
const SCRIPT_HASH: [u8; 32] = [0xab; 32];
const TX_HASH: [u8; 32] = [0xcd; 32];
const CAPACITY: u64 = 80_000_000_000;

fn pkhash(key: &[u8; 32]) -> [u8; 20] {
    privkey_to_pkhash(key).expect("a private key")
}

fn opening_transaction() -> ChannelTransaction {
    ChannelTransaction {
        hash: TX_HASH,
        lock_hash: SCRIPT_HASH,
        lock_args: vec![9, 8, 7],
        capacity: CAPACITY,
        args: Args {
            begin_blocknumber: 100,
            user1_pkhash: pkhash(&KEY_A),
            user1_nfts: vec![[1; 20], [2; 20]],
            user2_pkhash: pkhash(&KEY_B),
            user2_nfts: vec![[3; 20]],
        },
    }
}

/// The records of A (type 1) and B (type 2) after A has opened a channel
/// with B.
fn opened_pair() -> (ChannelCache, ChannelCache) {
    let mut a = ChannelCache::new(pkhash(&KEY_A));
    init(&mut a, PLAYER_TYPE::ONE);
    set_playing_nfts(&mut a, vec![[1; 20], [2; 20]]);
    let mut b = ChannelCache::new(pkhash(&KEY_B));
    init(&mut b, PLAYER_TYPE::TWO);
    set_playing_nfts(&mut b, vec![[3; 20]]);

    let offer = send::prepare_channel(&a).unwrap();
    assert_eq!(offer.user_nfts, vec![[1; 20], [2; 20]]);
    assert_eq!(offer.user_pkhash, pkhash(&KEY_A));
    let asked = request::PrepareChannel { tx: opening_transaction() };
    let completed = reply::prepare_kabletop_channel(&mut b, &asked, opening_transaction()).unwrap();
    send::accept_completed_channel(&mut a, &completed);
    let answer = reply::open_kabletop_channel(&mut b, true);
    assert_eq!(answer, response::OpenChannel { result: true });
    assert_eq!(send::open_kabletop_channel(&mut a, &completed.tx, &answer), Ok(TX_HASH));
    (a, b)
}

/// One round played by `owner` and closed with `partner`, whose key is
/// `partner_key`. Returns the signature.
fn play_round(owner: &mut ChannelCache, partner: &mut ChannelCache, partner_key: &[u8; 32], operations: &[&str]) -> [u8; 65] {
    for text in operations {
        let asked = send::push_operation_request(owner, &text.to_string());
        let answer = reply::sync_operation(partner, &asked).unwrap();
        send::sync_operation(owner, text.to_string(), &answer).unwrap();
    }
    let asked = send::close_round_request(owner);
    let answer = reply::switch_round(partner, &asked, partner_key).unwrap();
    send::switch_round(owner, &answer).unwrap()
}

#[test]
fn opening_sets_identity_partner_and_first_round_on_both_sides() {
    let (a, b) = opened_pair();
    for channel in [&a, &b] {
        assert_eq!(channel.channel_hash, TX_HASH);
        assert_eq!(channel.script_hash, SCRIPT_HASH);
        assert_eq!(channel.script_args, vec![9, 8, 7]);
        assert_eq!(channel.capacity, CAPACITY);
        assert_eq!((channel.round, channel.round_owner), (1, 1));
    }
    assert_eq!((a.user_type, a.opponent_type), (1, 2));
    assert_eq!((b.user_type, b.opponent_type), (2, 1));
    assert_eq!(a.opponent_pkhash, pkhash(&KEY_B));
    assert_eq!(a.opponent_nfts, vec![[3; 20]]);
    assert_eq!(b.opponent_pkhash, pkhash(&KEY_A));
    assert_eq!(b.opponent_nfts, vec![[1; 20], [2; 20]]);
}

#[test]
fn opening_without_assets_is_refused() {
    let mut a = ChannelCache::new(pkhash(&KEY_A));
    init(&mut a, PLAYER_TYPE::ONE);
    assert_eq!(send::prepare_channel(&a), Err(ChannelError::InvalidState));
}

#[test]
fn opening_that_the_partner_did_not_see_committed_times_out() {
    let mut a = ChannelCache::new(pkhash(&KEY_A));
    init(&mut a, PLAYER_TYPE::ONE);
    let mut b = ChannelCache::new(pkhash(&KEY_B));
    init(&mut b, PLAYER_TYPE::TWO);
    let before = (a.clone(), b.clone());
    let answer = reply::open_kabletop_channel(&mut b, false);
    assert_eq!(answer.result, false);
    assert_eq!(
        send::open_kabletop_channel(&mut a, &opening_transaction(), &answer),
        Err(ChannelError::ChainTimeout)
    );
    assert_eq!((a, b), before);
}

#[test]
fn channel_is_not_opened_twice() {
    let (mut a, mut b) = opened_pair();
    let before = (a.clone(), b.clone());
    let answer = response::OpenChannel { result: true };
    assert_eq!(
        send::open_kabletop_channel(&mut a, &opening_transaction(), &answer),
        Err(ChannelError::InvalidState)
    );
    let asked = request::PrepareChannel { tx: opening_transaction() };
    assert_eq!(
        reply::prepare_kabletop_channel(&mut b, &asked, opening_transaction()),
        Err(ChannelError::InvalidState)
    );
    assert_eq!(reply::open_kabletop_channel(&mut b, true).result, true);
    assert_eq!((a, b), before);
    let mut blank = ChannelCache::new(pkhash(&KEY_A));
    assert_eq!(
        send::open_kabletop_channel(&mut blank, &opening_transaction(), &answer),
        Err(ChannelError::InvalidState)
    );
}

#[test]
fn two_rounds_between_two_parties() {
    let (mut a, mut b) = opened_pair();
    assert_eq!((a.round, a.round_owner), (1, 1));

    let s1 = play_round(&mut a, &mut b, &KEY_B, &["draw", "attack:3"]);
    assert_eq!((a.round, a.round_owner), (2, 2));
    assert_eq!((b.round, b.round_owner), (2, 2));

    let s2 = play_round(&mut b, &mut a, &KEY_A, &["defend"]);
    assert_eq!((a.round, a.round_owner), (3, 1));
    assert_eq!((b.round, b.round_owner), (3, 1));

    assert_eq!(a.signed_rounds.len(), 2);
    assert_eq!(a.signed_rounds, b.signed_rounds);
    assert_eq!(a.signed_rounds[0].round, make_round(1, vec!["draw".to_string(), "attack:3".to_string()]));
    assert_eq!(a.signed_rounds[0].signature, s1);
    assert_eq!(a.signed_rounds[1].round, make_round(2, vec!["defend".to_string()]));
    assert_eq!(a.signed_rounds[1].signature, s2);
    assert!(a.round_operations.is_empty() && b.round_operations.is_empty());
    assert_eq!(
        verify_chain(&SCRIPT_HASH, CAPACITY, &a.signed_rounds, &pkhash(&KEY_A), &pkhash(&KEY_B)),
        Ok(true)
    );

    let (h1, h2) = randomseed(&SCRIPT_HASH);
    let (s1a, s1b) = randomseed(&s1);
    let (s2a, s2b) = randomseed(&s2);
    let live = vec![
        ReplayStep::Seed(h1, h2),
        ReplayStep::Run("draw".to_string()),
        ReplayStep::Run("attack:3".to_string()),
        ReplayStep::Seed(s1a, s1b),
        ReplayStep::Run("defend".to_string()),
        ReplayStep::Seed(s2a, s2b),
    ];
    assert_eq!(replay_plan(&SCRIPT_HASH, &a.signed_rounds), live);
    assert_eq!(replay_plan(&SCRIPT_HASH, &b.signed_rounds), live);
}

#[test]
fn forged_signature_on_round_two_is_not_accepted() {
    let (mut a, mut b) = opened_pair();
    play_round(&mut a, &mut b, &KEY_B, &["draw", "attack:3"]);
    commit_user_operation(&mut b, "defend".to_string()).unwrap();
    let round = make_round(2, vec!["defend".to_string()]);
    let forged = sign_round(&SCRIPT_HASH, CAPACITY, &b.signed_rounds, &round, &KEY_C).unwrap();
    let mut history = b.signed_rounds.clone();
    history.push(kabletop_godot_sdk::chain::SignedRound { round, signature: forged });
    assert_eq!(
        verify_chain(&SCRIPT_HASH, CAPACITY, &history, &pkhash(&KEY_A), &pkhash(&KEY_B)),
        Ok(false)
    );
    let before = b.clone();
    let answer = response::OpenRound { round: 2, signature: forged.to_vec() };
    assert_eq!(send::switch_round(&mut b, &answer), Err(ChannelError::SignatureInvalid));
    assert_eq!(b, before);
}

#[test]
fn switch_round_answer_must_name_the_round_and_carry_a_signature() {
    let (mut a, mut b) = opened_pair();
    commit_user_operation(&mut a, "draw".to_string()).unwrap();
    reply::sync_operation(&mut b, &request::PushOperation { round: 1, operation: "draw".to_string() }).unwrap();
    let answer = reply::switch_round(&mut b, &send::close_round_request(&a), &KEY_B).unwrap();
    assert_eq!(answer.round, 1);
    let before = a.clone();
    let other_round = response::OpenRound { round: 2, signature: answer.signature.clone() };
    assert_eq!(send::switch_round(&mut a, &other_round), Err(ChannelError::ProtocolMismatch));
    let short = response::OpenRound { round: 1, signature: answer.signature[..64].to_vec() };
    assert_eq!(send::switch_round(&mut a, &short), Err(ChannelError::SignatureDecodeError));
    let mut broken = answer.signature.clone();
    broken[64] = 9;
    let unreadable = response::OpenRound { round: 1, signature: broken };
    assert_eq!(send::switch_round(&mut a, &unreadable), Err(ChannelError::SignatureDecodeError));
    assert_eq!(a, before);
    assert_eq!(send::switch_round(&mut a, &answer).map(|s| s.to_vec()), Ok(answer.signature.clone()));
}

#[test]
fn switch_round_request_must_match_round_and_operations() {
    let (mut a, mut b) = opened_pair();
    commit_user_operation(&mut a, "draw".to_string()).unwrap();
    commit_user_operation(&mut a, "attack:3".to_string()).unwrap();
    reply::sync_operation(&mut b, &request::PushOperation { round: 1, operation: "draw".to_string() }).unwrap();
    let before = b.clone();
    let asked = send::close_round_request(&a);
    assert_eq!(asked, request::CloseRound { round: 1, operations: vec!["draw".to_string(), "attack:3".to_string()] });
    assert_eq!(reply::switch_round(&mut b, &asked, &KEY_B), Err(ChannelError::ProtocolMismatch));
    let other_round = request::CloseRound { round: 2, operations: vec!["draw".to_string()] };
    assert_eq!(reply::switch_round(&mut b, &other_round, &KEY_B), Err(ChannelError::ProtocolMismatch));
    let swapped = request::CloseRound { round: 1, operations: vec!["Draw".to_string()] };
    assert_eq!(reply::switch_round(&mut b, &swapped, &KEY_B), Err(ChannelError::ProtocolMismatch));
    assert_eq!(b, before);
    let exact = request::CloseRound { round: 1, operations: vec!["draw".to_string()] };
    assert!(reply::switch_round(&mut b, &exact, &KEY_B).is_ok());
}

#[test]
fn switch_round_is_not_answered_for_the_own_round() {
    let (mut a, _) = opened_pair();
    let before = a.clone();
    let asked = request::CloseRound { round: 1, operations: vec![] };
    assert_eq!(reply::switch_round(&mut a, &asked, &KEY_A), Err(ChannelError::InvalidState));
    assert_eq!(a, before);
}

#[test]
fn operation_for_another_round_is_refused() {
    let (_, mut b) = opened_pair();
    let before = b.clone();
    let asked = request::PushOperation { round: 2, operation: "draw".to_string() };
    assert_eq!(reply::sync_operation(&mut b, &asked), Err(ChannelError::ProtocolMismatch));
    assert_eq!(b, before);
    let asked = request::PushOperation { round: 1, operation: "draw".to_string() };
    assert_eq!(reply::sync_operation(&mut b, &asked), Ok(response::ApplyOperation { result: true }));
    assert_eq!(b.round_operations, vec!["draw".to_string()]);
}

#[test]
fn refused_operation_is_not_committed() {
    let (mut a, mut b) = opened_pair();
    let before = a.clone();
    let refused = response::ApplyOperation { result: false };
    assert_eq!(send::sync_operation(&mut a, "draw".to_string(), &refused), Err(ChannelError::ProtocolMismatch));
    assert_eq!(a, before);
    let before = b.clone();
    let taken = response::ApplyOperation { result: true };
    assert_eq!(send::sync_operation(&mut b, "draw".to_string(), &taken), Err(ChannelError::InvalidState));
    assert_eq!(b, before);
}

#[test]
fn game_over_needs_a_winner_on_the_side_that_is_asked() {
    let (mut a, mut b) = opened_pair();
    commit_user_operation(&mut a, "finish".to_string()).unwrap();
    reply::sync_operation(&mut b, &request::PushOperation { round: 1, operation: "finish".to_string() }).unwrap();
    set_winner(&mut a, 1);
    let asked = send::close_game_request(&a);
    assert_eq!(asked, request::CloseGame { round: 1, operations: vec!["finish".to_string()] });
    let before = b.clone();
    assert_eq!(reply::notify_game_over(&mut b, &asked, &KEY_B), Err(ChannelError::InvalidState));
    assert_eq!(b, before);
    assert_eq!(reply::WINNER_WAITS, 5);
    set_winner(&mut b, 1);
    let answer = reply::notify_game_over(&mut b, &asked, &KEY_B).unwrap();
    assert!(answer.result);
    let signature = send::notify_game_over(&mut a, &answer).unwrap();
    assert_eq!(signature.to_vec(), answer.signature);
    assert_eq!(a.signed_rounds, b.signed_rounds);
    assert_eq!(a.signed_rounds.len(), 1);
    assert_eq!((a.round, a.round_owner), (2, 2));
}

#[test]
fn game_over_request_must_match_and_answer_must_agree() {
    let (mut a, mut b) = opened_pair();
    set_winner(&mut b, 2);
    let before = b.clone();
    let asked = request::CloseGame { round: 1, operations: vec!["x".to_string()] };
    assert_eq!(reply::notify_game_over(&mut b, &asked, &KEY_B), Err(ChannelError::ProtocolMismatch));
    let asked = request::CloseGame { round: 3, operations: vec![] };
    assert_eq!(reply::notify_game_over(&mut b, &asked, &KEY_B), Err(ChannelError::ProtocolMismatch));
    assert_eq!(b, before);
    let before = a.clone();
    let disagreed = response::CloseGame { result: false, signature: vec![0; 65] };
    assert_eq!(send::notify_game_over(&mut a, &disagreed), Err(ChannelError::ProtocolMismatch));
    let short = response::CloseGame { result: true, signature: vec![0; 3] };
    assert_eq!(send::notify_game_over(&mut a, &short), Err(ChannelError::SignatureDecodeError));
    assert_eq!(a, before);
}

#[test]
fn closing_needs_a_winner_and_carries_the_whole_history() {
    let (mut a, mut b) = opened_pair();
    play_round(&mut a, &mut b, &KEY_B, &["draw"]);
    play_round(&mut b, &mut a, &KEY_A, &["defend"]);
    assert_eq!(send::prepare_close(&a), Err(ChannelError::InvalidState));
    set_winner(&mut a, 2);
    let plan = send::prepare_close(&a).unwrap();
    assert_eq!(plan.winner, 2);
    assert_eq!(plan.channel_hash, TX_HASH);
    assert_eq!(plan.script_args, vec![9, 8, 7]);
    assert_eq!(plan.signed_rounds.len(), 2);
    for (pair, signed) in plan.signed_rounds.iter().zip(a.signed_rounds.iter()) {
        assert_eq!(pair.0, signed.round.encode());
        assert_eq!(pair.1, signed.signature.to_vec());
    }
}

#[test]
fn close_is_answered_for_the_own_channel_only() {
    let (a, b) = opened_pair();
    let asked = send::close_channel_request(&a, [0x77; 32]);
    assert_eq!(asked, request::CloseChannel { tx_hash: [0x77; 32], channel_hash: TX_HASH });
    assert_eq!(reply::close_kabletop_channel(&b, &asked, true), Ok(response::CloseChannel { result: true }));
    assert_eq!(reply::close_kabletop_channel(&b, &asked, false), Ok(response::CloseChannel { result: false }));
    let other = request::CloseChannel { tx_hash: [0x77; 32], channel_hash: [0; 32] };
    assert_eq!(reply::close_kabletop_channel(&b, &other, true), Err(ChannelError::ProtocolMismatch));
    assert_eq!(send::close_kabletop_channel([0x77; 32], &response::CloseChannel { result: true }), Ok([0x77; 32]));
    assert_eq!(
        send::close_kabletop_channel([0x77; 32], &response::CloseChannel { result: false }),
        Err(ChannelError::ChainTimeout)
    );
}

#[test]
fn stakes_are_agreed_where_both_sides_hold_the_same() {
    let (a, mut b) = opened_pair();
    let asked = send::propose_request(&a);
    assert_eq!(asked, request::ProposeGameParameter { staking_ckb: 30_000_000_000, bet_ckb: 10_000_000_000 });
    let answer = reply::propose_channel_parameter(&b, &asked);
    assert!(answer.result);
    assert_eq!(send::propose_channel_parameter(&answer), Ok(()));
    b.bet_ckb += 1;
    let answer = reply::propose_channel_parameter(&b, &asked);
    assert!(!answer.result);
    assert_eq!(send::propose_channel_parameter(&answer), Err(ChannelError::ProtocolMismatch));
}

#[test]
fn round_status_report_of_the_game_fits_after_a_switch() {
    let (mut a, mut b) = opened_pair();
    play_round(&mut a, &mut b, &KEY_B, &["draw"]);
    assert_eq!(set_round_status(&mut a, 2, 2), Ok(()));
    assert_eq!(set_round_status(&mut a, 3, 2), Err(ChannelError::InvalidState));
}
