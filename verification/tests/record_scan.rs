use kabletop_godot_sdk::cache::channel::{
    commit_opponent_operation, commit_user_operation, countersign_round, init, set_channel_verification,
    set_opponent_pkhash, set_round_status, set_staking_and_bet_ckb, Args, ChannelCache, PLAYER_TYPE,
};
use kabletop_godot_sdk::challenge::Challenge;
use kabletop_godot_sdk::chain::sign_round;
use kabletop_godot_sdk::crypto::privkey_to_pkhash;
use kabletop_godot_sdk::helper::{
    from_dictionary, into_dictionary, merge_challenge_data, scan_uncomplete_kabletop_cache, CacheSummary,
    ScanVerdict,
};
use kabletop_godot_sdk::round::make_round;

const KEY_A: [u8; 32] = [0x11; 32];
const KEY_B: [u8; 32] = [0x22; 32];
const KEY_C: [u8; 32] = [0x33; 32];
const SCRIPT_HASH: [u8; 32] = [0xab; 32];
const CAPACITY: u64 = 80_000_000_000;

fn pkhash(key: &[u8; 32]) -> [u8; 20] {
    privkey_to_pkhash(key).expect("a private key")
}

fn hex(bytes: &[u8]) -> String {
    bytes.iter().map(|byte| format!("{:02x}", byte)).collect()
}

fn args(begin_blocknumber: u64) -> Args {
    Args {
        begin_blocknumber,
        user1_pkhash: pkhash(&KEY_A),
        user1_nfts: vec![[0x01; 20]],
        user2_pkhash: pkhash(&KEY_B),
        user2_nfts: vec![[0x02; 20], [0x03; 20]],
    }
}

/// The record of A (type 1) with `closed` closed rounds, A and B in turn.
fn record(closed: usize) -> ChannelCache {
    let mut channel = ChannelCache::new(pkhash(&KEY_A));
    init(&mut channel, PLAYER_TYPE::ONE);
    set_staking_and_bet_ckb(&mut channel, 500, 100).unwrap();
    set_opponent_pkhash(&mut channel, pkhash(&KEY_B));
    set_channel_verification(&mut channel, [0xcd; 32], SCRIPT_HASH, vec![1], CAPACITY).unwrap();
    set_round_status(&mut channel, 1, 1).unwrap();
    for _ in 0..closed {
        if channel.round_owner == 1 {
            let round = make_round(1, vec![]);
            let signature =
                sign_round(&SCRIPT_HASH, CAPACITY, &channel.signed_rounds, &round, &KEY_B).unwrap();
            kabletop_godot_sdk::cache::channel::commit_user_round(&mut channel, signature).unwrap();
        } else {
            countersign_round(&mut channel, &KEY_A).unwrap();
        }
    }
    channel
}

fn summary_of(channel: &ChannelCache, begin: u64, tip: u64) -> CacheSummary {
    scan_uncomplete_kabletop_cache(&hex(&SCRIPT_HASH), channel, &args(begin), &pkhash(&KEY_A), tip).unwrap()
}

#[test]
fn summary_names_the_channel_and_its_parties() {
    let channel = record(0);
    let summary = summary_of(&channel, 1000, 1000);
    assert_eq!(
        summary,
        CacheSummary {
            script_hash: "ab".repeat(32),
            user_type: 1,
            user1_pkhash: hex(&pkhash(&KEY_A)),
            user2_pkhash: hex(&pkhash(&KEY_B)),
            user1_nfts: vec!["01".repeat(20)],
            user2_nfts: vec!["02".repeat(20), "03".repeat(20)],
            staking_ckb: 500,
            bet_ckb: 100,
            round_count: 0,
            block_countdown: 25,
            challenger: 0,
            operations: vec![],
        }
    );
    let as_b = scan_uncomplete_kabletop_cache(&"AB".repeat(32), &channel, &args(1000), &pkhash(&KEY_B), 1000);
    assert_eq!(as_b.unwrap().user_type, 2);
}

#[test]
fn record_under_another_name_or_of_another_party_is_passed_over() {
    let channel = record(0);
    let owner = pkhash(&KEY_A);
    assert_eq!(scan_uncomplete_kabletop_cache(&"ac".repeat(32), &channel, &args(0), &owner, 0), None);
    assert_eq!(scan_uncomplete_kabletop_cache(&"ab".repeat(31), &channel, &args(0), &owner, 0), None);
    assert_eq!(scan_uncomplete_kabletop_cache("channel", &channel, &args(0), &owner, 0), None);
    assert_eq!(scan_uncomplete_kabletop_cache("", &channel, &args(0), &owner, 0), None);
    assert_eq!(scan_uncomplete_kabletop_cache(&"ab".repeat(32), &channel, &args(0), &pkhash(&KEY_C), 0), None);
}

#[test]
fn rounds_count_the_round_that_is_pending() {
    let mut channel = record(2);
    assert_eq!(summary_of(&channel, 0, 0).round_count, 2);
    commit_user_operation(&mut channel, "draw".to_string()).unwrap();
    assert_eq!(summary_of(&channel, 0, 0).round_count, 3);
}

#[test]
fn countdown_is_the_square_of_the_rounds_between_five_and_thirty() {
    let begin = 1000;
    assert_eq!(summary_of(&record(0), begin, 990).block_countdown, 35);
    assert_eq!(summary_of(&record(4), begin, 1000).block_countdown, 25);
    assert_eq!(summary_of(&record(5), begin, 1000).block_countdown, 25);
    assert_eq!(summary_of(&record(7), begin, 1000).block_countdown, 49);
    assert_eq!(summary_of(&record(7), begin, 1048).block_countdown, 1);
    assert_eq!(summary_of(&record(7), begin, 1049).block_countdown, 0);
    assert_eq!(summary_of(&record(7), begin, 5000).block_countdown, 0);
    let mut pending = record(7);
    commit_opponent_operation(&mut pending, "x".to_string());
    assert_eq!(summary_of(&pending, begin, 1000).block_countdown, 64);
    let mut few = record(3);
    commit_opponent_operation(&mut few, "x".to_string());
    assert_eq!(summary_of(&few, begin, 1000).block_countdown, 25);
    assert_eq!(summary_of(&record(30), begin, 1000).block_countdown, 900);
    let mut thirty = record(30);
    commit_opponent_operation(&mut thirty, "x".to_string());
    assert_eq!(summary_of(&thirty, begin, 1000).block_countdown, 961);
    assert_eq!(summary_of(&record(31), begin, 1000).block_countdown, 900);
}

#[test]
fn countdown_does_not_overflow() {
    assert_eq!(summary_of(&record(0), u64::MAX - 3, 0).block_countdown, u64::MAX);
    assert_eq!(summary_of(&record(0), u64::MAX - 3, u64::MAX - 1).block_countdown, 1);
    assert_eq!(summary_of(&record(0), u64::MAX - 30, u64::MAX - 10).block_countdown, 5);
}

#[test]
fn stakes_are_told_in_whole_ckb() {
    let mut channel = record(0);
    channel.staking_ckb = 199_999_999;
    channel.bet_ckb = 99_999_999;
    let summary = summary_of(&channel, 0, 0);
    assert_eq!((summary.staking_ckb, summary.bet_ckb), (1, 0));
}

#[test]
fn record_of_a_channel_without_a_cell_is_removed() {
    let summary = summary_of(&record(1), 0, 0);
    assert_eq!(merge_challenge_data(summary.clone(), false, None), ScanVerdict::Remove);
    let challenge = Challenge { challenger: 2, operations: vec![], snapshot_signature: [0; 65] };
    assert_eq!(merge_challenge_data(summary, false, Some(&challenge)), ScanVerdict::Remove);
}

#[test]
fn challenge_of_the_other_party_adds_a_round() {
    let summary = summary_of(&record(1), 0, 0);
    let challenge = Challenge {
        challenger: 2,
        operations: vec![b"defend".to_vec(), b"heal".to_vec()],
        snapshot_signature: [0; 65],
    };
    let mut expected = summary.clone();
    expected.round_count = 2;
    expected.challenger = 2;
    expected.operations = vec!["defend".to_string(), "heal".to_string()];
    assert_eq!(merge_challenge_data(summary.clone(), true, Some(&challenge)), ScanVerdict::Keep(expected));

    let own = Challenge { challenger: 1, operations: vec![b"draw".to_vec()], snapshot_signature: [0; 65] };
    let mut expected = summary.clone();
    expected.challenger = 1;
    expected.operations = vec!["draw".to_string()];
    assert_eq!(merge_challenge_data(summary.clone(), true, Some(&own)), ScanVerdict::Keep(expected));

    let mut expected = summary.clone();
    expected.round_count = 2;
    assert_eq!(merge_challenge_data(summary, true, None), ScanVerdict::Keep(expected));
}

#[test]
fn challenge_with_operations_that_are_no_text_is_passed_over() {
    let summary = summary_of(&record(1), 0, 0);
    let challenge = Challenge { challenger: 2, operations: vec![vec![0xc0]], snapshot_signature: [0; 65] };
    assert_eq!(merge_challenge_data(summary, true, Some(&challenge)), ScanVerdict::Skip);
}

#[test]
fn round_count_saturates() {
    let mut summary = summary_of(&record(1), 0, 0);
    summary.round_count = u64::MAX;
    match merge_challenge_data(summary, true, None) {
        ScanVerdict::Keep(kept) => assert_eq!(kept.round_count, u64::MAX),
        other => panic!("{:?}", other),
    }
}

fn list(texts: &[&str]) -> Vec<String> {
    texts.iter().map(|text| text.to_string()).collect()
}

#[test]
fn assets_are_counted_by_runs() {
    assert_eq!(into_dictionary(&vec![]), vec![]);
    assert_eq!(into_dictionary(&list(&["a"])), vec![("a".to_string(), 1)]);
    assert_eq!(
        into_dictionary(&list(&["a", "a", "b", "c", "c", "c"])),
        vec![("a".to_string(), 2), ("b".to_string(), 1), ("c".to_string(), 3)]
    );
    assert_eq!(
        into_dictionary(&list(&["a", "b", "a", "a"])),
        vec![("a".to_string(), 1), ("b".to_string(), 1), ("a".to_string(), 2)]
    );
}

#[test]
fn counted_assets_are_written_out() {
    assert_eq!(from_dictionary(&vec![]), list(&[]));
    assert_eq!(
        from_dictionary(&vec![("a".to_string(), 2), ("b".to_string(), 0), ("c".to_string(), 1)]),
        list(&["a", "a", "c"])
    );
}

#[test]
fn writing_out_the_runs_gives_the_list() {
    for texts in [&["a", "a", "b", "a", "c", "c"][..], &["x"][..], &[][..], &["q", "q", "q", "q"][..]] {
        assert_eq!(from_dictionary(&into_dictionary(&list(texts))), list(texts));
    }
}
