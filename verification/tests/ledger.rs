use kabletop_godot_sdk::cache::channel::{init, set_winner, ChannelCache, PLAYER_TYPE};
use kabletop_godot_sdk::ckb::{
    challenge_winner, check_transaction_committed_or_not, owned_nfts, push_transaction, wallet_status,
    ConfirmationPoll, PollAction, CONFIRMATION_DELAY_SECS, CONFIRMATION_POLLS,
};
use kabletop_godot_sdk::error::ChannelError;

#[test]
fn transaction_is_waited_for_twenty_times_five_seconds() {
    assert_eq!(CONFIRMATION_POLLS, 20);
    assert_eq!(CONFIRMATION_DELAY_SECS, 5);
    let mut poll = ConfirmationPoll::new();
    assert_eq!(poll.polls_left, 20);
    for _ in 0..19 {
        assert_eq!(check_transaction_committed_or_not(&mut poll, false), PollAction::Wait);
    }
    assert_eq!(check_transaction_committed_or_not(&mut poll, false), PollAction::TimedOut);
    assert_eq!(poll.polls_left, 0);
    assert_eq!(check_transaction_committed_or_not(&mut poll, false), PollAction::TimedOut);
    assert_eq!(poll.polls_left, 0);
}

#[test]
fn committed_transaction_ends_the_wait_at_once() {
    let mut poll = ConfirmationPoll::new();
    assert_eq!(check_transaction_committed_or_not(&mut poll, true), PollAction::Committed);
    assert_eq!(poll.polls_left, 20);
    for _ in 0..19 {
        check_transaction_committed_or_not(&mut poll, false);
    }
    assert_eq!(check_transaction_committed_or_not(&mut poll, true), PollAction::Committed);
    assert_eq!(poll.polls_left, 1);
}

#[test]
fn timeout_is_its_own_error() {
    assert_eq!(push_transaction([5; 32], PollAction::Committed), Ok([5; 32]));
    assert_eq!(push_transaction([5; 32], PollAction::TimedOut), Err(ChannelError::ChainTimeout));
    assert_eq!(push_transaction([5; 32], PollAction::Wait), Err(ChannelError::ChainTimeout));
}

#[test]
fn wallet_status_comes_from_the_first_cell() {
    assert_eq!(wallet_status(&vec![]), (0, false));
    assert_eq!(wallet_status(&vec![vec![]]), (0, true));
    assert_eq!(wallet_status(&vec![vec![3, 9]]), (3, true));
    assert_eq!(wallet_status(&vec![vec![0], vec![7]]), (0, true));
}

#[test]
fn owned_assets_are_named_in_hexadecimal() {
    let owned = owned_nfts(&vec![([0x0f; 20], 2), ([0xa1; 20], 1)]);
    assert_eq!(owned, vec![("0f".repeat(20), 2), ("a1".repeat(20), 1)]);
    assert!(owned_nfts(&vec![]).is_empty());
}

#[test]
fn dispute_is_closed_for_the_local_party_where_nobody_has_won() {
    let mut channel = ChannelCache::new([0; 20]);
    init(&mut channel, PLAYER_TYPE::TWO);
    assert_eq!(challenge_winner(&channel), 2);
    set_winner(&mut channel, 1);
    assert_eq!(challenge_winner(&channel), 1);
}
