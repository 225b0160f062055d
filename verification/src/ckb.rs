//! What is decided about the ledger: how long a transaction is waited for,
//! and what the cells that were found say.

use vstd::prelude::*;
use crate::bytes::copy_range;
use crate::cache::channel::ChannelCache;
use crate::error::ChannelError;
use crate::hexstr::{hex_encode, hex_text};
use crate::p2p::protocol::methods::send::{encode_signed_rounds, encoded_rounds, pairs_view, ClosePlan};

verus! {

/// How often a submitted transaction is looked for before it is given up.
pub const CONFIRMATION_POLLS: u8 = 20;

/// The seconds between two looks for a submitted transaction.
pub const CONFIRMATION_DELAY_SECS: u64 = 5;

/// What to do after a look for a submitted transaction.
#[derive(Clone, Copy, Debug, PartialEq, Eq, Structural)]
pub enum PollAction {
    /// The transaction is committed.
    Committed,
    /// Wait `CONFIRMATION_DELAY_SECS` and look again.
    Wait,
    /// The bound is reached. The transaction is not known to have failed:
    /// it may still be committed later.
    TimedOut,
}

/// The wait for one submitted transaction: the looks that are left.
#[derive(Clone, Copy, Debug, PartialEq, Eq, Structural)]
pub struct ConfirmationPoll {
    pub polls_left: u8,
}

/// What follows a look with `polls_left` looks left, this one included.
pub open spec fn poll_action(polls_left: u8, committed: bool) -> PollAction {
    if committed {
        PollAction::Committed
    } else if polls_left > 1 {
        PollAction::Wait
    } else {
        PollAction::TimedOut
    }
}

/// The looks that are left after `failures` looks in a row that did not
/// find the transaction.
pub open spec fn polls_left_after(failures: nat) -> u8 {
    if failures <= CONFIRMATION_POLLS {
        (CONFIRMATION_POLLS - failures) as u8
    } else {
        0
    }
}

/// The wait is bounded, and the bound is exact: the first 19 looks that do
/// not find the transaction are each followed by a wait, and the 20th by
/// the timeout.
pub proof fn lemma_poll_bound(failures: nat)
    requires
        failures < CONFIRMATION_POLLS,
    ensures
        poll_action(polls_left_after(failures), false) == if failures + 1 < CONFIRMATION_POLLS {
            PollAction::Wait
        } else {
            PollAction::TimedOut
        },
        polls_left_after(failures + 1) == polls_left_after(failures) - 1,
{
}

impl ConfirmationPoll {
    /// The wait for a transaction that has just been submitted.
    pub fn new() -> (poll: ConfirmationPoll)
        ensures
            poll.polls_left == polls_left_after(0),
    {
        ConfirmationPoll { polls_left: CONFIRMATION_POLLS }
    }
}

/// Takes the outcome of one look for the transaction, `committed`, and says
/// what follows. A look that did not find it uses up one of the looks that
/// are left.
pub fn check_transaction_committed_or_not(poll: &mut ConfirmationPoll, committed: bool) -> (action: PollAction)
    ensures
        action == poll_action(old(poll).polls_left, committed),
        final(poll).polls_left == if committed || old(poll).polls_left == 0 {
            old(poll).polls_left
        } else {
            (old(poll).polls_left - 1) as u8
        },
{
    if committed {
        return PollAction::Committed;
    }
    if poll.polls_left > 0 {
        poll.polls_left = poll.polls_left - 1;
    }
    if poll.polls_left > 0 {
        PollAction::Wait
    } else {
        PollAction::TimedOut
    }
}

/// What the wait for a submitted transaction comes to: its hash where it
/// was seen committed, and `ChainTimeout` where it was not.
pub fn push_transaction(hash: [u8; 32], outcome: PollAction) -> (done: Result<[u8; 32], ChannelError>)
    ensures
        done == if outcome == PollAction::Committed {
            Ok::<[u8; 32], ChannelError>(hash)
        } else {
            Err::<[u8; 32], ChannelError>(ChannelError::ChainTimeout)
        },
{
    match outcome {
        PollAction::Committed => Ok(hash),
        _ => Err(ChannelError::ChainTimeout),
    }
}

/// The state of the local party's wallet, from the data of the wallet cells
/// that were found: without a cell there is no wallet; with one, the first
/// byte of the first cell's data is the number of packages bought, none
/// where the data is empty.
pub fn wallet_status(cells: &Vec<Vec<u8>>) -> (status: (u8, bool))
    ensures
        status == if cells@.len() == 0 {
            (0u8, false)
        } else if cells@[0]@.len() == 0 {
            (0u8, true)
        } else {
            (cells@[0]@[0], true)
        },
{
    if cells.len() == 0 {
        (0, false)
    } else if cells[0].len() == 0 {
        (0, true)
    } else {
        (cells[0][0], true)
    }
}

/// The assets that the local party owns, each by its hexadecimal text, with
/// the number of copies.
pub fn owned_nfts(live: &Vec<([u8; 20], u32)>) -> (owned: Vec<(String, u32)>)
    ensures
        owned@.len() == live@.len(),
        forall|i: int|
            0 <= i < live@.len() ==> (#[trigger] owned@[i]).0@ == hex_text(live@[i].0@) && owned@[i].1
                == live@[i].1,
{
    let mut owned: Vec<(String, u32)> = Vec::new();
    let mut index: usize = 0;
    while index < live.len()
        invariant
            index <= live@.len(),
            owned@.len() == index,
            forall|i: int|
                0 <= i < index ==> (#[trigger] owned@[i]).0@ == hex_text(live@[i].0@) && owned@[i].1
                    == live@[i].1,
        decreases live@.len() - index,
    {
        owned.push((hex_encode(live[index].0.as_slice()), live[index].1));
        index += 1;
    }
    owned
}

/// The winner that a channel is closed with in a dispute: the winner of the
/// game where it has one, and the local party where it has none.
pub fn challenge_winner(channel: &ChannelCache) -> (winner: u8)
    ensures
        winner == if channel@.winner == 0 {
            channel@.user_type
        } else {
            channel@.winner
        },
{
    if channel.winner == 0 {
        channel.user_type
    } else {
        channel.winner
    }
}

/// What the transaction that publishes a challenge is built from: the
/// arguments of the channel's lock script, the challenger, the operations
/// that the challenger holds to be in flight, and every signed round as its
/// encoding and its signature.
#[derive(Clone, Debug, PartialEq, Eq)]
pub struct ChallengePlan {
    pub script_args: Vec<u8>,
    pub challenger: u8,
    pub operations: Vec<String>,
    pub signed_rounds: Vec<(Vec<u8>, Vec<u8>)>,
}

/// What the local party's challenge is built from: the local party is the
/// challenger, `operations` are those that it has run and not passed on, and
/// the history is that of the record.
pub fn challenge_kabletop_channel(channel: &ChannelCache, operations: Vec<String>) -> (plan: ChallengePlan)
    ensures
        plan.script_args@ == channel@.script_args,
        plan.challenger == channel@.user_type,
        plan.operations == operations,
        pairs_view(plan.signed_rounds@) == encoded_rounds(channel@.signed_rounds),
{
    let script_args = copy_range(channel.script_args.as_slice(), 0, channel.script_args.len());
    ChallengePlan {
        script_args,
        challenger: channel.user_type,
        operations,
        signed_rounds: encode_signed_rounds(&channel.signed_rounds),
    }
}

/// What the transaction that closes the channel in a dispute is built
/// from: the history of the record, which reconciliation has completed, and
/// the winner that `challenge_winner` names.
pub fn close_challenged_kabletop_channel(channel: &ChannelCache) -> (plan: ClosePlan)
    ensures
        plan.script_args@ == channel@.script_args,
        plan.channel_hash@ == channel@.channel_hash,
        pairs_view(plan.signed_rounds@) == encoded_rounds(channel@.signed_rounds),
        plan.winner == if channel@.winner == 0 {
            channel@.user_type
        } else {
            channel@.winner
        },
{
    let script_args = copy_range(channel.script_args.as_slice(), 0, channel.script_args.len());
    ClosePlan {
        script_args,
        channel_hash: channel.channel_hash,
        signed_rounds: encode_signed_rounds(&channel.signed_rounds),
        winner: challenge_winner(channel),
    }
}

} // verus!
