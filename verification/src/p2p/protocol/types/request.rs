//! What a party asks of the other.

use vstd::prelude::*;
use crate::p2p::protocol::types::ChannelTransaction;

verus! {

/// The owner of the round asks to close it with the operations it has made.
#[derive(Clone, Debug, PartialEq, Eq)]
pub struct CloseRound {
    pub round: u8,
    pub operations: Vec<String>,
}

/// The owner of the round says that the game has come to its end.
#[derive(Clone, Debug, PartialEq, Eq)]
pub struct CloseGame {
    pub round: u8,
    pub operations: Vec<String>,
}

/// The owner of the round passes on one operation of it.
#[derive(Clone, Debug, PartialEq, Eq)]
pub struct PushOperation {
    pub round: u8,
    pub operation: String,
}

/// A party proposes the stake and the bet of the game.
#[derive(Clone, Copy, Debug, PartialEq, Eq)]
pub struct ProposeGameParameter {
    pub staking_ckb: u64,
    pub bet_ckb: u64,
}

/// The party that opens a channel hands on the transaction with its own
/// half filled in.
#[derive(Clone, Debug, PartialEq, Eq)]
pub struct PrepareChannel {
    pub tx: ChannelTransaction,
}

/// The party that opens a channel hands on the transaction that it has
/// signed and submitted.
#[derive(Clone, Debug, PartialEq, Eq)]
pub struct SignAndSubmitChannel {
    pub tx: ChannelTransaction,
}

/// The winner asks to close the channel whose opening transaction has the
/// hash `channel_hash`, with the closing transaction of hash `tx_hash`.
#[derive(Clone, Copy, Debug, PartialEq, Eq)]
pub struct CloseChannel {
    pub tx_hash: [u8; 32],
    pub channel_hash: [u8; 32],
}

} // verus!
