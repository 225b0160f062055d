//! What a party answers the other.

use vstd::prelude::*;
use crate::p2p::protocol::types::ChannelTransaction;

verus! {

/// Whether the stake and the bet are agreed.
#[derive(Clone, Copy, Debug, PartialEq, Eq)]
pub struct ApproveGameParameter {
    pub result: bool,
}

/// The other party hands back the transaction with both halves filled in and
/// its own signature.
#[derive(Clone, Debug, PartialEq, Eq)]
pub struct CompleteAndSignChannel {
    pub tx: ChannelTransaction,
}

/// Whether the opening transaction was found committed.
#[derive(Clone, Copy, Debug, PartialEq, Eq)]
pub struct OpenChannel {
    pub result: bool,
}

/// Whether the closing transaction was found committed.
#[derive(Clone, Copy, Debug, PartialEq, Eq)]
pub struct CloseChannel {
    pub result: bool,
}

/// The round is closed: its number, and the signature of the party that
/// answers.
#[derive(Clone, Debug, PartialEq, Eq)]
pub struct OpenRound {
    pub round: u8,
    pub signature: Vec<u8>,
}

/// Whether the end of the game is agreed, and the signature of the last
/// round.
#[derive(Clone, Debug, PartialEq, Eq)]
pub struct CloseGame {
    pub result: bool,
    pub signature: Vec<u8>,
}

/// Whether the operation was taken.
#[derive(Clone, Copy, Debug, PartialEq, Eq)]
pub struct ApplyOperation {
    pub result: bool,
}

} // verus!
