//! The messages of the protocol between the two parties.

pub mod request;
pub mod response;

use vstd::prelude::*;
use crate::cache::channel::Args;

verus! {

/// What a party reads of the transaction that opens a channel: its hash,
/// and of the channel's cell the hash of the lock script, its arguments as
/// bytes and as what they say, and the capacity.
#[derive(Clone, Debug, PartialEq, Eq)]
pub struct ChannelTransaction {
    pub hash: [u8; 32],
    pub lock_hash: [u8; 32],
    pub lock_args: Vec<u8>,
    pub capacity: u64,
    pub args: Args,
}

} // verus!
