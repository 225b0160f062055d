//! The messages of the protocol between a party and the relay.

use vstd::prelude::*;

pub mod request;
pub mod response;

verus! {

/// A party that waits at the relay for a partner.
#[derive(Clone, Debug, PartialEq, Eq, Hash, Default)]
pub struct ClientInfo {
    pub id: i32,
    pub nickname: String,
    pub staking_ckb: u64,
    pub bet_ckb: u64,
}

} // verus!
