//! What a party asks of the relay, and the relay of a party.

use vstd::prelude::*;
use crate::p2p::protocol_relay::types::ClientInfo;

verus! {

/// A party asks to be listed as waiting.
#[derive(Clone, Debug, PartialEq, Eq)]
pub struct RegisterClient {
    pub nickname: String,
    pub staking_ckb: u64,
    pub bet_ckb: u64,
}

/// A party asks to be taken off the list.
#[derive(Clone, Copy, Debug, PartialEq, Eq)]
pub struct UnregisterClient {}

/// A party asks for the list of those that wait.
#[derive(Clone, Copy, Debug, PartialEq, Eq)]
pub struct FetchClients {}

/// A party asks to be connected to one that waits.
#[derive(Clone, Debug, PartialEq, Eq)]
pub struct ConnectClient {
    pub client_id: i32,
    pub requester: ClientInfo,
}

/// A party asks to be disconnected from its partner.
#[derive(Clone, Copy, Debug, PartialEq, Eq)]
pub struct DisconnectClient {}

/// The relay tells a waiting party that another wants to connect.
#[derive(Clone, Copy, Debug, PartialEq, Eq)]
pub struct ProposeConnection {}

/// The relay tells a party that its partner is gone.
#[derive(Clone, Copy, Debug, PartialEq, Eq)]
pub struct PartnerDisconnect {
    pub client_id: i32,
}

} // verus!
