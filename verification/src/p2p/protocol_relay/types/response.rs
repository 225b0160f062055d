//! What the relay answers a party, and a party the relay.

use vstd::prelude::*;
use crate::p2p::protocol_relay::types::ClientInfo;

verus! {

/// Whether the party is listed now.
#[derive(Clone, Copy, Debug, PartialEq, Eq)]
pub struct RegisterClient {
    pub result: bool,
}

/// Whether the party is off the list now.
#[derive(Clone, Copy, Debug, PartialEq, Eq)]
pub struct UnregisterClient {
    pub result: bool,
}

/// Those that wait.
#[derive(Clone, Debug, PartialEq, Eq)]
pub struct FetchClients {
    pub clients: Vec<ClientInfo>,
}

/// Whether the two parties are connected now.
#[derive(Clone, Copy, Debug, PartialEq, Eq)]
pub struct ConnectClient {
    pub result: bool,
}

/// The party is disconnected.
#[derive(Clone, Copy, Debug, PartialEq, Eq)]
pub struct DisconnectClient {}

/// Whether the waiting party takes the connection.
#[derive(Clone, Copy, Debug, PartialEq, Eq)]
pub struct ProposeConnection {
    pub result: bool,
}

/// The party has heard that its partner is gone.
#[derive(Clone, Copy, Debug, PartialEq, Eq)]
pub struct PartnerDisconnect {}

} // verus!
