//! What a party answers the relay.

use vstd::prelude::*;
use vstd::bytes::{spec_u32_to_le_bytes, u32_to_le_bytes};
use crate::p2p::protocol_relay::types::request;
use crate::p2p::protocol_relay::types::response;

verus! {

/// Answers the relay's notice that another party wants to connect: the
/// connection is taken.
pub fn propose_connection(asked: &request::ProposeConnection) -> (answer: response::ProposeConnection)
    ensures
        answer.result,
{
    response::ProposeConnection { result: true }
}

/// Answers the relay's notice that the partner is gone, and gives out what
/// the listeners are told: the partner's id in four little-endian bytes.
pub fn partner_disconnect(asked: &request::PartnerDisconnect) -> (answer: (response::PartnerDisconnect, Vec<u8>))
    ensures
        answer.1@ == spec_u32_to_le_bytes(asked.client_id as u32),
{
    (response::PartnerDisconnect {  }, u32_to_le_bytes(asked.client_id as u32))
}

} // verus!
