//! What a party asks of the relay, and what it makes of the answer.

use vstd::prelude::*;
use crate::error::ChannelError;
use crate::p2p::protocol_relay::types::request;
use crate::p2p::protocol_relay::types::response;
use crate::p2p::protocol_relay::types::ClientInfo;

verus! {

/// The listing that a party asks for: its name and its stakes. The relay
/// gives it its id.
pub fn client_info(nickname: String, staking_ckb: u64, bet_ckb: u64) -> (info: ClientInfo)
    ensures
        info.id == 0,
        info.nickname@ == nickname@,
        info.staking_ckb == staking_ckb,
        info.bet_ckb == bet_ckb,
{
    ClientInfo { id: 0, nickname, staking_ckb, bet_ckb }
}

/// The request that lists a party.
pub fn register_request(client_info: ClientInfo) -> (asked: request::RegisterClient)
    ensures
        asked.nickname@ == client_info.nickname@,
        asked.staking_ckb == client_info.staking_ckb,
        asked.bet_ckb == client_info.bet_ckb,
{
    request::RegisterClient {
        nickname: client_info.nickname,
        staking_ckb: client_info.staking_ckb,
        bet_ckb: client_info.bet_ckb,
    }
}

/// The party is listed exactly where the relay says so; a refusal is
/// `TransportError`.
pub fn register_client(answer: &response::RegisterClient) -> (done: Result<(), ChannelError>)
    ensures
        done.is_ok() == answer.result,
        done.is_err() ==> done == Err::<(), ChannelError>(ChannelError::TransportError),
{
    if answer.result {
        Ok(())
    } else {
        Err(ChannelError::TransportError)
    }
}

/// The party is off the list exactly where the relay says so; a refusal is
/// `TransportError`.
pub fn unregister_client(answer: &response::UnregisterClient) -> (done: Result<(), ChannelError>)
    ensures
        done.is_ok() == answer.result,
        done.is_err() ==> done == Err::<(), ChannelError>(ChannelError::TransportError),
{
    if answer.result {
        Ok(())
    } else {
        Err(ChannelError::TransportError)
    }
}

/// Those that wait, as the relay lists them.
pub fn fetch_clients(answer: response::FetchClients) -> (clients: Vec<ClientInfo>)
    ensures
        clients == answer.clients,
{
    answer.clients
}

/// The request that connects a party to the waiting party `partial_id`.
pub fn connect_request(partial_id: i32, client_info: ClientInfo) -> (asked: request::ConnectClient)
    ensures
        asked.client_id == partial_id,
        asked.requester == client_info,
{
    request::ConnectClient { client_id: partial_id, requester: client_info }
}

/// The two parties are connected exactly where the relay says so; a refusal
/// is `TransportError`.
pub fn connect_client(answer: &response::ConnectClient) -> (done: Result<(), ChannelError>)
    ensures
        done.is_ok() == answer.result,
        done.is_err() ==> done == Err::<(), ChannelError>(ChannelError::TransportError),
{
    if answer.result {
        Ok(())
    } else {
        Err(ChannelError::TransportError)
    }
}

/// Once the relay has answered, the party is disconnected.
pub fn disconnect_client(answer: &response::DisconnectClient) -> (done: Result<(), ChannelError>)
    ensures
        done.is_ok(),
{
    Ok(())
}

} // verus!
