use kabletop_godot_sdk::error::ChannelError;
use kabletop_godot_sdk::p2p::protocol_relay::methods::send;
use kabletop_godot_sdk::p2p::protocol_relay::types::{request, response, ClientInfo};

fn info() -> ClientInfo {
    send::client_info("alice".to_string(), 500, 100)
}

#[test]
fn listing_carries_name_and_stakes() {
    assert_eq!(info(), ClientInfo { id: 0, nickname: "alice".to_string(), staking_ckb: 500, bet_ckb: 100 });
    assert_eq!(
        send::register_request(info()),
        request::RegisterClient { nickname: "alice".to_string(), staking_ckb: 500, bet_ckb: 100 }
    );
    assert_eq!(send::connect_request(7, info()), request::ConnectClient { client_id: 7, requester: info() });
}

#[test]
fn refusal_of_the_relay_is_an_error() {
    assert_eq!(send::register_client(&response::RegisterClient { result: true }), Ok(()));
    assert_eq!(
        send::register_client(&response::RegisterClient { result: false }),
        Err(ChannelError::TransportError)
    );
    assert_eq!(send::unregister_client(&response::UnregisterClient { result: true }), Ok(()));
    assert_eq!(
        send::unregister_client(&response::UnregisterClient { result: false }),
        Err(ChannelError::TransportError)
    );
    assert_eq!(send::connect_client(&response::ConnectClient { result: true }), Ok(()));
    assert_eq!(
        send::connect_client(&response::ConnectClient { result: false }),
        Err(ChannelError::TransportError)
    );
    assert_eq!(send::disconnect_client(&response::DisconnectClient {}), Ok(()));
}

#[test]
fn waiting_parties_come_as_the_relay_lists_them() {
    let mut second = info();
    second.id = 2;
    let clients = vec![info(), second];
    assert_eq!(send::fetch_clients(response::FetchClients { clients: clients.clone() }), clients);
}
