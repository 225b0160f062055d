use kabletop_godot_sdk::cache::channel::ChannelCache;
use kabletop_godot_sdk::p2p::protocol::methods::reply::hook::{add, trigger_hook, HookRegistry};
use kabletop_godot_sdk::p2p::protocol_relay::methods::reply::{partner_disconnect, propose_connection};
use kabletop_godot_sdk::p2p::protocol_relay::types::{request, response};

#[test]
fn listeners_are_told_in_the_order_in_which_they_subscribed() {
    let mut registry = HookRegistry::new();
    assert!(trigger_hook(&registry, "switch_round").is_empty());
    assert_eq!(add(&mut registry, "switch_round"), 0);
    assert_eq!(add(&mut registry, "sync_operation"), 1);
    assert_eq!(add(&mut registry, "switch_round"), 2);
    assert_eq!(add(&mut registry, "switch_round"), 3);
    assert_eq!(trigger_hook(&registry, "switch_round"), vec![0, 2, 3]);
    assert_eq!(trigger_hook(&registry, "sync_operation"), vec![1]);
    assert!(trigger_hook(&registry, "game_over").is_empty());
    assert!(trigger_hook(&registry, "Switch_round").is_empty());
    assert_eq!(registry.hooks.len(), 4);
}

#[test]
fn relay_notices_are_answered() {
    assert_eq!(propose_connection(&request::ProposeConnection {}), response::ProposeConnection { result: true });
    let (answer, told) = partner_disconnect(&request::PartnerDisconnect { client_id: 0x01020304 });
    assert_eq!(answer, response::PartnerDisconnect {});
    assert_eq!(told, vec![4, 3, 2, 1]);
    assert_eq!(partner_disconnect(&request::PartnerDisconnect { client_id: -2 }).1, vec![0xfe, 0xff, 0xff, 0xff]);
}

#[test]
fn default_record_is_the_blank_record_of_an_unknown_party() {
    assert_eq!(ChannelCache::default(), ChannelCache::new([0; 20]));
}
