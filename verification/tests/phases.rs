use kabletop_godot_sdk::cache::channel::{init, set_round_status, ChannelCache, PLAYER_TYPE};
use kabletop_godot_sdk::error::ChannelError;
use kabletop_godot_sdk::p2p::protocol::state::{next_phase, recovered_phase, ChannelPhase, ProtocolEvent};

const PHASES: [ChannelPhase; 6] = [
    ChannelPhase::Unopened,
    ChannelPhase::Opening,
    ChannelPhase::Open,
    ChannelPhase::Disputed,
    ChannelPhase::Closing,
    ChannelPhase::Closed,
];

const EVENTS: [ProtocolEvent; 8] = [
    ProtocolEvent::OpenStarted,
    ProtocolEvent::OpenConfirmed,
    ProtocolEvent::OperationCommitted,
    ProtocolEvent::RoundAdvanced,
    ProtocolEvent::CloseStarted,
    ProtocolEvent::CounterpartySilent,
    ProtocolEvent::Reconciled,
    ProtocolEvent::CloseConfirmed,
];

#[test]
fn channel_is_opened_played_and_closed() {
    let mut phase = ChannelPhase::Unopened;
    for (event, expected) in [
        (ProtocolEvent::OpenStarted, ChannelPhase::Opening),
        (ProtocolEvent::OpenConfirmed, ChannelPhase::Open),
        (ProtocolEvent::OperationCommitted, ChannelPhase::Open),
        (ProtocolEvent::RoundAdvanced, ChannelPhase::Open),
        (ProtocolEvent::CloseStarted, ChannelPhase::Closing),
        (ProtocolEvent::CloseConfirmed, ChannelPhase::Closed),
    ] {
        phase = next_phase(phase, event).unwrap();
        assert_eq!(phase, expected);
    }
}

#[test]
fn disputed_channel_is_reconciled_and_closed() {
    let mut phase = ChannelPhase::Open;
    for (event, expected) in [
        (ProtocolEvent::CounterpartySilent, ChannelPhase::Disputed),
        (ProtocolEvent::Reconciled, ChannelPhase::Closing),
        (ProtocolEvent::CloseConfirmed, ChannelPhase::Closed),
    ] {
        phase = next_phase(phase, event).unwrap();
        assert_eq!(phase, expected);
    }
}

#[test]
fn exactly_eight_transitions_exist() {
    let mut allowed = 0;
    for phase in PHASES {
        for event in EVENTS {
            match next_phase(phase, event) {
                Ok(_) => allowed += 1,
                Err(error) => assert_eq!(error, ChannelError::InvalidState),
            }
        }
    }
    assert_eq!(allowed, 8);
}

#[test]
fn closed_channel_stays_closed() {
    for event in EVENTS {
        assert_eq!(next_phase(ChannelPhase::Closed, event), Err(ChannelError::InvalidState));
    }
}

#[test]
fn rounds_are_played_in_an_open_channel_only() {
    for phase in PHASES {
        let played = next_phase(phase, ProtocolEvent::RoundAdvanced);
        let disputed = next_phase(phase, ProtocolEvent::CounterpartySilent);
        assert_eq!(played.is_ok(), phase == ChannelPhase::Open);
        assert_eq!(disputed.is_ok(), phase == ChannelPhase::Open);
    }
}

#[test]
fn recovered_record_is_open_once_a_round_was_played() {
    let mut channel = ChannelCache::new([0; 20]);
    assert_eq!(recovered_phase(&channel), ChannelPhase::Unopened);
    init(&mut channel, PLAYER_TYPE::ONE);
    assert_eq!(recovered_phase(&channel), ChannelPhase::Unopened);
    set_round_status(&mut channel, 1, 1).unwrap();
    assert_eq!(recovered_phase(&channel), ChannelPhase::Open);
}
