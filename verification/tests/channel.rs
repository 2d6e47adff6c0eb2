//! Behaviour of the stage-synchronization protocol.

use youki::channel::{
    interpret_init_ready, interpret_mapping_ack, link_step, unused_init_endpoint, ChannelError,
    ForkBranch, InitLinkEndpoint, InitToIntermediate, LinkEvent, LinkState, MainToIntermediate,
};

#[test]
fn each_side_closes_the_end_it_does_not_own() {
    assert_eq!(unused_init_endpoint(ForkBranch::Parent), InitLinkEndpoint::Sender);
    assert_eq!(unused_init_endpoint(ForkBranch::Child), InitLinkEndpoint::Receiver);
}

#[test]
fn link_lifecycle_in_order() {
    let s = link_step(LinkState::Open, LinkEvent::UnusedEndClosed).expect("close unused end");
    assert_eq!(s, LinkState::HalfClosed);
    let s = link_step(s, LinkEvent::MessageReceived).expect("receive");
    assert_eq!(s, LinkState::Consumed);
    let s = link_step(s, LinkEvent::LocalClose).expect("close");
    assert_eq!(s, LinkState::Closed);
}

#[test]
fn end_of_stream_is_a_peer_failure() {
    assert_eq!(
        link_step(LinkState::HalfClosed, LinkEvent::EndOfStream),
        Err(ChannelError::PeerClosed)
    );
}

#[test]
fn out_of_order_transitions_are_protocol_errors() {
    assert_eq!(
        link_step(LinkState::Open, LinkEvent::MessageReceived),
        Err(ChannelError::Protocol)
    );
    assert_eq!(
        link_step(LinkState::Consumed, LinkEvent::MessageReceived),
        Err(ChannelError::Protocol)
    );
    assert_eq!(
        link_step(LinkState::Closed, LinkEvent::UnusedEndClosed),
        Err(ChannelError::Protocol)
    );
    assert_eq!(
        link_step(LinkState::Closed, LinkEvent::LocalClose),
        Err(ChannelError::Protocol)
    );
}

#[test]
fn mapping_ack_lets_the_stage_continue() {
    assert!(interpret_mapping_ack(Some(MainToIntermediate::MappingAck)).is_ok());
    assert_eq!(interpret_mapping_ack(None), Err(ChannelError::PeerClosed));
}

#[test]
fn init_ready_lets_the_stage_continue() {
    assert!(interpret_init_ready(Some(InitToIntermediate::InitReady)).is_ok());
    assert_eq!(interpret_init_ready(None), Err(ChannelError::PeerClosed));
}
