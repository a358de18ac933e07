//! The two peer agents' choreographies, stepped through event by event.

use punch::addr::SockAddr;
use punch::agent::{
    active_step, passive_step, relay_of, udp_inbox_bytes, udp_inbox_step, AbortReason,
    ActiveAction, ActiveEvent, ActiveState, PassiveAction, PassiveEvent, PassiveState,
    UdpInboxAction,
};
use punch::hybrid::Message;

fn v4(ip: u32, port: u16) -> SockAddr {
    SockAddr::v4(ip, port)
}

#[test]
fn udp_inbox_dispatch() {
    assert_eq!(
        udp_inbox_step(&Message::register_response(0)),
        UdpInboxAction::NotifyRegistered
    );
    let a_tcp = v4(1, 3854);
    assert_eq!(
        udp_inbox_step(&Message::punchS2B(a_tcp)),
        UdpInboxAction::DeliverPeerAddress(a_tcp)
    );
    assert_eq!(
        udp_inbox_step(&Message::messageAB("hi".to_string())),
        UdpInboxAction::Ignore
    );
}

#[test]
fn udp_inbox_bytes_drops_malformed() {
    assert_eq!(udp_inbox_bytes(&[0xde, 0xad]), UdpInboxAction::Ignore);
    let wire = Message::register_response(0).encode();
    assert_eq!(udp_inbox_bytes(&wire), UdpInboxAction::NotifyRegistered);
}

#[test]
fn relay_extraction() {
    let b_tcp = v4(2, 33714);
    assert_eq!(relay_of(&Message::punchS2A(Some(b_tcp))), Some(Some(b_tcp)));
    assert_eq!(relay_of(&Message::punchS2A(None)), Some(None));
    assert_eq!(relay_of(&Message::register_response(0)), None);
}

#[test]
fn active_happy_path() {
    let local = v4(0xc0a80106, 3854);
    let peer = v4(0x65224a49, 33714);

    let (s, a) = active_step(ActiveState::AwaitingRegistration, ActiveEvent::Registered);
    assert_eq!((s, a), (ActiveState::AwaitingTrigger, ActiveAction::WaitForTrigger));

    let (s, a) = active_step(s, ActiveEvent::Triggered);
    assert_eq!((s, a), (ActiveState::ConnectingToServer, ActiveAction::DialServer));

    let (s, a) = active_step(s, ActiveEvent::ServerConnected { local });
    assert_eq!(
        (s, a),
        (ActiveState::AwaitingRelay { local }, ActiveAction::SendPunchRequest)
    );

    let (s, a) = active_step(s, ActiveEvent::RelayReceived(Some(peer)));
    assert_eq!(
        (s, a),
        (
            ActiveState::Punching { local, peer },
            ActiveAction::AttemptConnect { local, peer }
        )
    );

    let (s, a) = active_step(s, ActiveEvent::ConnectSucceeded);
    assert_eq!(
        (s, a),
        (
            ActiveState::Exchanging { local, peer },
            ActiveAction::StartExchange { local, peer }
        )
    );

    // when the exchange ends, the loop resumes retrying
    let (s, a) = active_step(s, ActiveEvent::ExchangeEnded);
    assert_eq!(
        (s, a),
        (
            ActiveState::Punching { local, peer },
            ActiveAction::AttemptConnect { local, peer }
        )
    );
}

#[test]
fn active_retry_does_not_give_up() {
    let local = v4(1, 1);
    let peer = v4(2, 2);
    let mut s = ActiveState::Punching { local, peer };
    // many failed attempts in a row: the same attempt is always retried
    for _ in 0..100 {
        let (s2, a) = active_step(s, ActiveEvent::ConnectFailed);
        assert_eq!(s2, ActiveState::Punching { local, peer });
        assert_eq!(a, ActiveAction::AttemptConnect { local, peer });
        let (s3, a) = active_step(s2, ActiveEvent::TimedOut);
        assert_eq!(s3, ActiveState::Punching { local, peer });
        assert_eq!(a, ActiveAction::AttemptConnect { local, peer });
        s = s3;
    }
    // and a success is still taken
    let (s, _) = active_step(s, ActiveEvent::ConnectSucceeded);
    assert_eq!(s, ActiveState::Exchanging { local, peer });
}

#[test]
fn active_unregistered_peer_aborts() {
    let local = v4(1, 1);
    let (s, a) = active_step(
        ActiveState::AwaitingRelay { local },
        ActiveEvent::RelayReceived(None),
    );
    assert_eq!(s, ActiveState::Failed(AbortReason::PeerUnregistered));
    assert_eq!(a, ActiveAction::Abort(AbortReason::PeerUnregistered));
}

#[test]
fn active_relay_timeout_aborts() {
    let local = v4(1, 1);
    let (s, a) = active_step(ActiveState::AwaitingRelay { local }, ActiveEvent::TimedOut);
    assert_eq!(s, ActiveState::Failed(AbortReason::Timeout));
    assert_eq!(a, ActiveAction::Abort(AbortReason::Timeout));
}

#[test]
fn active_server_dial_retries() {
    let (s, a) = active_step(ActiveState::ConnectingToServer, ActiveEvent::ConnectFailed);
    assert_eq!((s, a), (ActiveState::ConnectingToServer, ActiveAction::DialServer));
    let (s, a) = active_step(s, ActiveEvent::TimedOut);
    assert_eq!((s, a), (ActiveState::ConnectingToServer, ActiveAction::DialServer));
}

#[test]
fn passive_happy_path() {
    let a_tcp = v4(0x1bd88156, 3854);
    let local = v4(0xac110006, 33714);

    let (s, a) = passive_step(PassiveState::AwaitingRegistration, PassiveEvent::Registered);
    assert_eq!(
        (s, a),
        (PassiveState::AwaitingPeerAddress, PassiveAction::WaitForPeerAddress)
    );

    let (s, a) = passive_step(s, PassiveEvent::PeerAddressReceived(a_tcp));
    assert_eq!(
        (s, a),
        (PassiveState::ConnectingToServer { peer: a_tcp }, PassiveAction::DialServer)
    );

    let (s, a) = passive_step(s, PassiveEvent::ServerConnected { local });
    assert_eq!(
        (s, a),
        (
            PassiveState::Priming { local, peer: a_tcp },
            PassiveAction::AttemptPrimingConnect { local, peer: a_tcp }
        )
    );

    let (s, a) = passive_step(s, PassiveEvent::PrimingFinished);
    assert_eq!(
        (s, a),
        (PassiveState::SendingAck { local, peer: a_tcp }, PassiveAction::SendPunchAck)
    );

    let (s, a) = passive_step(s, PassiveEvent::AckSent);
    assert_eq!(
        (s, a),
        (
            PassiveState::Listening { local, expected: a_tcp },
            PassiveAction::ListenOn { local }
        )
    );

    let (s, a) = passive_step(s, PassiveEvent::Accepted { remote: a_tcp });
    assert_eq!(
        s,
        PassiveState::Exchanging { local, peer: a_tcp, address_matched: true }
    );
    assert_eq!(
        a,
        PassiveAction::StartExchange { local, peer: a_tcp, address_matched: true }
    );

    let (s, a) = passive_step(s, PassiveEvent::ExchangeEnded);
    assert_eq!((s, a), (PassiveState::Done, PassiveAction::Stop));
}

#[test]
fn passive_mismatched_accept_is_not_fatal() {
    let local = v4(1, 1);
    let expected = v4(2, 2);
    let stranger = v4(3, 3);
    let (s, a) = passive_step(
        PassiveState::Listening { local, expected },
        PassiveEvent::Accepted { remote: stranger },
    );
    // the session proceeds; the mismatch is only marked for logging
    assert_eq!(
        s,
        PassiveState::Exchanging { local, peer: stranger, address_matched: false }
    );
    assert_eq!(
        a,
        PassiveAction::StartExchange { local, peer: stranger, address_matched: false }
    );
}

#[test]
fn irrelevant_events_change_nothing() {
    let s = ActiveState::AwaitingTrigger;
    assert_eq!(active_step(s, ActiveEvent::ConnectSucceeded), (s, ActiveAction::Ignore));
    let p = PassiveState::AwaitingPeerAddress;
    assert_eq!(passive_step(p, PassiveEvent::AckSent), (p, PassiveAction::Ignore));
}
