//! The rendezvous server's table and signaling behaviour.

use punch::addr::SockAddr;
use punch::hybrid::Message;
use punch::server::{
    handle_register, handle_signal, handle_signal_bytes, handle_udp_datagram, PendingSession,
    RegTable, ServerAction, SignalState,
};

fn v4(ip: u32, port: u16) -> SockAddr {
    SockAddr::v4(ip, port)
}

#[test]
fn registration_is_acknowledged() {
    let mut table = RegTable::new();
    let from = v4(1, 4000);
    let reply = handle_register(&mut table, &Message::register_request("X".to_string()), from);
    assert_eq!(reply, Some(Message::register_response(0)));
    assert_eq!(table.lookup(&"X".to_string()), Some(from));
}

#[test]
fn last_write_wins() {
    let mut table = RegTable::new();
    let first = v4(0x01020304, 1111);
    let second = v4(0x0a0b0c0d, 2222);
    handle_register(&mut table, &Message::register_request("X".to_string()), first);
    handle_register(&mut table, &Message::register_request("X".to_string()), second);
    assert_eq!(table.lookup(&"X".to_string()), Some(second));
}

#[test]
fn lookup_of_unknown_id_is_none() {
    let table = RegTable::new();
    assert_eq!(table.lookup(&"nobody".to_string()), None);
}

#[test]
fn non_registration_datagram_changes_nothing() {
    let mut table = RegTable::new();
    let from = v4(1, 1);
    let reply = handle_register(&mut table, &Message::punchB2S(0), from);
    assert_eq!(reply, None);
    let reply2 = handle_udp_datagram(&mut table, &[0xff, 0xff], from);
    assert_eq!(reply2, None);
}

#[test]
fn udp_datagram_round_trip() {
    let mut table = RegTable::new();
    let from = v4(9, 9);
    let datagram = Message::register_request("Y".to_string()).encode();
    let reply = handle_udp_datagram(&mut table, &datagram, from).expect("a registration is acknowledged");
    assert_eq!(Message::decode(&reply), Ok(Message::register_response(0)));
    assert_eq!(table.lookup(&"Y".to_string()), Some(from));
}

#[test]
fn unregistered_target_is_answered_at_once() {
    let table = RegTable::new();
    let a_tcp = v4(0x1b_d8_81_56, 3854);
    let (state, action) = handle_signal(
        &table,
        SignalState::Idle,
        &Message::punchA2S("B".to_string()),
        1,
        a_tcp,
    );
    assert_eq!(state, SignalState::Idle);
    assert_eq!(action, ServerAction::Reply { conn: 1, msg: Message::punchS2A(None) });
}

#[test]
fn end_to_end_punch_exchange() {
    let mut table = RegTable::new();
    let a_udp = v4(0x1b_d8_81_56, 3853);
    let b_udp = v4(0x65_22_4a_49, 49612);
    let a_tcp = v4(0x1b_d8_81_56, 3854);
    let b_tcp = v4(0x65_22_4a_49, 33714);

    // A registers id "A"; B registers id "B"
    handle_register(&mut table, &Message::register_request("A".to_string()), a_udp);
    handle_register(&mut table, &Message::register_request("B".to_string()), b_udp);

    // A's punch request: the server must notify B's last registered UDP
    // address, carrying A's TCP-observed address
    let (state, action) = handle_signal(
        &table,
        SignalState::Idle,
        &Message::punchA2S("B".to_string()),
        1,
        a_tcp,
    );
    assert_eq!(state, SignalState::AwaitingB(PendingSession { conn: 1 }));
    assert_eq!(
        action,
        ServerAction::NotifyTarget { target_udp: b_udp, msg: Message::punchS2B(a_tcp) }
    );

    // B's acknowledgment: the server must reply on A's still-open
    // connection with B's observed TCP address
    let (state, action) = handle_signal(&table, state, &Message::punchB2S(0), 2, b_tcp);
    assert_eq!(state, SignalState::Idle);
    assert_eq!(
        action,
        ServerAction::Reply { conn: 1, msg: Message::punchS2A(Some(b_tcp)) }
    );
}

#[test]
fn ack_without_pending_session_is_dropped() {
    let table = RegTable::new();
    let b_tcp = v4(3, 3);
    let (state, action) = handle_signal(&table, SignalState::Idle, &Message::punchB2S(0), 2, b_tcp);
    assert_eq!(state, SignalState::Idle);
    assert_eq!(action, ServerAction::Ignore);
}

#[test]
fn second_request_overwrites_pending_slot() {
    let mut table = RegTable::new();
    let b_udp = v4(2, 2000);
    handle_register(&mut table, &Message::register_request("B".to_string()), b_udp);

    let first = handle_signal(
        &table,
        SignalState::Idle,
        &Message::punchA2S("B".to_string()),
        1,
        v4(1, 1000),
    );
    assert_eq!(first.0, SignalState::AwaitingB(PendingSession { conn: 1 }));

    // a second request before the first resolves: the slot now holds the
    // new connection, the first is forgotten
    let second = handle_signal(&table, first.0, &Message::punchA2S("B".to_string()), 5, v4(4, 4000));
    assert_eq!(second.0, SignalState::AwaitingB(PendingSession { conn: 5 }));

    // B's ack resolves toward the second requester
    let resolved = handle_signal(&table, second.0, &Message::punchB2S(0), 6, v4(9, 9000));
    assert_eq!(
        resolved.1,
        ServerAction::Reply { conn: 5, msg: Message::punchS2A(Some(v4(9, 9000))) }
    );
}

#[test]
fn malformed_tcp_read_is_dropped() {
    let table = RegTable::new();
    let held = SignalState::AwaitingB(PendingSession { conn: 1 });
    let (state, action) = handle_signal_bytes(&table, held, &[1, 2, 3], 2, v4(1, 1));
    assert_eq!(state, held);
    assert_eq!(action, ServerAction::Ignore);
}

#[test]
fn signal_bytes_matches_decoded_path() {
    let mut table = RegTable::new();
    handle_register(&mut table, &Message::register_request("B".to_string()), v4(2, 2));
    let request = Message::punchA2S("B".to_string()).encode();
    let (state, action) = handle_signal_bytes(&table, SignalState::Idle, &request, 1, v4(1, 1));
    assert_eq!(state, SignalState::AwaitingB(PendingSession { conn: 1 }));
    assert_eq!(
        action,
        ServerAction::NotifyTarget { target_udp: v4(2, 2), msg: Message::punchS2B(v4(1, 1)) }
    );
}
