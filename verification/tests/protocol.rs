//! Encode/decode behaviour of the wire messages.

use punch::addr::SockAddr;
use punch::hybrid::Message;
use punch::simple::{Peer, Register};

fn v4(ip: u32, port: u16) -> SockAddr {
    SockAddr::v4(ip, port)
}

fn v6(ip: u128, port: u16) -> SockAddr {
    SockAddr::v6(ip, port)
}

fn all_variants() -> Vec<Message> {
    vec![
        Message::register_request("peer-a".to_string()),
        Message::register_response(0),
        Message::punchA2S("peer-b".to_string()),
        Message::punchS2B(v4(0x0a00_0001, 3854)),
        Message::punchB2S(0),
        Message::punchS2A(None),
        Message::punchS2A(Some(v4(0x65224a49, 33714))),
        Message::punchS2A(Some(v6(0x2001_0db8_0000_0000_0000_0000_0000_0001, 443))),
        Message::messageAB("hello".to_string()),
        Message::register_request(String::new()),
        Message::messageAB("héllo wörld ✓".to_string()),
    ]
}

#[test]
fn round_trip_every_variant() {
    for m in all_variants() {
        let bytes = m.encode();
        let back = Message::decode(&bytes).expect("encoded message must decode");
        assert_eq!(back, m);
    }
}

#[test]
fn decode_empty_is_error() {
    assert!(Message::decode(&[]).is_err());
}

#[test]
fn decode_truncated_is_error() {
    for m in all_variants() {
        let bytes = m.encode();
        for n in 0..bytes.len() {
            assert!(
                Message::decode(&bytes[..n]).is_err(),
                "prefix of length {} of {:?} must not decode",
                n,
                m
            );
        }
    }
}

#[test]
fn decode_trailing_garbage_is_error() {
    for m in all_variants() {
        let mut bytes = m.encode();
        bytes.push(0);
        assert!(Message::decode(&bytes).is_err());
    }
}

#[test]
fn decode_unknown_tag_is_error() {
    assert!(Message::decode(&[0]).is_err());
    assert!(Message::decode(&[8, 1, 2, 3]).is_err());
    assert!(Message::decode(&[255]).is_err());
}

#[test]
fn decode_bad_utf8_is_error() {
    // a register_request whose payload claims 2 bytes of invalid UTF-8
    let bytes: Vec<u8> = vec![1, 2, 0, 0, 0, 0, 0, 0, 0, 0xff, 0xfe];
    assert!(Message::decode(&bytes).is_err());
}

#[test]
fn register_round_trip() {
    let r = Register { id: "A".to_string(), peer_id: "B".to_string() };
    let bytes = r.encode();
    let back = Register::decode(&bytes).expect("encoded registration must decode");
    assert_eq!(back, r);
}

#[test]
fn register_truncated_is_error() {
    let r = Register { id: "alpha".to_string(), peer_id: "beta".to_string() };
    let bytes = r.encode();
    for n in 0..bytes.len() {
        assert!(Register::decode(&bytes[..n]).is_err());
    }
}

#[test]
fn peer_round_trip() {
    for p in [
        Peer { peer_addr: None },
        Peer { peer_addr: Some(v4(0x7f000001, 12345)) },
        Peer { peer_addr: Some(v6(1, 2)) },
    ] {
        let bytes = p.encode();
        let back = Peer::decode(&bytes).expect("encoded peer answer must decode");
        assert_eq!(back, p);
    }
}

#[test]
fn peer_truncated_is_error() {
    let p = Peer { peer_addr: Some(v4(0x7f000001, 80)) };
    let bytes = p.encode();
    for n in 0..bytes.len() {
        assert!(Peer::decode(&bytes[..n]).is_err());
    }
    assert!(Peer::decode(&[]).is_err());
}

#[test]
fn peer_default_is_unregistered() {
    let p = Peer::default();
    assert_eq!(p.peer_addr, None);
}

#[test]
fn encodings_are_distinct() {
    let variants = all_variants();
    for (i, a) in variants.iter().enumerate() {
        for (j, b) in variants.iter().enumerate() {
            if i != j {
                assert_ne!(a.encode(), b.encode());
            }
        }
    }
}
