//! The wire protocol of the rendezvous-mediated hole punch.
//!
//! A closed set of tagged messages travels over UDP (registration) and TCP
//! (signaling). Each message is self-describing — a tag byte followed by its
//! payload — and is encoded into, and decoded from, a single buffer.
//! `decode` rejects malformed or truncated input with [`DecodeError`] and
//! never panics; `encode` never fails.

use vstd::prelude::*;

use crate::addr::SockAddr;
use crate::codec::{
    push_addr_bytes, push_str_bytes, parse_addr, parse_str, lemma_addr_round_trip,
    lemma_addr_truncated, lemma_str_round_trip, lemma_str_truncated, spec_addr_bytes,
    spec_parse_addr, spec_parse_str, spec_str_bytes, str_len_ok,
};

verus! {

/// A wire message, one variant per message kind.
#[allow(non_camel_case_types)]
#[derive(Debug, PartialEq, Eq)]
pub enum Message {
    /// Client to server, UDP: register (or keep alive) the sender's id.
    register_request(String),
    /// Server to client, UDP: acknowledge a registration.
    register_response(u8),
    /// Active peer A to server, TCP: ask to punch toward the target id.
    punchA2S(String),
    /// Server to passive peer B, UDP: A's TCP address as the server saw it.
    punchS2B(SockAddr),
    /// Passive peer B to server, TCP: B is primed and ready.
    punchB2S(u8),
    /// Server to A, TCP: B's observed TCP address, or nothing if the target
    /// never registered.
    punchS2A(Option<SockAddr>),
    /// Peer to peer, TCP: the demo payload exchanged once connected.
    messageAB(String),
}

/// The mathematical value of a message: the same variants over sequences
/// of characters and plain addresses.
pub enum MsgV {
    RegisterRequest(Seq<char>),
    RegisterResponse(u8),
    PunchA2S(Seq<char>),
    PunchS2B(SockAddr),
    PunchB2S(u8),
    PunchS2A(Option<SockAddr>),
    MessageAB(Seq<char>),
}

impl View for Message {
    type V = MsgV;

    open spec fn view(&self) -> MsgV {
        match self {
            Message::register_request(s) => MsgV::RegisterRequest(s@),
            Message::register_response(a) => MsgV::RegisterResponse(*a),
            Message::punchA2S(s) => MsgV::PunchA2S(s@),
            Message::punchS2B(a) => MsgV::PunchS2B(*a),
            Message::punchB2S(a) => MsgV::PunchB2S(*a),
            Message::punchS2A(a) => MsgV::PunchS2A(*a),
            Message::messageAB(s) => MsgV::MessageAB(s@),
        }
    }
}

/// Malformed or truncated bytes. Never fatal: callers drop the input.
#[derive(Clone, Copy, Debug, PartialEq, Eq, Structural)]
pub struct DecodeError;

/// The byte encoding of a message: a tag byte, then the payload.
pub open spec fn spec_encode(m: MsgV) -> Seq<u8> {
    match m {
        MsgV::RegisterRequest(s) => seq![1u8] + spec_str_bytes(s),
        MsgV::RegisterResponse(a) => seq![2u8, a],
        MsgV::PunchA2S(s) => seq![3u8] + spec_str_bytes(s),
        MsgV::PunchS2B(ad) => seq![4u8] + spec_addr_bytes(ad),
        MsgV::PunchB2S(a) => seq![5u8, a],
        MsgV::PunchS2A(oa) => match oa {
            None => seq![6u8, 0u8],
            Some(ad) => seq![6u8, 1u8] + spec_addr_bytes(ad),
        },
        MsgV::MessageAB(s) => seq![7u8] + spec_str_bytes(s),
    }
}

/// What a byte sequence decodes to, if anything. The whole buffer must be
/// consumed: trailing or missing bytes make the decode fail.
pub open spec fn spec_decode(b: Seq<u8>) -> Option<MsgV> {
    if b.len() < 1 {
        None
    } else {
        let rest = b.skip(1);
        if b[0] == 1 {
            match spec_parse_str(rest) {
                Some(s) => Some(MsgV::RegisterRequest(s)),
                None => None,
            }
        } else if b[0] == 2 {
            if rest.len() == 1 {
                Some(MsgV::RegisterResponse(rest[0]))
            } else {
                None
            }
        } else if b[0] == 3 {
            match spec_parse_str(rest) {
                Some(s) => Some(MsgV::PunchA2S(s)),
                None => None,
            }
        } else if b[0] == 4 {
            match spec_parse_addr(rest) {
                Some(a) => Some(MsgV::PunchS2B(a)),
                None => None,
            }
        } else if b[0] == 5 {
            if rest.len() == 1 {
                Some(MsgV::PunchB2S(rest[0]))
            } else {
                None
            }
        } else if b[0] == 6 {
            if rest.len() < 1 {
                None
            } else if rest[0] == 0 {
                if rest.len() == 1 {
                    Some(MsgV::PunchS2A(None))
                } else {
                    None
                }
            } else if rest[0] == 1 {
                match spec_parse_addr(rest.skip(1)) {
                    Some(a) => Some(MsgV::PunchS2A(Some(a))),
                    None => None,
                }
            } else {
                None
            }
        } else if b[0] == 7 {
            match spec_parse_str(rest) {
                Some(s) => Some(MsgV::MessageAB(s)),
                None => None,
            }
        } else {
            None
        }
    }
}

/// A message whose strings fit the 8-byte length prefix. Every message that
/// exists in memory satisfies this.
pub open spec fn msg_wf(m: MsgV) -> bool {
    match m {
        MsgV::RegisterRequest(s) => str_len_ok(s),
        MsgV::PunchA2S(s) => str_len_ok(s),
        MsgV::MessageAB(s) => str_len_ok(s),
        _ => true,
    }
}

impl Message {
    /// Encodes the message into bytes. Never fails.
    pub fn encode(&self) -> (r: Vec<u8>)
        ensures
            r@ == spec_encode(self@),
    {
        let mut out: Vec<u8> = Vec::new();
        match self {
            Message::register_request(s) => {
                out.push(1u8);
                push_str_bytes(&mut out, s.as_str());
                assert(out@ =~= spec_encode(self@));
            },
            Message::register_response(a) => {
                out.push(2u8);
                out.push(*a);
                assert(out@ =~= spec_encode(self@));
            },
            Message::punchA2S(s) => {
                out.push(3u8);
                push_str_bytes(&mut out, s.as_str());
                assert(out@ =~= spec_encode(self@));
            },
            Message::punchS2B(a) => {
                out.push(4u8);
                push_addr_bytes(&mut out, *a);
                assert(out@ =~= spec_encode(self@));
            },
            Message::punchB2S(a) => {
                out.push(5u8);
                out.push(*a);
                assert(out@ =~= spec_encode(self@));
            },
            Message::punchS2A(oa) => {
                out.push(6u8);
                match oa {
                    None => {
                        out.push(0u8);
                        assert(out@ =~= spec_encode(self@));
                    },
                    Some(a) => {
                        out.push(1u8);
                        push_addr_bytes(&mut out, *a);
                        assert(out@ =~= spec_encode(self@));
                    },
                }
            },
            Message::messageAB(s) => {
                out.push(7u8);
                push_str_bytes(&mut out, s.as_str());
                assert(out@ =~= spec_encode(self@));
            },
        }
        out
    }

    /// Decodes one message from bytes; fails on anything malformed or
    /// truncated, and never panics.
    pub fn decode(data: &[u8]) -> (r: Result<Message, DecodeError>)
        ensures
            match r {
                Ok(m) => spec_decode(data@) == Some(m@),
                Err(_) => spec_decode(data@) is None,
            },
    {
        let len: usize = data.len();
        if len < 1 {
            return Err(DecodeError);
        }
        let tag: u8 = *vstd::slice::slice_index_get(data, 0);
        let rest: &[u8] = vstd::slice::slice_subrange(data, 1, len);
        assert(rest@ =~= data@.skip(1));
        if tag == 1 {
            match parse_str(rest) {
                Some(s) => Ok(Message::register_request(s)),
                None => Err(DecodeError),
            }
        } else if tag == 2 {
            if rest.len() == 1 {
                Ok(Message::register_response(*vstd::slice::slice_index_get(rest, 0)))
            } else {
                Err(DecodeError)
            }
        } else if tag == 3 {
            match parse_str(rest) {
                Some(s) => Ok(Message::punchA2S(s)),
                None => Err(DecodeError),
            }
        } else if tag == 4 {
            match parse_addr(rest) {
                Some(a) => Ok(Message::punchS2B(a)),
                None => Err(DecodeError),
            }
        } else if tag == 5 {
            if rest.len() == 1 {
                Ok(Message::punchB2S(*vstd::slice::slice_index_get(rest, 0)))
            } else {
                Err(DecodeError)
            }
        } else if tag == 6 {
            if rest.len() < 1 {
                Err(DecodeError)
            } else {
                let opt_tag: u8 = *vstd::slice::slice_index_get(rest, 0);
                if opt_tag == 0 {
                    if rest.len() == 1 {
                        Ok(Message::punchS2A(None))
                    } else {
                        Err(DecodeError)
                    }
                } else if opt_tag == 1 {
                    let addr_part: &[u8] = vstd::slice::slice_subrange(rest, 1, rest.len());
                    assert(addr_part@ =~= data@.skip(1).skip(1));
                    match parse_addr(addr_part) {
                        Some(a) => Ok(Message::punchS2A(Some(a))),
                        None => Err(DecodeError),
                    }
                } else {
                    Err(DecodeError)
                }
            }
        } else if tag == 7 {
            match parse_str(rest) {
                Some(s) => Ok(Message::messageAB(s)),
                None => Err(DecodeError),
            }
        } else {
            Err(DecodeError)
        }
    }
}

/// Law: for every message, decoding its encoding yields the message back.
pub proof fn lemma_round_trip(m: MsgV)
    requires
        msg_wf(m),
    ensures
        spec_decode(spec_encode(m)) == Some(m),
{
    let b = spec_encode(m);
    match m {
        MsgV::RegisterRequest(s) => {
            assert(b.skip(1) =~= spec_str_bytes(s));
            lemma_str_round_trip(s);
        },
        MsgV::RegisterResponse(a) => {
            assert(b.skip(1) =~= seq![a]);
        },
        MsgV::PunchA2S(s) => {
            assert(b.skip(1) =~= spec_str_bytes(s));
            lemma_str_round_trip(s);
        },
        MsgV::PunchS2B(ad) => {
            assert(b.skip(1) =~= spec_addr_bytes(ad));
            lemma_addr_round_trip(ad);
        },
        MsgV::PunchB2S(a) => {
            assert(b.skip(1) =~= seq![a]);
        },
        MsgV::PunchS2A(oa) => {
            match oa {
                None => {
                    assert(b.skip(1) =~= seq![0u8]);
                },
                Some(ad) => {
                    assert(b.skip(1).skip(1) =~= spec_addr_bytes(ad));
                    lemma_addr_round_trip(ad);
                },
            }
        },
        MsgV::MessageAB(s) => {
            assert(b.skip(1) =~= spec_str_bytes(s));
            lemma_str_round_trip(s);
        },
    }
}

/// Law: a message small enough to have been encoded into memory at all is
/// well formed, so the round trip needs no side condition for messages
/// that exist.
pub proof fn lemma_encodable_is_wf(m: MsgV)
    requires
        spec_encode(m).len() <= usize::MAX,
    ensures
        msg_wf(m),
{
    vstd::bytes::lemma_auto_spec_u64_to_from_le_bytes();
    match m {
        MsgV::RegisterRequest(s) => {
            assert(spec_encode(m).len() == 9 + vstd::utf8::encode_utf8(s).len());
        },
        MsgV::PunchA2S(s) => {
            assert(spec_encode(m).len() == 9 + vstd::utf8::encode_utf8(s).len());
        },
        MsgV::MessageAB(s) => {
            assert(spec_encode(m).len() == 9 + vstd::utf8::encode_utf8(s).len());
        },
        _ => {
        },
    }
}

/// Law: the empty buffer never decodes.
pub proof fn lemma_decode_empty()
    ensures
        spec_decode(Seq::<u8>::empty()) is None,
{
}

/// Law: no strict prefix of an encoded message decodes; a truncated buffer
/// is always rejected.
pub proof fn lemma_decode_truncated(m: MsgV, n: int)
    requires
        msg_wf(m),
        0 <= n < spec_encode(m).len(),
    ensures
        spec_decode(spec_encode(m).take(n)) is None,
{
    let b = spec_encode(m);
    let t = b.take(n);
    if n == 0 {
        return ;
    }
    assert(t[0] == b[0]);
    match m {
        MsgV::RegisterRequest(s) => {
            assert(t.skip(1) =~= spec_str_bytes(s).take(n - 1));
            lemma_str_truncated(s, n - 1);
        },
        MsgV::RegisterResponse(a) => {
            assert(t.skip(1).len() == 0);
        },
        MsgV::PunchA2S(s) => {
            assert(t.skip(1) =~= spec_str_bytes(s).take(n - 1));
            lemma_str_truncated(s, n - 1);
        },
        MsgV::PunchS2B(ad) => {
            assert(t.skip(1) =~= spec_addr_bytes(ad).take(n - 1));
            lemma_addr_truncated(ad, n - 1);
        },
        MsgV::PunchB2S(a) => {
            assert(t.skip(1).len() == 0);
        },
        MsgV::PunchS2A(oa) => {
            match oa {
                None => {
                    assert(t.skip(1).len() == 0);
                },
                Some(ad) => {
                    if n >= 2 {
                        assert(t.skip(1)[0] == 1u8);
                        assert(t.skip(1).skip(1) =~= spec_addr_bytes(ad).take(n - 2));
                        lemma_addr_truncated(ad, n - 2);
                    } else {
                        assert(t.skip(1).len() == 0);
                    }
                },
            }
        },
        MsgV::MessageAB(s) => {
            assert(t.skip(1) =~= spec_str_bytes(s).take(n - 1));
            lemma_str_truncated(s, n - 1);
        },
    }
}

} // verus!
