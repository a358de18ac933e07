//! Wire records of the plain rendezvous variants: a registration that names
//! the sender and the peer it wants, and the server's answer carrying the
//! peer's last-seen address, if any. They share the byte conventions of
//! [`crate::codec`] and the same guarantees: encoding never fails, decoding
//! rejects malformed or truncated bytes and never panics.

use vstd::prelude::*;

use crate::addr::SockAddr;
use crate::codec::{
    push_addr_bytes, push_str_bytes, parse_addr, split_str, lemma_addr_round_trip,
    lemma_addr_truncated, lemma_str_round_trip, lemma_str_truncated, spec_addr_bytes,
    spec_parse_addr, spec_split_str, spec_str_bytes, str_len_ok,
};
use crate::hybrid::DecodeError;

verus! {

/// A registration: the sender's id and the id of the peer it asks after.
#[derive(Clone, Debug, PartialEq, Eq)]
pub struct Register {
    pub id: String,
    pub peer_id: String,
}

/// The mathematical value of a [`Register`].
pub struct RegisterV {
    pub id: Seq<char>,
    pub peer_id: Seq<char>,
}

impl View for Register {
    type V = RegisterV;

    open spec fn view(&self) -> RegisterV {
        RegisterV { id: self.id@, peer_id: self.peer_id@ }
    }
}

/// The server's answer: the asked-after peer's last-seen address, if it has
/// ever registered.
#[derive(Clone, Copy, Debug, PartialEq, Eq, Structural)]
pub struct Peer {
    pub peer_addr: Option<SockAddr>,
}

impl View for Peer {
    type V = Option<SockAddr>;

    open spec fn view(&self) -> Option<SockAddr> {
        self.peer_addr
    }
}

impl Default for Peer {
    /// An absent peer address: the peer is not (yet) registered.
    fn default() -> (r: Peer)
        ensures
            r@ is None,
    {
        Peer { peer_addr: None }
    }
}

/// The byte encoding of a registration: the two strings, one after the other.
pub open spec fn spec_register_bytes(r: RegisterV) -> Seq<u8> {
    spec_str_bytes(r.id) + spec_str_bytes(r.peer_id)
}

/// What a byte sequence holds if it is exactly one registration.
pub open spec fn spec_parse_register(b: Seq<u8>) -> Option<RegisterV> {
    match spec_split_str(b) {
        Some((id, rest)) => match spec_split_str(rest) {
            Some((peer_id, rest2)) => if rest2.len() == 0 {
                Some(RegisterV { id, peer_id })
            } else {
                None
            },
            None => None,
        },
        None => None,
    }
}

/// The byte encoding of a peer answer: a presence byte, then the address.
pub open spec fn spec_peer_bytes(p: Option<SockAddr>) -> Seq<u8> {
    match p {
        None => seq![0u8],
        Some(a) => seq![1u8] + spec_addr_bytes(a),
    }
}

/// What a byte sequence holds if it is exactly one peer answer.
pub open spec fn spec_parse_peer(b: Seq<u8>) -> Option<Option<SockAddr>> {
    if b.len() < 1 {
        None
    } else if b[0] == 0 {
        if b.len() == 1 {
            Some(None)
        } else {
            None
        }
    } else if b[0] == 1 {
        match spec_parse_addr(b.skip(1)) {
            Some(a) => Some(Some(a)),
            None => None,
        }
    } else {
        None
    }
}

/// A registration whose strings fit the 8-byte length prefix; every one
/// that exists in memory does.
pub open spec fn register_wf(r: RegisterV) -> bool {
    str_len_ok(r.id) && str_len_ok(r.peer_id)
}

impl Register {
    /// Encodes the registration into bytes. Never fails.
    pub fn encode(&self) -> (r: Vec<u8>)
        ensures
            r@ == spec_register_bytes(self@),
    {
        let mut out: Vec<u8> = Vec::new();
        push_str_bytes(&mut out, self.id.as_str());
        push_str_bytes(&mut out, self.peer_id.as_str());
        out
    }

    /// Decodes one registration from bytes; fails on anything malformed or
    /// truncated, and never panics.
    pub fn decode(data: &[u8]) -> (r: Result<Register, DecodeError>)
        ensures
            match r {
                Ok(reg) => spec_parse_register(data@) == Some(reg@),
                Err(_) => spec_parse_register(data@) is None,
            },
    {
        match split_str(data) {
            Some((id, rest)) => match split_str(rest) {
                Some((peer_id, rest2)) => if rest2.len() == 0 {
                    Ok(Register { id, peer_id })
                } else {
                    Err(DecodeError)
                },
                None => Err(DecodeError),
            },
            None => Err(DecodeError),
        }
    }
}

impl Peer {
    /// Encodes the peer answer into bytes. Never fails.
    pub fn encode(&self) -> (r: Vec<u8>)
        ensures
            r@ == spec_peer_bytes(self@),
    {
        let mut out: Vec<u8> = Vec::new();
        match self.peer_addr {
            None => {
                out.push(0u8);
            },
            Some(a) => {
                out.push(1u8);
                push_addr_bytes(&mut out, a);
            },
        }
        assert(out@ =~= spec_peer_bytes(self@));
        out
    }

    /// Decodes one peer answer from bytes; fails on anything malformed or
    /// truncated, and never panics.
    pub fn decode(data: &[u8]) -> (r: Result<Peer, DecodeError>)
        ensures
            match r {
                Ok(p) => spec_parse_peer(data@) == Some(p@),
                Err(_) => spec_parse_peer(data@) is None,
            },
    {
        let len: usize = data.len();
        if len < 1 {
            return Err(DecodeError);
        }
        let tag: u8 = *vstd::slice::slice_index_get(data, 0);
        if tag == 0 {
            if len == 1 {
                Ok(Peer { peer_addr: None })
            } else {
                Err(DecodeError)
            }
        } else if tag == 1 {
            let rest: &[u8] = vstd::slice::slice_subrange(data, 1, len);
            assert(rest@ =~= data@.skip(1));
            match parse_addr(rest) {
                Some(a) => Ok(Peer { peer_addr: Some(a) }),
                None => Err(DecodeError),
            }
        } else {
            Err(DecodeError)
        }
    }
}

/// Law: decoding an encoded registration yields the registration back.
pub proof fn lemma_register_round_trip(r: RegisterV)
    requires
        register_wf(r),
    ensures
        spec_parse_register(spec_register_bytes(r)) == Some(r),
{
    lemma_str_round_trip(r.id);
    lemma_str_round_trip(r.peer_id);
    let b = spec_register_bytes(r);
    let b1 = spec_str_bytes(r.id);
    let b2 = spec_str_bytes(r.peer_id);
    vstd::bytes::lemma_auto_spec_u64_to_from_le_bytes();
    broadcast use vstd::utf8::encode_utf8_valid_utf8;
    broadcast use vstd::utf8::encode_utf8_decode_utf8;

    let u1 = vstd::utf8::encode_utf8(r.id);
    assert(b.take(8) =~= b1.take(8));
    assert(b.subrange(8, 8 + u1.len() as int) =~= u1);
    assert(b.skip(8 + u1.len() as int) =~= b2);
}

/// Law: no strict prefix of an encoded registration decodes.
pub proof fn lemma_register_truncated(r: RegisterV, n: int)
    requires
        register_wf(r),
        0 <= n < spec_register_bytes(r).len(),
    ensures
        spec_parse_register(spec_register_bytes(r).take(n)) is None,
{
    let b = spec_register_bytes(r);
    let b1 = spec_str_bytes(r.id);
    let b2 = spec_str_bytes(r.peer_id);
    let t = b.take(n);
    vstd::bytes::lemma_auto_spec_u64_to_from_le_bytes();
    broadcast use vstd::utf8::encode_utf8_valid_utf8;
    broadcast use vstd::utf8::encode_utf8_decode_utf8;

    let u1 = vstd::utf8::encode_utf8(r.id);
    if n < b1.len() {
        // the first string is itself cut short
        assert(t =~= b1.take(n));
        if n >= 8 {
            assert(t.take(8) =~= vstd::bytes::spec_u64_to_le_bytes(u1.len() as u64));
            assert(vstd::bytes::spec_u64_from_le_bytes(t.take(8)) == u1.len() as u64);
            assert(t.len() - 8 < u1.len());
            assert(spec_split_str(t) is None);
        } else {
            assert(spec_split_str(t) is None);
        }
    } else {
        // the first string is whole; the second is cut short
        assert(t.take(8) =~= vstd::bytes::spec_u64_to_le_bytes(u1.len() as u64));
        assert(vstd::bytes::spec_u64_from_le_bytes(t.take(8)) == u1.len() as u64);
        assert(t.subrange(8, 8 + u1.len() as int) =~= u1);
        assert(vstd::utf8::decode_utf8(u1) == r.id);
        let tail = b2.take(n - b1.len());
        assert(t.skip(8 + u1.len() as int) =~= tail);
        assert(spec_split_str(t) == Some((r.id, tail)));
        lemma_str_truncated(r.peer_id, n - b1.len());
        assert(match spec_split_str(tail) {
            Some((s2, rest2)) => rest2.len() > 0,
            None => true,
        });
    }
}

/// Law: decoding an encoded peer answer yields the answer back.
pub proof fn lemma_peer_round_trip(p: Option<SockAddr>)
    ensures
        spec_parse_peer(spec_peer_bytes(p)) == Some(p),
{
    match p {
        None => {
        },
        Some(a) => {
            lemma_addr_round_trip(a);
            assert(spec_peer_bytes(p).skip(1) =~= spec_addr_bytes(a));
        },
    }
}

/// Law: no strict prefix of an encoded peer answer decodes.
pub proof fn lemma_peer_truncated(p: Option<SockAddr>, n: int)
    requires
        0 <= n < spec_peer_bytes(p).len(),
    ensures
        spec_parse_peer(spec_peer_bytes(p).take(n)) is None,
{
    let b = spec_peer_bytes(p);
    let t = b.take(n);
    if n >= 1 {
        match p {
            None => {
            },
            Some(a) => {
                assert(t[0] == 1u8);
                assert(t.skip(1) =~= spec_addr_bytes(a).take(n - 1));
                lemma_addr_truncated(a, n - 1);
            },
        }
    }
}

} // verus!
