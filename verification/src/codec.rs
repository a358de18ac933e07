//! Byte-level building blocks shared by the wire types.
//!
//! Strings travel as an 8-byte little-endian length prefix (the byte length
//! of the UTF-8 encoding) followed by the UTF-8 bytes; socket addresses as a
//! one-byte family tag followed by the raw address and port, little-endian.
//! Every parser demands that its input is consumed exactly, so a truncated
//! buffer is always rejected.

use vstd::prelude::*;
use vstd::bytes::*;
use vstd::slice::*;
use vstd::string::StrSliceExecFns;
use vstd::utf8::{decode_utf8, encode_utf8, valid_utf8};

use crate::addr::{IpAddress, SockAddr};

verus! {

/// The byte encoding of a string: length prefix, then UTF-8 bytes.
pub open spec fn spec_str_bytes(s: Seq<char>) -> Seq<u8> {
    spec_u64_to_le_bytes(encode_utf8(s).len() as u64) + encode_utf8(s)
}

/// Well-formedness bound forced by the 8-byte length prefix: the string's
/// UTF-8 encoding must fit in a 64-bit length. Every string that exists in
/// memory satisfies this.
pub open spec fn str_len_ok(s: Seq<char>) -> bool {
    encode_utf8(s).len() <= u64::MAX
}

/// Splits one length-prefixed string off the front of a byte sequence,
/// returning the string and the unread remainder; fails on truncated or
/// invalid input.
pub open spec fn spec_split_str(b: Seq<u8>) -> Option<(Seq<char>, Seq<u8>)> {
    if b.len() < 8 {
        None
    } else {
        let n = spec_u64_from_le_bytes(b.take(8)) as int;
        if b.len() - 8 >= n && valid_utf8(b.subrange(8, 8 + n)) {
            Some((decode_utf8(b.subrange(8, 8 + n)), b.skip(8 + n)))
        } else {
            None
        }
    }
}

/// Parses a byte sequence that must hold exactly one string and nothing more.
pub open spec fn spec_parse_str(b: Seq<u8>) -> Option<Seq<char>> {
    match spec_split_str(b) {
        Some((s, rest)) => if rest.len() == 0 {
            Some(s)
        } else {
            None
        },
        None => None,
    }
}

/// The byte encoding of a socket address: family tag, raw address, port.
pub open spec fn spec_addr_bytes(a: SockAddr) -> Seq<u8> {
    match a.ip {
        IpAddress::V4(ip) => seq![4u8] + spec_u32_to_le_bytes(ip) + spec_u16_to_le_bytes(a.port),
        IpAddress::V6(ip) => seq![6u8] + spec_u128_to_le_bytes(ip) + spec_u16_to_le_bytes(a.port),
    }
}

/// Parses a byte sequence that must hold exactly one socket address.
pub open spec fn spec_parse_addr(b: Seq<u8>) -> Option<SockAddr> {
    if b.len() < 1 {
        None
    } else if b[0] == 4 {
        if b.len() == 7 {
            Some(
                SockAddr {
                    ip: IpAddress::V4(spec_u32_from_le_bytes(b.subrange(1, 5))),
                    port: spec_u16_from_le_bytes(b.subrange(5, 7)),
                },
            )
        } else {
            None
        }
    } else if b[0] == 6 {
        if b.len() == 19 {
            Some(
                SockAddr {
                    ip: IpAddress::V6(spec_u128_from_le_bytes(b.subrange(1, 17))),
                    port: spec_u16_from_le_bytes(b.subrange(17, 19)),
                },
            )
        } else {
            None
        }
    } else {
        None
    }
}

/// Relies on `String::from_utf8`: it succeeds exactly on valid UTF-8 input
/// and returns the string those bytes encode.
#[verifier::external_body]
fn bytes_to_string(v: Vec<u8>) -> (r: Option<String>)
    ensures
        r is Some <==> valid_utf8(v@),
        r matches Some(s) ==> s@ == decode_utf8(v@),
{
    String::from_utf8(v).ok()
}

/// Appends the byte encoding of a string to `out`.
pub fn push_str_bytes(out: &mut Vec<u8>, s: &str)
    ensures
        final(out)@ == old(out)@ + spec_str_bytes(s@),
{
    let mut utf8: Vec<u8> = s.as_bytes_vec();
    let n: u64 = utf8.len() as u64;
    let mut len_bytes: Vec<u8> = u64_to_le_bytes(n);
    out.append(&mut len_bytes);
    out.append(&mut utf8);
    assert(out@ =~= old(out)@ + spec_str_bytes(s@));
}

/// Appends the byte encoding of a socket address to `out`.
pub fn push_addr_bytes(out: &mut Vec<u8>, a: SockAddr)
    ensures
        final(out)@ == old(out)@ + spec_addr_bytes(a),
{
    match a.ip {
        IpAddress::V4(ip) => {
            out.push(4u8);
            let mut ip_bytes: Vec<u8> = u32_to_le_bytes(ip);
            out.append(&mut ip_bytes);
            let mut port_bytes: Vec<u8> = u16_to_le_bytes(a.port);
            out.append(&mut port_bytes);
            assert(out@ =~= old(out)@ + spec_addr_bytes(a));
        },
        IpAddress::V6(ip) => {
            out.push(6u8);
            let mut ip_bytes: Vec<u8> = u128_to_le_bytes(ip);
            out.append(&mut ip_bytes);
            let mut port_bytes: Vec<u8> = u16_to_le_bytes(a.port);
            out.append(&mut port_bytes);
            assert(out@ =~= old(out)@ + spec_addr_bytes(a));
        },
    }
}

/// Splits one length-prefixed string off the front of `b`.
pub fn split_str<'a>(b: &'a [u8]) -> (r: Option<(String, &'a [u8])>)
    ensures
        match r {
            Some((s, rest)) => spec_split_str(b@) == Some((s@, rest@)),
            None => spec_split_str(b@) is None,
        },
{
    let len: usize = b.len();
    if len < 8 {
        return None;
    }
    let prefix: &[u8] = slice_subrange(b, 0, 8);
    assert(prefix@ =~= b@.take(8));
    let n: u64 = u64_from_le_bytes(prefix);
    if ((len - 8) as u64) < n {
        return None;
    }
    let n_us: usize = n as usize;
    let utf8: Vec<u8> = slice_to_vec(slice_subrange(b, 8, 8 + n_us));
    let rest: &[u8] = slice_subrange(b, 8 + n_us, len);
    match bytes_to_string(utf8) {
        Some(s) => Some((s, rest)),
        None => None,
    }
}

/// Parses a buffer that must hold exactly one string.
pub fn parse_str(b: &[u8]) -> (r: Option<String>)
    ensures
        match r {
            Some(s) => spec_parse_str(b@) == Some(s@),
            None => spec_parse_str(b@) is None,
        },
{
    match split_str(b) {
        Some((s, rest)) => if rest.len() == 0 {
            Some(s)
        } else {
            None
        },
        None => None,
    }
}

/// Parses a buffer that must hold exactly one socket address.
pub fn parse_addr(b: &[u8]) -> (r: Option<SockAddr>)
    ensures
        match r {
            Some(a) => spec_parse_addr(b@) == Some(a),
            None => spec_parse_addr(b@) is None,
        },
{
    let len: usize = b.len();
    if len < 1 {
        return None;
    }
    let tag: u8 = *slice_index_get(b, 0);
    if tag == 4 {
        if len == 7 {
            let ip_slice: &[u8] = slice_subrange(b, 1, 5);
            let port_slice: &[u8] = slice_subrange(b, 5, 7);
            let ip: u32 = u32_from_le_bytes(ip_slice);
            let port: u16 = u16_from_le_bytes(port_slice);
            Some(SockAddr { ip: IpAddress::V4(ip), port })
        } else {
            None
        }
    } else if tag == 6 {
        if len == 19 {
            let ip_slice: &[u8] = slice_subrange(b, 1, 17);
            let port_slice: &[u8] = slice_subrange(b, 17, 19);
            let ip: u128 = u128_from_le_bytes(ip_slice);
            let port: u16 = u16_from_le_bytes(port_slice);
            Some(SockAddr { ip: IpAddress::V6(ip), port })
        } else {
            None
        }
    } else {
        None
    }
}

/// Law: a string's byte encoding parses back to the same string.
pub proof fn lemma_str_round_trip(s: Seq<char>)
    requires
        str_len_ok(s),
    ensures
        spec_parse_str(spec_str_bytes(s)) == Some(s),
{
    lemma_auto_spec_u64_to_from_le_bytes();
    broadcast use vstd::utf8::encode_utf8_valid_utf8;
    broadcast use vstd::utf8::encode_utf8_decode_utf8;

    let b = spec_str_bytes(s);
    let u = encode_utf8(s);
    assert(b.take(8) =~= spec_u64_to_le_bytes(u.len() as u64));
    assert(b.subrange(8, 8 + u.len() as int) =~= u);
    assert(b.skip(8 + u.len() as int) =~= Seq::<u8>::empty());
}

/// Law: no strict prefix of a string's byte encoding parses as a string.
pub proof fn lemma_str_truncated(s: Seq<char>, n: int)
    requires
        str_len_ok(s),
        0 <= n < spec_str_bytes(s).len(),
    ensures
        spec_parse_str(spec_str_bytes(s).take(n)) is None,
{
    lemma_auto_spec_u64_to_from_le_bytes();
    let b = spec_str_bytes(s);
    let u = encode_utf8(s);
    let t = b.take(n);
    if n >= 8 {
        assert(t.take(8) =~= spec_u64_to_le_bytes(u.len() as u64));
        assert(t.len() - 8 < u.len());
    }
}

/// Law: a socket address's byte encoding parses back to the same address.
pub proof fn lemma_addr_round_trip(a: SockAddr)
    ensures
        spec_parse_addr(spec_addr_bytes(a)) == Some(a),
{
    lemma_auto_spec_u16_to_from_le_bytes();
    lemma_auto_spec_u32_to_from_le_bytes();
    lemma_auto_spec_u128_to_from_le_bytes();
    let b = spec_addr_bytes(a);
    match a.ip {
        IpAddress::V4(ip) => {
            assert(b.subrange(1, 5) =~= spec_u32_to_le_bytes(ip));
            assert(b.subrange(5, 7) =~= spec_u16_to_le_bytes(a.port));
        },
        IpAddress::V6(ip) => {
            assert(b.subrange(1, 17) =~= spec_u128_to_le_bytes(ip));
            assert(b.subrange(17, 19) =~= spec_u16_to_le_bytes(a.port));
        },
    }
}

/// Law: no strict prefix of an address's byte encoding parses as an address.
pub proof fn lemma_addr_truncated(a: SockAddr, n: int)
    requires
        0 <= n < spec_addr_bytes(a).len(),
    ensures
        spec_parse_addr(spec_addr_bytes(a).take(n)) is None,
{
    lemma_auto_spec_u16_to_from_le_bytes();
    lemma_auto_spec_u32_to_from_le_bytes();
    lemma_auto_spec_u128_to_from_le_bytes();
}

} // verus!
