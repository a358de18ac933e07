//! Plain-value model of a socket address.
//!
//! The agents and the server reason about peer addresses, so the library
//! carries them as plain integers: a v4 address is 32 bits, a v6 address
//! 128 bits, and a port 16 bits. Code at the edge converts between this
//! type and the platform's own socket address type.

use vstd::prelude::*;

verus! {

/// An IP address, v4 or v6, as its raw integer value.
#[derive(Clone, Copy, PartialEq, Eq, Structural, Debug)]
pub enum IpAddress {
    V4(u32),
    V6(u128),
}

/// A socket address: an IP address together with a port.
#[derive(Clone, Copy, PartialEq, Eq, Structural, Debug)]
pub struct SockAddr {
    pub ip: IpAddress,
    pub port: u16,
}

impl SockAddr {
    /// Builds a v4 socket address.
    pub fn v4(ip: u32, port: u16) -> (r: SockAddr)
        ensures
            r == (SockAddr { ip: IpAddress::V4(ip), port }),
    {
        SockAddr { ip: IpAddress::V4(ip), port }
    }

    /// Builds a v6 socket address.
    pub fn v6(ip: u128, port: u16) -> (r: SockAddr)
        ensures
            r == (SockAddr { ip: IpAddress::V6(ip), port }),
    {
        SockAddr { ip: IpAddress::V6(ip), port }
    }
}

} // verus!
