//! Network addresses as plain values.
//!
//! Peers advertise addresses over mDNS and are reached over TCP; the
//! logic here only reads their numeric form, so an address is held as
//! its octets (IPv4) or 16-bit segments (IPv6) plus a port.

use vstd::prelude::*;

verus! {

/// An IPv4 or IPv6 address.
#[derive(Clone, Copy, Debug, PartialEq, Eq, Structural)]
pub enum IpAddress {
    /// The four octets, most significant first.
    V4(u8, u8, u8, u8),
    /// The eight 16-bit segments, most significant first.
    V6(u16, u16, u16, u16, u16, u16, u16, u16),
}

/// An IP address together with a TCP/UDP port.
#[derive(Clone, Copy, Debug, PartialEq, Eq, Structural)]
pub struct SocketAddress {
    pub ip: IpAddress,
    pub port: u16,
}

/// The address is an IPv4 address.
pub open spec fn spec_is_ipv4(a: IpAddress) -> bool {
    a is V4
}

/// The loopback addresses: `127.0.0.0/8` and `::1`.
pub open spec fn spec_is_loopback(a: IpAddress) -> bool {
    match a {
        IpAddress::V4(o0, _, _, _) => o0 == 127,
        IpAddress::V6(s0, s1, s2, s3, s4, s5, s6, s7) => s0 == 0 && s1 == 0 && s2 == 0 && s3 == 0
            && s4 == 0 && s5 == 0 && s6 == 0 && s7 == 1,
    }
}

/// The IPv4 link-local block `169.254.0.0/16`.
pub open spec fn spec_is_link_local_v4(a: IpAddress) -> bool {
    match a {
        IpAddress::V4(o0, o1, _, _) => o0 == 169 && o1 == 254,
        IpAddress::V6(..) => false,
    }
}

impl IpAddress {
    /// True for an IPv4 address.
    pub fn is_ipv4(&self) -> (b: bool)
        ensures
            b == spec_is_ipv4(*self),
    {
        match self {
            IpAddress::V4(..) => true,
            IpAddress::V6(..) => false,
        }
    }

    /// True for a loopback address (`127.0.0.0/8`, `::1`).
    pub fn is_loopback(&self) -> (b: bool)
        ensures
            b == spec_is_loopback(*self),
    {
        match self {
            IpAddress::V4(o0, _, _, _) => *o0 == 127,
            IpAddress::V6(s0, s1, s2, s3, s4, s5, s6, s7) => *s0 == 0 && *s1 == 0 && *s2 == 0
                && *s3 == 0 && *s4 == 0 && *s5 == 0 && *s6 == 0 && *s7 == 1,
        }
    }

    /// True for an IPv4 link-local address (`169.254.0.0/16`).
    pub fn is_link_local_v4(&self) -> (b: bool)
        ensures
            b == spec_is_link_local_v4(*self),
    {
        match self {
            IpAddress::V4(o0, o1, _, _) => *o0 == 169 && *o1 == 254,
            IpAddress::V6(..) => false,
        }
    }
}

} // verus!
