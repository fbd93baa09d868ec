//! Plain models of the socket addresses the engine reasons about.
//!
//! The engine never parses or routes on addresses; it only compares them,
//! stores IPv4 ones, and distinguishes IPv4 senders from everything else. So
//! an address is modelled by the values those decisions read: the four IPv4
//! octets packed into a `u32` plus a port, or the 128 IPv6 bits split into
//! two `u64` halves plus a port. The unverified edge converts between these
//! and the operating system's own address types, one for one.

use vstd::prelude::*;

verus! {

/// An IPv4 UDP endpoint: the packed address octets and the port.
#[derive(Clone, Copy, Debug, PartialEq, Eq, Structural)]
pub struct Ipv4Endpoint {
    /// The four address octets, most significant first.
    pub ip: u32,
    /// The UDP port.
    pub port: u16,
}

/// An IPv6 UDP endpoint. The relay observes such senders but never tracks
/// or forwards to them, so only identity matters here.
#[derive(Clone, Copy, Debug, PartialEq, Eq, Structural)]
pub struct Ipv6Endpoint {
    /// The upper 64 bits of the address.
    pub ip_hi: u64,
    /// The lower 64 bits of the address.
    pub ip_lo: u64,
    /// The UDP port.
    pub port: u16,
}

/// The sender of a datagram, as the pumps see it: either an IPv4 endpoint,
/// the only kind the engine tracks and bridges, or an IPv6 one.
#[derive(Clone, Copy, Debug, PartialEq, Eq, Structural)]
pub enum Endpoint {
    V4(Ipv4Endpoint),
    V6(Ipv6Endpoint),
}

impl Endpoint {
    /// Whether this sender is one the engine acts on.
    pub open spec fn is_ipv4(self) -> bool {
        self is V4
    }
}

} // verus!
