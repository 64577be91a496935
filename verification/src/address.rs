//! Network endpoints as plain values.

use vstd::prelude::*;

verus! {

/// An IP address: the 32 bits of an IPv4 address or the 128 bits of an IPv6
/// address, most significant byte first. The two families never compare equal.
#[derive(Clone, Copy, Debug, PartialEq, Eq, Structural, Hash)]
pub enum PeerIp {
    V4(u32),
    V6(u128),
}

/// The endpoint that identifies a session target: an IP address and a TCP port,
/// and for IPv6 the flow information and scope that belong to the endpoint.
#[derive(Clone, Copy, Debug, PartialEq, Eq, Structural, Hash)]
#[allow(inconsistent_fields)]
pub enum PeerAddr {
    V4 { ip: u32, port: u16 },
    V6 { ip: u128, port: u16, flowinfo: u32, scope_id: u32 },
}

impl PeerAddr {
    /// The endpoint at `ip` and `port`, as a specification. An IPv6 endpoint
    /// made this way has no flow information and no scope.
    pub open spec fn spec_new(ip: PeerIp, port: u16) -> PeerAddr {
        match ip {
            PeerIp::V4(bits) => PeerAddr::V4 { ip: bits, port },
            PeerIp::V6(bits) => PeerAddr::V6 { ip: bits, port, flowinfo: 0, scope_id: 0 },
        }
    }

    /// The endpoint at `ip` and `port`.
    pub fn new(ip: PeerIp, port: u16) -> (addr: PeerAddr)
        ensures
            addr == PeerAddr::spec_new(ip, port),
            addr.spec_ip() == ip,
            addr.spec_port() == port,
    {
        match ip {
            PeerIp::V4(bits) => PeerAddr::V4 { ip: bits, port },
            PeerIp::V6(bits) => PeerAddr::V6 { ip: bits, port, flowinfo: 0, scope_id: 0 },
        }
    }

    /// The IP address of the endpoint, as a specification.
    pub open spec fn spec_ip(self) -> PeerIp {
        match self {
            PeerAddr::V4 { ip, .. } => PeerIp::V4(ip),
            PeerAddr::V6 { ip, .. } => PeerIp::V6(ip),
        }
    }

    /// The TCP port of the endpoint, as a specification.
    pub open spec fn spec_port(self) -> u16 {
        match self {
            PeerAddr::V4 { port, .. } => port,
            PeerAddr::V6 { port, .. } => port,
        }
    }

    /// The IP address of the endpoint.
    pub fn ip(&self) -> (r: PeerIp)
        ensures
            r == self.spec_ip(),
    {
        match self {
            PeerAddr::V4 { ip, .. } => PeerIp::V4(*ip),
            PeerAddr::V6 { ip, .. } => PeerIp::V6(*ip),
        }
    }

    /// The TCP port of the endpoint.
    pub fn port(&self) -> (r: u16)
        ensures
            r == self.spec_port(),
    {
        match self {
            PeerAddr::V4 { port, .. } => *port,
            PeerAddr::V6 { port, .. } => *port,
        }
    }
}

} // verus!
