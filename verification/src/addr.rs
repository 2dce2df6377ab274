//! Socket addresses as plain values.

use vstd::prelude::*;

verus! {

/// An IP address: IPv4 as a 32-bit number, IPv6 as a 128-bit number
/// (both in network byte order read as a big-endian integer).
#[derive(Clone, Copy, Debug, PartialEq, Eq, Structural)]
pub enum IpAddress {
    V4(u32),
    V6(u128),
}

/// A socket address. Two addresses are the same key exactly when all of
/// their fields are equal, as for std's socket addresses.
#[derive(Clone, Copy, Debug, PartialEq, Eq, Structural)]
#[allow(inconsistent_fields)]
pub enum SockAddr {
    V4 { ip: u32, port: u16 },
    V6 { ip: u128, port: u16, flowinfo: u32, scope_id: u32 },
}

impl SockAddr {
    /// The address that `SocketAddr::new(ip, port)` builds: an IPv6 address
    /// gets no flow information and no scope.
    pub open spec fn spec_new(ip: IpAddress, port: u16) -> SockAddr {
        match ip {
            IpAddress::V4(a) => SockAddr::V4 { ip: a, port },
            IpAddress::V6(a) => SockAddr::V6 { ip: a, port, flowinfo: 0, scope_id: 0 },
        }
    }

    pub open spec fn spec_ip(self) -> IpAddress {
        match self {
            SockAddr::V4 { ip, .. } => IpAddress::V4(ip),
            SockAddr::V6 { ip, .. } => IpAddress::V6(ip),
        }
    }

    pub open spec fn spec_port(self) -> u16 {
        match self {
            SockAddr::V4 { port, .. } => port,
            SockAddr::V6 { port, .. } => port,
        }
    }

    /// The unspecified address of the same family, on port 0.
    pub open spec fn spec_unspecified_like(self) -> SockAddr {
        match self {
            SockAddr::V4 { .. } => SockAddr::V4 { ip: 0, port: 0 },
            SockAddr::V6 { .. } => SockAddr::V6 { ip: 0, port: 0, flowinfo: 0, scope_id: 0 },
        }
    }

    pub fn new(ip: IpAddress, port: u16) -> (r: SockAddr)
        ensures
            r == SockAddr::spec_new(ip, port),
    {
        match ip {
            IpAddress::V4(a) => SockAddr::V4 { ip: a, port },
            IpAddress::V6(a) => SockAddr::V6 { ip: a, port, flowinfo: 0, scope_id: 0 },
        }
    }

    pub fn ip(&self) -> (r: IpAddress)
        ensures
            r == self.spec_ip(),
    {
        match self {
            SockAddr::V4 { ip, .. } => IpAddress::V4(*ip),
            SockAddr::V6 { ip, .. } => IpAddress::V6(*ip),
        }
    }

    pub fn port(&self) -> (r: u16)
        ensures
            r == self.spec_port(),
    {
        match self {
            SockAddr::V4 { port, .. } => *port,
            SockAddr::V6 { port, .. } => *port,
        }
    }

    /// The address a socket binds to before it talks to `self`: the
    /// unspecified address of the same family, with port 0 so that one is
    /// chosen later.
    pub fn unspecified_like(&self) -> (r: SockAddr)
        ensures
            r == self.spec_unspecified_like(),
            r.spec_port() == 0,
    {
        match self {
            SockAddr::V4 { .. } => SockAddr::V4 { ip: 0, port: 0 },
            SockAddr::V6 { .. } => SockAddr::V6 { ip: 0, port: 0, flowinfo: 0, scope_id: 0 },
        }
    }

    /// This address's IP with another port, as `SocketAddr::new(self.ip(), port)`.
    pub fn with_port(&self, port: u16) -> (r: SockAddr)
        ensures
            r == SockAddr::spec_new(self.spec_ip(), port),
            r.spec_ip() == self.spec_ip(),
            r.spec_port() == port,
    {
        SockAddr::new(self.ip(), port)
    }
}

} // verus!
