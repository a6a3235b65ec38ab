//! Internet addresses as plain values.

use vstd::prelude::*;

verus! {

/// An IP address: the 32 or 128 bits of it, most significant first.
#[derive(Debug, Clone, Copy, PartialEq, Eq, Hash, Structural)]
pub enum IpAddr {
    V4(u32),
    V6(u128),
}

/// A socket address: an IP address with a port and, for version 6, the flow
/// information and the scope.
#[derive(Debug, Clone, Copy, PartialEq, Eq, Hash, Structural)]
#[allow(inconsistent_fields)]
pub enum SocketAddr {
    V4 { ip: u32, port: u16 },
    V6 { ip: u128, port: u16, flowinfo: u32, scope_id: u32 },
}

/// The address 127.0.0.1.
pub const LOOPBACK: u32 = 0x7f00_0001;

impl SocketAddr {
    /// The port of the address.
    pub open spec fn port_number(self) -> u16 {
        match self {
            SocketAddr::V4 { port, .. } => port,
            SocketAddr::V6 { port, .. } => port,
        }
    }

    /// The address 127.0.0.1 with the given port.
    pub open spec fn on_loopback(port: u16) -> SocketAddr {
        SocketAddr::V4 { ip: LOOPBACK, port }
    }

    pub fn port(&self) -> (port: u16)
        ensures
            port == self.port_number(),
    {
        match self {
            SocketAddr::V4 { port, .. } => *port,
            SocketAddr::V6 { port, .. } => *port,
        }
    }

    /// The address on which a front listens: 127.0.0.1 with the given port.
    pub fn loopback(port: u16) -> (address: SocketAddr)
        ensures
            address == SocketAddr::on_loopback(port),
    {
        SocketAddr::V4 { ip: LOOPBACK, port }
    }
}

/// The port of a socket address is the one that was put into it, for either
/// version and whatever the rest of the address is.
pub proof fn port_is_that_of_the_address(
    ip4: u32,
    ip6: u128,
    port: u16,
    flowinfo: u32,
    scope_id: u32,
)
    ensures
        (SocketAddr::V4 { ip: ip4, port }).port_number() == port,
        (SocketAddr::V6 { ip: ip6, port, flowinfo, scope_id }).port_number() == port,
{
}

/// A front listens on 127.0.0.1, and on the very port that was asked for.
pub proof fn fronts_listen_on_loopback(port: u16)
    ensures
        SocketAddr::on_loopback(port) == (SocketAddr::V4 { ip: 0x7f00_0001, port }),
{
}

} // verus!
