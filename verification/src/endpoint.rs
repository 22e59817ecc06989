//! Network endpoints as plain values: an address and a port.

use vstd::prelude::*;

verus! {

/// An IP address with a port. The addresses are the numbers that their bytes spell, most
/// significant byte first.
#[allow(inconsistent_fields)]
#[derive(Clone, Copy, Debug, PartialEq, Eq, Structural)]
pub enum Endpoint {
    V4 { ip: u32, port: u16 },
    V6 { ip: u128, port: u16, flowinfo: u32, scope_id: u32 },
}

impl Endpoint {
    /// Whether the address is an IPv4 address.
    pub open spec fn spec_is_ipv4(self) -> bool {
        self is V4
    }

    /// Whether the address is an IPv4 address.
    pub fn is_ipv4(&self) -> (v4: bool)
        ensures
            v4 == self.spec_is_ipv4(),
    {
        match self {
            Endpoint::V4 { .. } => true,
            Endpoint::V6 { .. } => false,
        }
    }

    /// Whether the address is one of 127.0.0.0/8, or `::1`.
    pub open spec fn spec_is_loopback(self) -> bool {
        match self {
            Endpoint::V4 { ip, .. } => 0x7f00_0000 <= ip <= 0x7fff_ffff,
            Endpoint::V6 { ip, .. } => ip == 1,
        }
    }

    /// Whether the address stands for this machine itself.
    pub fn is_loopback(&self) -> (loopback: bool)
        ensures
            loopback == self.spec_is_loopback(),
    {
        match *self {
            Endpoint::V4 { ip, .. } => 0x7f00_0000 <= ip && ip <= 0x7fff_ffff,
            Endpoint::V6 { ip, .. } => ip == 1,
        }
    }

    /// The port.
    pub open spec fn spec_port(self) -> u16 {
        match self {
            Endpoint::V4 { port, .. } => port,
            Endpoint::V6 { port, .. } => port,
        }
    }

    /// The port.
    pub fn port(&self) -> (port: u16)
        ensures
            port == self.spec_port(),
    {
        match *self {
            Endpoint::V4 { port, .. } => port,
            Endpoint::V6 { port, .. } => port,
        }
    }

    /// The same address with another port, and without the flow and scope of IPv6.
    pub open spec fn spec_at_port(self, new_port: u16) -> Endpoint {
        match self {
            Endpoint::V4 { ip, .. } => Endpoint::V4 { ip, port: new_port },
            Endpoint::V6 { ip, .. } => Endpoint::V6 { ip, port: new_port, flowinfo: 0, scope_id: 0 },
        }
    }

    /// The same address with another port.
    pub fn at_port(&self, new_port: u16) -> (endpoint: Endpoint)
        ensures
            endpoint == self.spec_at_port(new_port),
    {
        match *self {
            Endpoint::V4 { ip, .. } => Endpoint::V4 { ip, port: new_port },
            Endpoint::V6 { ip, .. } => Endpoint::V6 { ip, port: new_port, flowinfo: 0, scope_id: 0 },
        }
    }
}

/// The loopback addresses of IPv4 are those whose first byte is 127, whatever follows; IPv6 has
/// one. The port does not matter.
pub proof fn law_loopback_goes_by_the_address(endpoint: Endpoint, loopback: bool)
    requires
        call_ensures(Endpoint::is_loopback, (&endpoint,), loopback),
    ensures
        endpoint matches Endpoint::V4 { ip, .. } ==> (loopback <==> ip / 0x100_0000 == 127),
        endpoint matches Endpoint::V6 { ip, .. } ==> (loopback <==> ip == 1),
{
}

/// An endpoint at another port has that port, and the same address; at its own port an IPv4
/// endpoint is itself.
pub proof fn law_another_port_keeps_the_address(endpoint: Endpoint, port: u16, moved: Endpoint)
    requires
        call_ensures(Endpoint::at_port, (&endpoint, port), moved),
    ensures
        moved.spec_port() == port,
        match (endpoint, moved) {
            (Endpoint::V4 { ip: a, .. }, Endpoint::V4 { ip: b, port: at }) => a == b && at == port,
            (
                Endpoint::V6 { ip: a, .. },
                Endpoint::V6 { ip: b, port: at, flowinfo, scope_id },
            ) => a == b && at == port && flowinfo == 0 && scope_id == 0,
            _ => false,
        },
{
}

/// An endpoint is an IPv4 endpoint or an IPv6 one, and its port is the one that it was made with.
pub proof fn law_endpoint_is_what_it_was_made_of(ip: u32, wide: u128, port: u16, v4: bool, v6: bool)
    requires
        call_ensures(Endpoint::is_ipv4, (&Endpoint::V4 { ip, port },), v4),
        call_ensures(
            Endpoint::is_ipv4,
            (&(Endpoint::V6 { ip: wide, port, flowinfo: 0, scope_id: 0 }),),
            v6,
        ),
    ensures
        v4,
        !v6,
        (Endpoint::V4 { ip, port }).spec_port() == port,
        (Endpoint::V6 { ip: wide, port, flowinfo: 0, scope_id: 0 }).spec_port() == port,
{
}

} // verus!
