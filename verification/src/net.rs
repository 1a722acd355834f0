//! Network addresses.

use vstd::prelude::*;

verus! {

/// An IPv4 address: its four octets.
#[derive(Clone, Copy, Debug, PartialEq, Eq, Structural)]
pub struct Ipv4Addr(pub u8, pub u8, pub u8, pub u8);

/// An IP address. An IPv6 address is held as its 128 bits.
#[derive(Clone, Copy, Debug, PartialEq, Eq, Structural)]
pub enum IpAddr {
    V4(Ipv4Addr),
    V6(u128),
}

/// The address of a socket.
#[derive(Clone, Copy, Debug, PartialEq, Eq, Structural)]
pub enum SocketAddr {
    V4 { ip: Ipv4Addr, port: u16 },
    V6 { bits: u128, port: u16, flowinfo: u32, scope_id: u32 },
}

impl SocketAddr {
    /// The port of an address.
    pub open spec fn port_of(self) -> u16 {
        match self {
            SocketAddr::V4 { port, .. } => port,
            SocketAddr::V6 { port, .. } => port,
        }
    }

    /// The same address with another port.
    pub open spec fn with_port(self, new_port: u16) -> SocketAddr {
        match self {
            SocketAddr::V4 { ip, .. } => SocketAddr::V4 { ip, port: new_port },
            SocketAddr::V6 { bits, flowinfo, scope_id, .. } => SocketAddr::V6 {
                bits,
                port: new_port,
                flowinfo,
                scope_id,
            },
        }
    }

    /// The port of this address.
    pub fn port(&self) -> (r: u16)
        ensures
            r == self.port_of(),
    {
        match self {
            SocketAddr::V4 { port, .. } => *port,
            SocketAddr::V6 { port, .. } => *port,
        }
    }

    /// Changes the port and nothing else.
    pub fn set_port(&mut self, new_port: u16)
        ensures
            *final(self) == old(self).with_port(new_port),
            final(self).port_of() == new_port,
    {
        *self = match *self {
            SocketAddr::V4 { ip, .. } => SocketAddr::V4 { ip, port: new_port },
            SocketAddr::V6 { bits, flowinfo, scope_id, .. } => SocketAddr::V6 {
                bits,
                port: new_port,
                flowinfo,
                scope_id,
            },
        };
    }
}

/// Each address has the port that it was made with.
pub proof fn law_port_is_read(ip: Ipv4Addr, bits: u128, port: u16, flowinfo: u32, scope_id: u32)
    ensures
        (SocketAddr::V4 { ip, port }).port_of() == port,
        (SocketAddr::V6 { bits, port, flowinfo, scope_id }).port_of() == port,
{
}

/// An address whose port is set has that port, whichever it is, and all else of the address is as it
/// was: its version and IP address, and the flow info and the scope of an IPv6 address.
pub proof fn law_port_is_set(addr: SocketAddr, port: u16)
    ensures
        addr.with_port(port).port_of() == port,
        match (addr, addr.with_port(port)) {
            (SocketAddr::V4 { ip, .. }, SocketAddr::V4 { ip: kept_ip, port: set_port }) => {
                &&& kept_ip == ip
                &&& set_port == port
            },
            (
                SocketAddr::V6 { bits, flowinfo, scope_id, .. },
                SocketAddr::V6 {
                    bits: kept_bits,
                    port: set_port,
                    flowinfo: kept_flowinfo,
                    scope_id: kept_scope_id,
                },
            ) => {
                &&& kept_bits == bits
                &&& set_port == port
                &&& kept_flowinfo == flowinfo
                &&& kept_scope_id == scope_id
            },
            _ => false,
        },
{
}

/// The port that is set last counts, and setting the port that is there changes nothing. Addresses
/// that differ in no more than the port are the same once they are given the same port.
pub proof fn law_last_port_counts(addr: SocketAddr, first: u16, last: u16)
    ensures
        addr.with_port(first).with_port(last) == addr.with_port(last),
        addr.with_port(addr.port_of()) == addr,
        first != last ==> addr.with_port(first) != addr.with_port(last),
{
}

} // verus!
