//! What is asked of the gateway to make a server reachable from outside.

use crate::net::Ipv4Addr;
use vstd::prelude::*;

verus! {

/// How long the gateway is to keep a mapping, in seconds. An hour is enough, given that the mapping
/// is taken back at the end.
pub const LEASE_SECONDS: u32 = 3600;

/// The name under which the gateway lists a mapping.
pub const MAPPING_NAME: &'static str = "hubtain";

/// A protocol whose ports a gateway can map.
#[derive(Clone, Copy, Debug, PartialEq, Eq, Structural)]
pub enum PortMappingProtocol {
    TCP,
    UDP,
}

/// A request to map any external port to a local address.
#[derive(Clone, Copy, Debug, PartialEq, Eq, Structural)]
pub struct AddPort {
    pub protocol: PortMappingProtocol,
    pub local_ip: Ipv4Addr,
    pub local_port: u16,
    pub lease_seconds: u32,
}

/// A request to take a mapping back.
#[derive(Clone, Copy, Debug, PartialEq, Eq, Structural)]
pub struct RemovePort {
    pub protocol: PortMappingProtocol,
    pub port: u16,
}

/// What to ask of the gateway so that connections reach `local_port` on this machine. The local
/// address has to be given for some routers to work.
pub fn get_external_addr(local_ip: Ipv4Addr, local_port: u16) -> (r: AddPort)
    ensures
        r == (AddPort {
            protocol: PortMappingProtocol::TCP,
            local_ip,
            local_port,
            lease_seconds: 3600,
        }),
{
    AddPort {
        protocol: PortMappingProtocol::TCP,
        local_ip,
        local_port,
        lease_seconds: LEASE_SECONDS,
    }
}

/// A mapping that the gateway holds for us.
#[derive(Debug)]
pub struct IGDHandle {
    port: u16,
}

impl IGDHandle {
    /// The external port.
    pub closed spec fn external_port(&self) -> u16 {
        self.port
    }

    /// The mapping from the external port `port`.
    pub fn new(port: u16) -> (r: Self)
        ensures
            r.external_port() == port,
    {
        IGDHandle { port }
    }

    /// Gives the mapping up: what to ask of the gateway.
    pub fn free(self) -> (r: RemovePort)
        ensures
            r == (RemovePort { protocol: PortMappingProtocol::TCP, port: self.external_port() }),
    {
        RemovePort { protocol: PortMappingProtocol::TCP, port: self.port }
    }
}

/// A mapping is asked for an hour, under the name of the program.
pub proof fn law_mapping_terms()
    ensures
        LEASE_SECONDS == 60 * 60,
        MAPPING_NAME@ == "hubtain"@,
{
}

/// What is asked of the gateway is taken back in the same terms: a mapping of a TCP port to the local
/// address and port, for an hour, and the end of the mapping of whichever TCP port the gateway gave.
pub proof fn law_mapping_is_taken_back(
    local_ip: Ipv4Addr,
    local_port: u16,
    asked: AddPort,
    external_port: u16,
    handle: IGDHandle,
    taken_back: RemovePort,
)
    requires
        call_ensures(get_external_addr, (local_ip, local_port), asked),
        call_ensures(IGDHandle::new, (external_port,), handle),
        call_ensures(IGDHandle::free, (handle,), taken_back),
    ensures
        asked.local_ip == local_ip,
        asked.local_port == local_port,
        asked.protocol is TCP,
        asked.lease_seconds == 60 * 60,
        taken_back.protocol == asked.protocol,
        taken_back.port == external_port,
{
}

} // verus!
