//! Which of the machine's interfaces leads to the local network.

use crate::net::{IpAddr, Ipv4Addr};
use vstd::prelude::*;

verus! {

/// The address of an IPv4 interface.
#[derive(Clone, Copy, Debug, PartialEq, Eq, Structural)]
pub struct Ifv4Addr {
    pub ip: Ipv4Addr,
    pub netmask: Ipv4Addr,
    pub broadcast: Option<Ipv4Addr>,
}

/// The address of an interface. Nothing is asked of IPv6 interfaces.
#[derive(Clone, Copy, Debug, PartialEq, Eq, Structural)]
pub enum IfAddr {
    V4(Ifv4Addr),
    V6,
}

/// Why no address was picked.
#[derive(Clone, Copy, Debug, PartialEq, Eq, Structural)]
pub enum PickErr {
    NoBroadcastAddr,
    NoLocalIp,
}

/// The text of an error.
pub open spec fn pick_err_text(err: PickErr) -> Seq<char> {
    match err {
        PickErr::NoBroadcastAddr => "Couldn't select a broadcast address"@,
        PickErr::NoLocalIp => "Couldn't determine local IP"@,
    }
}

impl PickErr {
    /// What to tell the user.
    pub fn message(&self) -> (r: &'static str)
        ensures
            r@ == pick_err_text(*self),
    {
        match self {
            PickErr::NoBroadcastAddr => "Couldn't select a broadcast address",
            PickErr::NoLocalIp => "Couldn't determine local IP",
        }
    }
}

/// Whether an interface is taken to be on the local network: it is no loopback interface, its
/// netmask ends in 0 and its address begins with 192.
pub open spec fn is_local(addr: Ifv4Addr) -> bool {
    addr.ip.0 != 127 && addr.netmask.3 == 0 && addr.ip.0 == 192
}

/// The broadcast address that an interface offers.
pub open spec fn broadcast_of(addr: IfAddr) -> Option<Ipv4Addr> {
    match addr {
        IfAddr::V4(v4addr) if is_local(v4addr) => v4addr.broadcast,
        _ => None,
    }
}

/// The local address that an interface offers.
pub open spec fn local_ip_of(addr: IfAddr) -> Option<Ipv4Addr> {
    match addr {
        IfAddr::V4(v4addr) if is_local(v4addr) => Some(v4addr.ip),
        _ => None,
    }
}

/// Tells whether an interface is taken to be on the local network.
fn local(v4addr: &Ifv4Addr) -> (r: bool)
    ensures
        r == is_local(*v4addr),
{
    if v4addr.ip.0 == 127 {
        return false;
    }
    // Netmasks need to end in 0 for local IPs
    if v4addr.netmask.3 != 0 {
        return false;
    }
    v4addr.ip.0 == 192
}

/// Picks the broadcast address of the first interface that offers one.
pub fn select_broadcast_addr(addrs: &Vec<IfAddr>) -> (r: Result<IpAddr, PickErr>)
    ensures
        match r {
            Ok(ip) => exists|i: int|
                {
                    &&& 0 <= i < addrs@.len()
                    &&& #[trigger] broadcast_of(addrs@[i]) matches Some(v4)
                    &&& ip == IpAddr::V4(v4)
                    &&& forall|j: int|
                        0 <= j < i ==> (#[trigger] broadcast_of(addrs@[j])) is None
                },
            Err(e) => e == PickErr::NoBroadcastAddr && forall|j: int|
                0 <= j < addrs@.len() ==> (#[trigger] broadcast_of(addrs@[j])) is None,
        },
{
    let mut i: usize = 0;
    while i < addrs.len()
        invariant
            i <= addrs@.len(),
            forall|j: int| 0 <= j < i ==> (#[trigger] broadcast_of(addrs@[j])) is None,
        decreases addrs@.len() - i,
    {
        assert(broadcast_of(addrs@[i as int]) == broadcast_of(addrs@[i as int]));
        if let IfAddr::V4(v4addr) = &addrs[i] {
            if local(v4addr) {
                if let Some(broadcast) = v4addr.broadcast {
                    return Ok(IpAddr::V4(broadcast));
                }
            }
        }
        i = i + 1;
    }
    Err(PickErr::NoBroadcastAddr)
}

/// Picks the address of the first local interface.
pub fn find_local_ip(addrs: &Vec<IfAddr>) -> (r: Result<Ipv4Addr, PickErr>)
    ensures
        match r {
            Ok(ip) => exists|i: int|
                {
                    &&& 0 <= i < addrs@.len()
                    &&& #[trigger] local_ip_of(addrs@[i]) == Some(ip)
                    &&& forall|j: int| 0 <= j < i ==> (#[trigger] local_ip_of(addrs@[j])) is None
                },
            Err(e) => e == PickErr::NoLocalIp && forall|j: int|
                0 <= j < addrs@.len() ==> (#[trigger] local_ip_of(addrs@[j])) is None,
        },
{
    let mut i: usize = 0;
    while i < addrs.len()
        invariant
            i <= addrs@.len(),
            forall|j: int| 0 <= j < i ==> (#[trigger] local_ip_of(addrs@[j])) is None,
        decreases addrs@.len() - i,
    {
        assert(local_ip_of(addrs@[i as int]) == local_ip_of(addrs@[i as int]));
        if let IfAddr::V4(v4addr) = &addrs[i] {
            if local(v4addr) {
                return Ok(v4addr.ip);
            }
        }
        i = i + 1;
    }
    Err(PickErr::NoLocalIp)
}

/// An interface offers its own addresses and no others, and offers them exactly if it is an IPv4
/// interface with an address that begins with 192 and a netmask that ends in 0. A broadcast address it
/// offers only if it has one.
pub proof fn law_local_interfaces_offer_their_addresses(addr: IfAddr)
    ensures
        match addr {
            IfAddr::V4(v4addr) => if v4addr.ip.0 == 192 && v4addr.netmask.3 == 0 {
                &&& local_ip_of(addr) == Some(v4addr.ip)
                &&& broadcast_of(addr) == v4addr.broadcast
            } else {
                &&& local_ip_of(addr) is None
                &&& broadcast_of(addr) is None
            },
            IfAddr::V6 => local_ip_of(addr) is None && broadcast_of(addr) is None,
        },
{
}

/// Neither the loopback interface nor anything but an address that begins with 192 counts as local, and
/// what counts depends on nothing but the first octet of the address and the last of the netmask.
pub proof fn law_what_is_local(a: Ifv4Addr, b: Ifv4Addr)
    ensures
        a.ip.0 == 127 ==> !is_local(a),
        is_local(a) ==> a.ip.0 == 192 && a.netmask.3 == 0,
        a.ip.0 == 192 && a.netmask.3 == 0 ==> is_local(a),
        a.ip.0 == b.ip.0 && a.netmask.3 == b.netmask.3 ==> is_local(a) == is_local(b),
{
}

/// Each error tells the user what is wrong.
pub proof fn law_errors_say_what_is_wrong(err: PickErr)
    ensures
        err is NoBroadcastAddr ==> pick_err_text(err) == "Couldn't select a broadcast address"@,
        err is NoLocalIp ==> pick_err_text(err) == "Couldn't determine local IP"@,
{
}

} // verus!
