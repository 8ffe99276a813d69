//! Which local addresses can be made reachable from outside, and in which order the ways
//! of doing so are tried.
use vstd::prelude::*;
use crate::communication::eventgroup::is_private_v4;
use crate::net::{addr_port, IpValue, NetAddr, NetAddrV4, NetAddrV6};

verus! {

/// Why an address cannot be made public.
#[derive(Copy, Clone, Eq, PartialEq, Structural, Debug)]
pub enum AddrRejection {
    /// The address never leaves the machine (loopback, link-local).
    MachineLocal(NetAddr),
    /// The address is not one a peer can reach (broadcast, documentation, private,
    /// unspecified).
    InvalidAddress(NetAddr),
    /// Public IPv6 addresses are not handled yet.
    Ipv6NotYetImplemented(u128),
}

/// 127.0.0.0/8.
pub open spec fn is_loopback_v4(ip: u32) -> bool {
    ip / 0x100_0000 == 127
}

/// 169.254.0.0/16.
pub open spec fn is_link_local_v4(ip: u32) -> bool {
    ip / 0x1_0000 == 0xa9fe
}

/// 255.255.255.255.
pub open spec fn is_broadcast_v4(ip: u32) -> bool {
    ip == 0xffff_ffff
}

/// 192.0.2.0/24, 198.51.100.0/24 and 203.0.113.0/24.
pub open spec fn is_documentation_v4(ip: u32) -> bool {
    let net = ip / 0x100;
    net == 0xc0_0002 || net == 0xc6_3364 || net == 0xcb_0071
}

/// The IPv4 address an IPv6 address embeds, as `Ipv6Addr::to_ipv4` finds it: one whose
/// first 80 bits are zero and next 16 bits are all zero or all one.
pub open spec fn embedded_v4(ip: u128) -> Option<u32> {
    let high = ip / 0x1_0000_0000;
    if high == 0 || high == 0xffff {
        Some((ip % 0x1_0000_0000) as u32)
    } else {
        None
    }
}

/// An address is a loopback address: 127.0.0.0/8, or `::1`.
pub open spec fn addr_is_loopback(addr: NetAddr) -> bool {
    match addr {
        NetAddr::V4(a) => is_loopback_v4(a.ip),
        NetAddr::V6(a) => a.ip == 1,
    }
}

/// What can be made public of `addr`: a loopback or link-local address is refused as
/// local to the machine, a broadcast or documentation address as invalid; an IPv6
/// address that embeds an IPv4 one stands for that IPv4 address.
pub open spec fn clean_addr(addr: NetAddr) -> Result<NetAddr, AddrRejection> {
    if addr_is_loopback(addr) {
        Err(AddrRejection::MachineLocal(addr))
    } else {
        let v4 = match addr {
            NetAddr::V4(a) => Some(a.ip),
            NetAddr::V6(a) => embedded_v4(a.ip),
        };
        match v4 {
            Some(ip) => if is_link_local_v4(ip) {
                Err(AddrRejection::MachineLocal(addr))
            } else if is_broadcast_v4(ip) || is_documentation_v4(ip) {
                Err(AddrRejection::InvalidAddress(addr))
            } else {
                Ok(NetAddr::V4(NetAddrV4 { ip, port: addr_port(addr) }))
            },
            None => Ok(addr),
        }
    }
}

/// The IPv4 address an IPv6 address embeds, if any.
fn embedded_ipv4(ip: u128) -> (r: Option<u32>)
    ensures
        r == embedded_v4(ip),
{
    let high = ip / 0x1_0000_0000;
    if high == 0 || high == 0xffff {
        Some((ip % 0x1_0000_0000) as u32)
    } else {
        None
    }
}

/// Checks that `addr` is not one that can never be made public.
pub fn filter_clean_addr(addr: NetAddr) -> (r: Result<NetAddr, AddrRejection>)
    ensures
        r == clean_addr(addr),
{
    let loopback = match addr {
        NetAddr::V4(a) => a.ip / 0x100_0000 == 127,
        NetAddr::V6(a) => a.ip == 1,
    };
    if loopback {
        return Err(AddrRejection::MachineLocal(addr));
    }
    let v4 = match addr {
        NetAddr::V4(a) => Some(a.ip),
        NetAddr::V6(a) => embedded_ipv4(a.ip),
    };
    match v4 {
        Some(ip) => {
            if ip / 0x1_0000 == 0xa9fe {
                return Err(AddrRejection::MachineLocal(addr));
            }
            let net = ip / 0x100;
            if ip == 0xffff_ffff || net == 0xc0_0002 || net == 0xc6_3364 || net == 0xcb_0071 {
                return Err(AddrRejection::InvalidAddress(addr));
            }
            Ok(NetAddr::V4(NetAddrV4 { ip, port: addr.port() }))
        },
        None => Ok(addr),
    }
}

/// The address is the unspecified one (0.0.0.0 or `::`), so the machine's own network
/// address has to be found before it can be judged.
pub open spec fn is_unspecified_ip(ip: IpValue) -> bool {
    match ip {
        IpValue::V4(v) => v == 0,
        IpValue::V6(v) => v == 0,
    }
}

/// The IP address of a socket address.
pub open spec fn ip_of(addr: NetAddr) -> IpValue {
    match addr {
        NetAddr::V4(a) => IpValue::V4(a.ip),
        NetAddr::V6(a) => IpValue::V6(a.ip),
    }
}

/// Whether the machine's network address is needed to judge `addr`.
pub fn needs_local_ip(addr: NetAddr) -> (r: bool)
    ensures
        r == is_unspecified_ip(ip_of(addr)),
{
    match addr {
        NetAddr::V4(a) => a.ip == 0,
        NetAddr::V6(a) => a.ip == 0,
    }
}

/// Whether `addr`, whose IP is `ip` (the machine's network address where `addr` names
/// none), is already public: an IPv4 address outside the private ranges is; an
/// unspecified or private one is refused; IPv6 is not handled yet.
pub open spec fn already_public(addr: NetAddr, ip: IpValue) -> Result<NetAddr, AddrRejection> {
    if is_unspecified_ip(ip) {
        Err(AddrRejection::InvalidAddress(addr))
    } else {
        match ip {
            IpValue::V4(v) => if is_private_v4(v) {
                Err(AddrRejection::InvalidAddress(NetAddr::V4(NetAddrV4 { ip: v, port: addr_port(addr) })))
            } else {
                Ok(addr)
            },
            IpValue::V6(v) => Err(AddrRejection::Ipv6NotYetImplemented(v)),
        }
    }
}

/// Judges whether `addr` is already public; `local_ip` is the machine's network address,
/// looked at only where `addr` names no IP.
pub fn try_already_public(addr: NetAddr, local_ip: IpValue) -> (r: Result<NetAddr, AddrRejection>)
    ensures
        r == already_public(addr, if is_unspecified_ip(ip_of(addr)) { local_ip } else { ip_of(addr) }),
{
    let ip = if needs_local_ip(addr) {
        local_ip
    } else {
        match addr {
            NetAddr::V4(a) => IpValue::V4(a.ip),
            NetAddr::V6(a) => IpValue::V6(a.ip),
        }
    };
    let unspecified = match ip {
        IpValue::V4(v) => v == 0,
        IpValue::V6(v) => v == 0,
    };
    if unspecified {
        return Err(AddrRejection::InvalidAddress(addr));
    }
    match ip {
        IpValue::V4(v) => {
            if crate::communication::eventgroup::ipv4_is_private(v) {
                Err(AddrRejection::InvalidAddress(NetAddr::V4(NetAddrV4 { ip: v, port: addr.port() })))
            } else {
                Ok(addr)
            }
        },
        IpValue::V6(v) => Err(AddrRejection::Ipv6NotYetImplemented(v)),
    }
}

/// The ways of making an address public, in the order they are tried.
#[derive(Copy, Clone, Eq, PartialEq, Structural, Debug)]
pub enum PublicMethod {
    /// The address is public already.
    AlreadyPublic,
    /// Ask the router for a port mapping (IGD).
    Igd,
    /// Ask a STUN server how the address looks from outside (UDP only).
    Stun,
}

/// What to do after `last` failed (or, with none, at the start): the next way to try, or
/// none when all have failed. STUN is tried only for a UDP socket.
pub open spec fn next_method_spec(last: Option<PublicMethod>, udp: bool) -> Option<PublicMethod> {
    match last {
        None => Some(PublicMethod::AlreadyPublic),
        Some(PublicMethod::AlreadyPublic) => Some(PublicMethod::Igd),
        Some(PublicMethod::Igd) => if udp {
            Some(PublicMethod::Stun)
        } else {
            None
        },
        Some(PublicMethod::Stun) => None,
    }
}

/// The next way to try after `last` failed.
pub fn next_method(last: Option<PublicMethod>, udp: bool) -> (r: Option<PublicMethod>)
    ensures
        r == next_method_spec(last, udp),
{
    match last {
        None => Some(PublicMethod::AlreadyPublic),
        Some(PublicMethod::AlreadyPublic) => Some(PublicMethod::Igd),
        Some(PublicMethod::Igd) => if udp {
            Some(PublicMethod::Stun)
        } else {
            None
        },
        Some(PublicMethod::Stun) => None,
    }
}

} // verus!
