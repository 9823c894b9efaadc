//! Addresses, as plain integers.
use vstd::prelude::*;

verus! {

/// An IP address; the bits are in network order, most significant first.
#[derive(Clone, Copy, Debug, PartialEq, Eq, Hash, Structural)]
pub enum IpAddr {
    V4(u32),
    V6(u128),
}

impl IpAddr {
    /// 127.0.0.0/8 and ::1.
    pub open spec fn spec_is_loopback(self) -> bool {
        match self {
            IpAddr::V4(bits) => bits / 0x100_0000 == 127,
            IpAddr::V6(bits) => bits == 1,
        }
    }

    /// Whether the address names the local host.
    pub fn is_loopback(&self) -> (r: bool)
        ensures
            r == self.spec_is_loopback(),
    {
        match self {
            IpAddr::V4(bits) => *bits / 0x100_0000 == 127,
            IpAddr::V6(bits) => *bits == 1,
        }
    }
}

/// An IPv4 address and port.
#[derive(Clone, Copy, Debug, PartialEq, Eq, Hash, Structural)]
pub struct SocketAddrV4 {
    pub ip: u32,
    pub port: u16,
}

/// An IPv6 address and port, with the flow label and the scope.
#[derive(Clone, Copy, Debug, PartialEq, Eq, Hash, Structural)]
pub struct SocketAddrV6 {
    pub ip: u128,
    pub port: u16,
    pub flowinfo: u32,
    pub scope_id: u32,
}

/// A transport address. Two addresses are the same when every part is.
#[derive(Clone, Copy, Debug, PartialEq, Eq, Hash, Structural)]
pub enum SocketAddr {
    V4(SocketAddrV4),
    V6(SocketAddrV6),
}

impl SocketAddr {
    pub open spec fn spec_ip(self) -> IpAddr {
        match self {
            SocketAddr::V4(a) => IpAddr::V4(a.ip),
            SocketAddr::V6(a) => IpAddr::V6(a.ip),
        }
    }

    pub open spec fn spec_port(self) -> u16 {
        match self {
            SocketAddr::V4(a) => a.port,
            SocketAddr::V6(a) => a.port,
        }
    }

    pub fn ip(&self) -> (r: IpAddr)
        ensures
            r == self.spec_ip(),
    {
        match self {
            SocketAddr::V4(a) => IpAddr::V4(a.ip),
            SocketAddr::V6(a) => IpAddr::V6(a.ip),
        }
    }

    pub fn port(&self) -> (r: u16)
        ensures
            r == self.spec_port(),
    {
        match self {
            SocketAddr::V4(a) => a.port,
            SocketAddr::V6(a) => a.port,
        }
    }
}

/// An address is local exactly where its first octet is 127 or, in version 6,
/// it is one.
pub proof fn local_addresses_are_known(ip: IpAddr, r: bool)
    requires
        call_ensures(IpAddr::is_loopback, (&ip,), r),
    ensures
        match ip {
            IpAddr::V4(bits) => r <==> 0x7f00_0000 <= bits <= 0x7fff_ffff,
            IpAddr::V6(bits) => r <==> bits == 1,
        },
{
}

/// An address with a port is made of the two.
pub proof fn an_address_has_its_parts(addr: SocketAddr)
    ensures
        forall|ip: IpAddr| #[trigger]
            call_ensures(SocketAddr::ip, (&addr,), ip) ==> match addr {
                SocketAddr::V4(a) => ip == IpAddr::V4(a.ip),
                SocketAddr::V6(a) => ip == IpAddr::V6(a.ip),
            },
        forall|port: u16| #[trigger]
            call_ensures(SocketAddr::port, (&addr,), port) ==> match addr {
                SocketAddr::V4(a) => port == a.port,
                SocketAddr::V6(a) => port == a.port,
            },
{
}

} // verus!
