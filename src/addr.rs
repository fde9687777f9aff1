use vstd::prelude::*;

verus! {

/// An IPv4 address as its four octets, most significant first.
#[derive(Clone, Copy, Debug, PartialEq, Eq, Structural)]
pub struct Ipv4Address(pub u8, pub u8, pub u8, pub u8);

/// An IPv6 address as its sixteen octets, most significant first.
#[derive(Clone, Copy, Debug, PartialEq, Eq)]
pub struct Ipv6Address {
    pub octets: [u8; 16],
}

/// An IP address of either family.
#[derive(Clone, Copy, Debug, PartialEq, Eq)]
pub enum IpAddress {
    V4(Ipv4Address),
    V6(Ipv6Address),
}

/// An IP address together with a UDP port.
#[derive(Clone, Copy, Debug, PartialEq, Eq)]
pub struct SocketAddress {
    pub ip: IpAddress,
    pub port: u16,
}

/// IPv4 multicast addresses form the block 224.0.0.0/4.
pub open spec fn is_multicast_v4_spec(a: Ipv4Address) -> bool {
    224 <= a.0 <= 239
}

/// IPv6 multicast addresses form the block ff00::/8.
pub open spec fn is_multicast_v6_spec(a: Ipv6Address) -> bool {
    a.octets@[0] == 0xff
}

/// Whether an address of either family is a multicast address.
pub open spec fn is_multicast_spec(ip: IpAddress) -> bool {
    match ip {
        IpAddress::V4(a) => is_multicast_v4_spec(a),
        IpAddress::V6(a) => is_multicast_v6_spec(a),
    }
}

impl Ipv4Address {
    /// Whether the address lies in 224.0.0.0/4.
    pub fn is_multicast(&self) -> (r: bool)
        ensures
            r == is_multicast_v4_spec(*self),
    {
        224 <= self.0 && self.0 <= 239
    }
}

impl Ipv6Address {
    /// Whether the address lies in ff00::/8.
    pub fn is_multicast(&self) -> (r: bool)
        ensures
            r == is_multicast_v6_spec(*self),
    {
        self.octets[0] == 0xff
    }
}

impl IpAddress {
    /// Whether the address is a multicast address of its family.
    pub fn is_multicast(&self) -> (r: bool)
        ensures
            r == is_multicast_spec(*self),
    {
        match self {
            IpAddress::V4(a) => a.is_multicast(),
            IpAddress::V6(a) => a.is_multicast(),
        }
    }
}

} // verus!
