use vstd::prelude::*;
use crate::addr::{is_multicast_spec, IpAddress, Ipv4Address, Ipv6Address, SocketAddress};
use crate::config::{ConfigError, Either};

verus! {

/// How a socket joins its multicast group.
#[derive(Clone, Copy, Debug, PartialEq, Eq)]
pub enum Membership {
    /// Join an IPv4 group on the interface that holds the given IPv4 address.
    V4 { group_v4: Ipv4Address, interface_address: Ipv4Address },
    /// Join an IPv6 group on the interface with the given index.
    V6 { group_v6: Ipv6Address, interface_index: u32 },
}

/// The socket to make: the address it binds to and the group it joins.
#[derive(Clone, Copy, Debug, PartialEq, Eq)]
pub struct SocketPlan {
    pub bind: SocketAddress,
    pub membership: Membership,
}

/// The membership of a group address and an interface selector, when their
/// families agree: an IPv4 group takes an interface address, an IPv6 group an
/// interface index.
pub open spec fn membership_spec(ip: IpAddress, iface: Either<u32, Ipv4Address>) -> Option<
    Membership,
> {
    match (ip, iface) {
        (IpAddress::V4(g), Either::Right(a)) => Some(Membership::V4 { group_v4: g, interface_address: a }),
        (IpAddress::V6(g), Either::Left(i)) => Some(Membership::V6 { group_v6: g, interface_index: i }),
        _ => None,
    }
}

/// The plan for a group socket address and an interface selector, or the
/// reason the pair is refused.
pub open spec fn plan_spec(group: SocketAddress, iface: Either<u32, Ipv4Address>) -> Result<
    SocketPlan,
    ConfigError,
> {
    if !is_multicast_spec(group.ip) {
        Err(ConfigError::NotMulticast)
    } else {
        match membership_spec(group.ip, iface) {
            Some(m) => Ok(SocketPlan { bind: group, membership: m }),
            None => Err(ConfigError::MismatchedInterface),
        }
    }
}

/// Decides, before any socket exists, what a multicast socket for `group`
/// on the interface `iface` is made of: it binds to the group's own address
/// and port, and joins the group by interface address (IPv4) or by
/// interface index (IPv6).
pub fn plan_socket(group: SocketAddress, iface: Either<u32, Ipv4Address>) -> (r: Result<
    SocketPlan,
    ConfigError,
>)
    ensures
        r == plan_spec(group, iface),
        !is_multicast_spec(group.ip) ==> r == Err::<SocketPlan, ConfigError>(
            ConfigError::NotMulticast,
        ),
        is_multicast_spec(group.ip) && group.ip is V6 && iface is Right ==> r == Err::<
            SocketPlan,
            ConfigError,
        >(ConfigError::MismatchedInterface),
        r matches Ok(plan) ==> plan.bind == group,
{
    if !group.ip.is_multicast() {
        return Err(ConfigError::NotMulticast);
    }
    let membership = match (group.ip, iface) {
        (IpAddress::V4(g), Either::Right(a)) => Membership::V4 { group_v4: g, interface_address: a },
        (IpAddress::V6(g), Either::Left(i)) => Membership::V6 { group_v6: g, interface_index: i },
        _ => {
            return Err(ConfigError::MismatchedInterface);
        },
    };
    Ok(SocketPlan { bind: group, membership })
}

} // verus!
