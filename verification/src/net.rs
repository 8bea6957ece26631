use vstd::prelude::*;

verus! {

/// An IP address: IPv4 as its 32-bit big-endian value, IPv6 as its 128-bit value.
#[derive(Clone, Copy, Debug, PartialEq, Eq, Structural)]
pub enum IpAddress {
    V4(u32),
    V6(u128),
}

/// An IP address with a port.
#[derive(Clone, Copy, Debug, PartialEq, Eq, Structural)]
pub struct SocketAddress {
    pub ip: IpAddress,
    pub port: u16,
}

/// The IPv4 address that binds every interface, `0.0.0.0`.
pub open spec fn unspecified_ipv4() -> IpAddress {
    IpAddress::V4(0)
}

/// The address on which the node listens for a configured address: the same
/// port on every interface.
pub fn with_wildcard_ip(addr: SocketAddress) -> (res: SocketAddress)
    ensures
        res == (SocketAddress { ip: unspecified_ipv4(), port: addr.port }),
        res == (SocketAddress { ip: IpAddress::V4(0), port: addr.port }),
{
    SocketAddress { ip: IpAddress::V4(0), port: addr.port }
}

} // verus!
