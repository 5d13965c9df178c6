use vstd::prelude::*;

verus! {

/// An IP address: IPv4 as its 32-bit value, IPv6 as its 128-bit value.
#[derive(Debug, Clone, Copy, PartialEq, Eq, Hash, PartialOrd, Ord, Structural)]
pub enum IpAddress {
    V4(u32),
    V6(u128),
}

/// An IP address with a port.
#[derive(Debug, Clone, Copy, PartialEq, Eq, Hash, PartialOrd, Ord, Structural)]
pub struct SocketAddress {
    pub ip: IpAddress,
    pub port: u16,
}

/// The 32-bit value of the dotted quad `a.b.c.d`.
pub open spec fn quad_value(a: u8, b: u8, c: u8, d: u8) -> u32 {
    (a as int * 0x1000000 + b as int * 0x10000 + c as int * 0x100 + d as int) as u32
}

impl IpAddress {
    /// The IPv4 address `a.b.c.d`.
    pub fn v4(a: u8, b: u8, c: u8, d: u8) -> (r: IpAddress)
        ensures
            r == IpAddress::V4(quad_value(a, b, c, d)),
    {
        IpAddress::V4((a as u32) * 0x1000000 + (b as u32) * 0x10000 + (c as u32) * 0x100 + (d as u32))
    }

    /// IPv4 loopback, 127.0.0.1.
    pub fn localhost_v4() -> (r: IpAddress)
        ensures
            r == IpAddress::V4(0x7f000001),
    {
        IpAddress::V4(0x7f000001)
    }

    /// IPv6 loopback, ::1.
    pub fn localhost_v6() -> (r: IpAddress)
        ensures
            r == IpAddress::V6(1),
    {
        IpAddress::V6(1)
    }

    /// The unspecified address of the same family as `self` (0.0.0.0 or ::).
    pub fn unspecified_like(&self) -> (r: IpAddress)
        ensures
            r == (match *self {
                IpAddress::V4(_) => IpAddress::V4(0),
                IpAddress::V6(_) => IpAddress::V6(0),
            }),
    {
        match self {
            IpAddress::V4(_) => IpAddress::V4(0),
            IpAddress::V6(_) => IpAddress::V6(0),
        }
    }

    pub fn is_ipv4(&self) -> (r: bool)
        ensures
            r == (*self is V4),
    {
        match self {
            IpAddress::V4(_) => true,
            IpAddress::V6(_) => false,
        }
    }
}

impl SocketAddress {
    pub fn new(ip: IpAddress, port: u16) -> (r: SocketAddress)
        ensures
            r == (SocketAddress { ip, port }),
    {
        SocketAddress { ip, port }
    }
}

} // verus!
