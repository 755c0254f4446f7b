//! Addresses of datagram endpoints, as plain values.

use vstd::prelude::*;

verus! {

/// The host part of an address.
#[derive(Clone, Copy, Debug, PartialEq, Eq, Structural)]
pub enum Host {
    /// An IPv4 address, its four octets as one big-endian number.
    V4(u32),
    /// An IPv6 address with its flow information and scope.
    V6 { addr: u128, flowinfo: u32, scope_id: u32 },
}

/// A host and a port.
#[derive(Clone, Copy, Debug, PartialEq, Eq, Structural)]
pub struct Endpoint {
    pub host: Host,
    pub port: u16,
}

impl Endpoint {
    /// The IPv4 endpoint `a.b.c.d:port`.
    pub fn v4(a: u8, b: u8, c: u8, d: u8, port: u16) -> (r: Endpoint)
        ensures
            r.port == port,
            r.host == Host::V4(
                (16777216 * (a as int) + 65536 * (b as int) + 256 * (c as int) + d as int) as u32,
            ),
    {
        let number: u32 = 16777216 * (a as u32) + 65536 * (b as u32) + 256 * (c as u32) + d as u32;
        Endpoint { host: Host::V4(number), port }
    }

    /// The same host on another port.
    pub fn with_port(self, port: u16) -> (r: Endpoint)
        ensures
            r == (Endpoint { host: self.host, port }),
    {
        Endpoint { host: self.host, port }
    }

    /// True when both name the same host and port.
    pub fn same_as(&self, other: &Endpoint) -> (r: bool)
        ensures
            r == (*self == *other),
    {
        *self == *other
    }
}

} // verus!
