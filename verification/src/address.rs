//! Network addresses as plain values.

use vstd::prelude::*;

verus! {

/// An IP address, held as the number that its octets spell in network order.
#[derive(Clone, Copy, Debug, PartialEq, Eq, Structural)]
pub enum IpAddress {
    /// An IPv4 address: `127.0.0.1` is `0x7F00_0001`.
    V4(u32),
    /// An IPv6 address.
    V6(u128),
}

/// A UDP endpoint: an address and a port.
#[derive(Clone, Copy, Debug, PartialEq, Eq, Structural)]
pub struct Endpoint {
    pub ip: IpAddress,
    pub port: u16,
}

} // verus!
