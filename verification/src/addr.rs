//! Plain value types for addresses and protocols.

use vstd::prelude::*;

verus! {

/// An IPv4 address, held as its four dotted-quad octets.
#[derive(Clone, Copy, PartialEq, Eq, Structural, Debug)]
pub struct Ipv4Address {
    pub octet0: u8,
    pub octet1: u8,
    pub octet2: u8,
    pub octet3: u8,
}

impl Ipv4Address {
    pub fn new(octet0: u8, octet1: u8, octet2: u8, octet3: u8) -> (r: Self)
        ensures
            r == (Ipv4Address { octet0, octet1, octet2, octet3 }),
    {
        Ipv4Address { octet0, octet1, octet2, octet3 }
    }

    /// The loopback address `127.0.0.1`.
    pub open spec fn spec_localhost() -> Self {
        Ipv4Address { octet0: 127, octet1: 0, octet2: 0, octet3: 1 }
    }

    /// The loopback address `127.0.0.1`.
    pub fn localhost() -> (r: Self)
        ensures
            r == Self::spec_localhost(),
    {
        Ipv4Address { octet0: 127, octet1: 0, octet2: 0, octet3: 1 }
    }

    /// A loopback address is any address in `127.0.0.0/8`.
    pub open spec fn spec_is_loopback(self) -> bool {
        self.octet0 == 127
    }

    pub fn is_loopback(&self) -> (r: bool)
        ensures
            r == self.spec_is_loopback(),
    {
        self.octet0 == 127
    }

    /// The unspecified (wildcard) address `0.0.0.0`, meaning "any interface".
    pub open spec fn spec_is_unspecified(self) -> bool {
        self.octet0 == 0 && self.octet1 == 0 && self.octet2 == 0 && self.octet3 == 0
    }

    pub fn is_unspecified(&self) -> (r: bool)
        ensures
            r == self.spec_is_unspecified(),
    {
        self.octet0 == 0 && self.octet1 == 0 && self.octet2 == 0 && self.octet3 == 0
    }
}

/// An IPv4 socket address: an address together with a port.
#[derive(Clone, Copy, PartialEq, Eq, Structural, Debug)]
pub struct SocketAddressV4 {
    pub ip: Ipv4Address,
    pub port: u16,
}

impl SocketAddressV4 {
    pub fn new(ip: Ipv4Address, port: u16) -> (r: Self)
        ensures
            r == (SocketAddressV4 { ip, port }),
    {
        SocketAddressV4 { ip, port }
    }
}

/// The transport protocol of an association.
#[derive(Clone, Copy, PartialEq, Eq, Structural, Debug)]
pub enum ProtocolType {
    Tcp,
    Udp,
}

} // verus!
