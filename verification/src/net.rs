//! Socket endpoints as plain values.

use vstd::prelude::*;

verus! {

/// An address without a port.
#[derive(Clone, Copy, PartialEq, Eq, Structural, Debug)]
pub enum IpAddress {
    V4(u32),
    V6(u128),
}

/// An address and a port. The last two parts are those of an IPv6 endpoint,
/// and zero for an IPv4 one. Two endpoints are the same where all their parts
/// are.
#[derive(Clone, Copy, PartialEq, Eq, Structural, Debug)]
pub struct Endpoint {
    pub ip: IpAddress,
    pub port: u16,
    pub flowinfo: u32,
    pub scope_id: u32,
}

/// The endpoint at an address and a port, without flow information and scope.
pub open spec fn endpoint_at(ip: IpAddress, port: u16) -> Endpoint {
    Endpoint { ip, port, flowinfo: 0, scope_id: 0 }
}

impl Endpoint {
    /// The endpoint at an address and a port, without flow information and
    /// scope.
    pub fn new(ip: IpAddress, port: u16) -> (r: Endpoint)
        ensures
            r == endpoint_at(ip, port),
    {
        Endpoint { ip, port, flowinfo: 0, scope_id: 0 }
    }
}

/// An endpoint made of an address and a port has these, and nothing more.
pub proof fn law_endpoint_holds_its_parts(ip: IpAddress, port: u16)
    ensures
        endpoint_at(ip, port).ip == ip,
        endpoint_at(ip, port).port == port,
        endpoint_at(ip, port).flowinfo == 0,
        endpoint_at(ip, port).scope_id == 0,
{
}

} // verus!
