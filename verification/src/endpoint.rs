//! Network addresses of storage nodes, held as plain integers.

use vstd::prelude::*;

verus! {

/// The address under which one storage node is reached.
///
/// An IPv4 address is held as its 32 bits and an IPv6 address as its 128
/// bits, both in network order: the first byte of the address is the most
/// significant one. The coordinator never looks inside an endpoint; it only
/// stores it and hands it back.
#[allow(inconsistent_fields)]
#[derive(Clone, Copy, Debug, PartialEq, Eq, Structural)]
pub enum Endpoint {
    V4 { ip: u32, port: u16 },
    V6 { ip: u128, port: u16, flowinfo: u32, scope_id: u32 },
}

} // verus!
