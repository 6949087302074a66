use crate::structure::guid::same_bytes;
use vstd::prelude::*;
use vstd::std_specs::cmp::PartialEqSpecImpl;

verus! {

/// A transport address at which an endpoint can be reached.
///
/// Each variant is one kind of transport: there is no invalid or unset
/// locator.
#[derive(Debug, Clone, Copy)]
#[allow(inconsistent_fields)]
pub enum Locator {
    /// An IPv4 UDP socket address.
    Udpv4 {
        /// The four bytes of the IPv4 address, in network order.
        address: [u8; 4],
        /// The UDP port.
        port: u16,
    },
    /// An IPv6 UDP socket address.
    Udpv6 {
        /// The sixteen bytes of the IPv6 address, in network order.
        address: [u8; 16],
        /// The UDP port.
        port: u16,
        /// The flow label of the address.
        flowinfo: u32,
        /// The scope of the address.
        scope_id: u32,
    },
}

impl PartialEq for Locator {
    fn eq(&self, other: &Self) -> (equal: bool) {
        match (self, other) {
            (
                Locator::Udpv4 { address: left, port: left_port },
                Locator::Udpv4 { address: right, port: right_port },
            ) => *left_port == *right_port && same_bytes(left, right),
            (
                Locator::Udpv6 {
                    address: left,
                    port: left_port,
                    flowinfo: left_flow,
                    scope_id: left_scope,
                },
                Locator::Udpv6 {
                    address: right,
                    port: right_port,
                    flowinfo: right_flow,
                    scope_id: right_scope,
                },
            ) => *left_port == *right_port && *left_flow == *right_flow && *left_scope
                == *right_scope && same_bytes(left, right),
            _ => false,
        }
    }
}

impl Eq for Locator {

}

impl PartialEqSpecImpl for Locator {
    open spec fn obeys_eq_spec() -> bool {
        true
    }

    open spec fn eq_spec(&self, other: &Self) -> bool {
        *self == *other
    }
}

} // verus!
