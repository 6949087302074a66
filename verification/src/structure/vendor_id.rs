use crate::structure::guid::same_bytes;
use vstd::prelude::*;
use vstd::std_specs::cmp::PartialEqSpecImpl;

verus! {

/// The vendor of an implementation of the protocol.
#[derive(Debug, Clone, Copy)]
pub enum VendorId {
    /// An unknown or unspecified vendor.
    Unknown,
    /// A vendor known by its two-byte identifier.
    Known([u8; 2]),
}

impl Default for VendorId {
    /// The unknown vendor.
    fn default() -> (vendor: Self)
        ensures
            vendor == VendorId::Unknown,
    {
        VendorId::Unknown
    }
}

impl PartialEq for VendorId {
    fn eq(&self, other: &Self) -> (equal: bool) {
        match (self, other) {
            (VendorId::Unknown, VendorId::Unknown) => true,
            (VendorId::Known(left), VendorId::Known(right)) => same_bytes(left, right),
            _ => false,
        }
    }
}

impl Eq for VendorId {

}

impl PartialEqSpecImpl for VendorId {
    open spec fn obeys_eq_spec() -> bool {
        true
    }

    open spec fn eq_spec(&self, other: &Self) -> bool {
        *self == *other
    }
}

} // verus!
