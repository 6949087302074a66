//! The header of a message and its optional extension.

pub mod extension;

pub use extension::Extension;

use crate::messages::ProtocolId;
use crate::structure::{GuidPrefix, ProtocolVersion, VendorId};
use vstd::prelude::*;

verus! {

/// What every message starts with: it marks the message as one of this
/// protocol and tells which participant sent it.
#[derive(Debug, Clone, Copy)]
pub struct Header {
    /// The mark of the protocol.
    pub protocol_id: ProtocolId,
    /// The version of the protocol that the sender speaks.
    pub protocol_version: ProtocolVersion,
    /// The vendor of the sender's implementation.
    pub vendor_id: VendorId,
    /// The identifier prefix of the sending participant.
    pub guid_prefix: GuidPrefix,
}

} // verus!
