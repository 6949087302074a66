use vstd::prelude::*;

verus! {

/// The mark of the protocol at the start of every message: the four
/// letters `RTPS`.
#[derive(Debug, Clone, Copy, PartialEq, Eq, Structural)]
pub struct ProtocolId;

impl ProtocolId {
    /// The four bytes that spell the mark on the wire.
    pub open spec fn spec_bytes() -> Seq<u8> {
        seq![0x52u8, 0x54u8, 0x50u8, 0x53u8]
    }

    /// Returns the four bytes that spell the mark on the wire.
    #[must_use]
    pub fn bytes() -> (bytes: [u8; 4])
        ensures
            bytes@ == Self::spec_bytes(),
    {
        let bytes: [u8; 4] = [0x52, 0x54, 0x50, 0x53];
        assert(bytes@ =~= Self::spec_bytes());
        bytes
    }
}

} // verus!
