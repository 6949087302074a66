use vstd::prelude::*;

verus! {

/// The byte order of encoded data.
#[derive(Debug, Clone, Copy, PartialEq, Eq, Structural)]
pub enum ByteOrder {
    /// "Big Endian" byte order: most significant byte first.
    BigEndian,
    /// "Little Endian" byte order: least significant byte first.
    LittleEndian,
}

impl Default for ByteOrder {
    /// Big-endian, the order of a submessage whose flags are all clear.
    fn default() -> (order: Self)
        ensures
            order == ByteOrder::BigEndian,
    {
        ByteOrder::BigEndian
    }
}

} // verus!
