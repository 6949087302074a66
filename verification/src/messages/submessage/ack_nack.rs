use crate::messages::ByteOrder;
use crate::structure::EntityId;
use vstd::prelude::*;

verus! {

/// What is particular to the header of an [`AckNack`].
#[derive(Debug, Clone, Copy, PartialEq, Eq, Structural)]
pub struct Header {
    /// The byte order of the submessage.
    pub endianess: ByteOrder,
    /// Whether the writer has to answer.
    pub response_required: bool,
}

/// The sequence numbers that a reader has and lacks.
#[derive(Debug, Clone, Copy, PartialEq, Eq, Structural)]
pub struct SequenceNumberState;

/// Tells a writer the state of a reader: which sequence numbers the reader
/// has received and which it still misses. It serves both to acknowledge
/// and to ask again.
#[derive(Debug)]
pub struct AckNack {
    /// The header.
    pub header: Header,
    /// The reader that reports.
    pub reader: EntityId,
    /// The writer that is reported to.
    pub writer: EntityId,
    /// What the reader has and lacks.
    pub reader_sequence_number_state: SequenceNumberState,
    /// Counts the reports of this reader, so that a report that comes twice
    /// is known.
    pub count: u32,
}

} // verus!
