use crate::messages::ByteOrder;
use crate::structure::EntityId;
use vstd::prelude::*;

verus! {

/// A parameter that goes with a fragment.
#[derive(Debug, Clone, Copy, PartialEq, Eq, Structural)]
pub struct Param;

/// What a fragment carries.
#[derive(Debug)]
pub enum Payload {
    /// A part of the value of the data object.
    Data(Vec<u8>),
    /// A part of the key of the data object.
    Key(Vec<u8>),
}

/// A fragment of a change to a data object: a change too large for one
/// submessage is sent as several of these, which the reader puts together
/// again.
#[derive(Debug)]
pub struct Data {
    /// The byte order of the submessage.
    pub endianess: ByteOrder,
    /// Parameters that go with the change.
    pub inline_qos: Vec<Param>,
    /// Whether the payload is in a form of the vendor's own.
    pub non_standard_payload: bool,
    /// The part of the value or of the key.
    pub payload: Payload,
    /// The reader that the change is for.
    pub reader: EntityId,
    /// The writer that made the change.
    pub writer: EntityId,
    /// The sequence number of the change.
    pub writer_sequence_number: i64,
}

} // verus!
