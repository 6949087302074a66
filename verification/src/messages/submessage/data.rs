use crate::messages::ByteOrder;
use crate::structure::EntityId;
use vstd::prelude::*;

verus! {

/// A parameter that goes with a change.
#[derive(Debug, Clone, Copy, PartialEq, Eq, Structural)]
pub struct Param;

/// What a [`Data`] submessage carries.
#[derive(Debug)]
pub enum Payload {
    /// The value of the data object.
    Data(Vec<u8>),
    /// The key of the data object.
    Key(Vec<u8>),
}

/// Tells a reader of a change to a data object.
#[derive(Debug)]
pub struct Data {
    /// The byte order of the submessage.
    pub endianess: ByteOrder,
    /// The value or the key of the data object.
    pub payload: Payload,
    /// Whether the payload is in a form of the vendor's own.
    pub non_standard_payload: bool,
    /// The reader that the change is for.
    pub reader: EntityId,
    /// The writer that made the change.
    pub writer: EntityId,
    /// The sequence number of the change.
    pub writer_sequence_number: i64,
    /// Parameters that go with the change.
    pub inline_qos: Vec<Param>,
    /// The number of the first fragment.
    pub fragment_starting_number: u32,
    /// The number of fragments.
    pub fragments: u32,
    /// The size of the whole value.
    pub data_size: u64,
}

} // verus!
