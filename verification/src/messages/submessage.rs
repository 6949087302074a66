//! Submessages and the elements they are made of.

pub mod ack_nack;
pub mod data;
pub mod data_frag;
pub mod elements;

use crate::messages::ByteOrder;
use vstd::prelude::*;

verus! {

/// The bit of the flags of a submessage that tells its byte order: bit 0,
/// in every kind of submessage.
pub const ENDIANNESS_FLAG: u8 = 0x01;

/// What a submessage is for.
#[derive(Debug, Clone, Copy, PartialEq, Eq, Structural)]
pub enum SubMessageKind {
    /// An extension to the header of the message.
    RtpsHe,
    /// A change to a data object.
    Data,
    /// Sequence numbers that are no longer relevant to a reader.
    Gap,
    /// Which sequence numbers a writer has available.
    Heartbeat,
    /// Which sequence numbers a reader has and which it lacks.
    Acknack,
    /// Padding.
    Pad,
    /// A timestamp for the submessages that follow.
    InfoTs,
    /// Where to send replies to the submessages that follow.
    InfoReply,
    /// The receiver that the submessages that follow are meant for.
    InfoDst,
    /// The source of the submessages that follow.
    InfoSrc,
    /// A fragment of a change to a data object.
    DataFrag,
    /// Which fragments a reader lacks.
    NackFrag,
    /// Which fragments a writer has available.
    HeartbeatFrag,
}

/// The header of a submessage.
#[derive(Debug, Clone, Copy, PartialEq, Eq, Structural)]
pub struct Header {
    /// What the submessage is for.
    pub id: SubMessageKind,
    /// The number of bytes of the submessage after its header. Zero in the
    /// last submessage of a message means that it goes on to the end of the
    /// message.
    pub len: u16,
    /// The flags of the submessage. Bit 0 tells the byte order.
    pub flags: u8,
}

/// An element of a submessage.
#[derive(Debug, Clone, Copy, PartialEq, Eq, Structural)]
pub struct Element;

/// A part of a message with a header of its own.
#[derive(Debug)]
pub struct SubMessage {
    /// The header.
    pub header: Header,
    /// The elements, in order.
    pub elements: Vec<Element>,
}

/// The byte order that the flags of a submessage stand for: little-endian
/// if bit 0 is set, big-endian if it is clear.
pub open spec fn byte_order_of(flags: u8) -> ByteOrder {
    if flags % 2 == 1 {
        ByteOrder::LittleEndian
    } else {
        ByteOrder::BigEndian
    }
}

/// Only bit 0 of the flags tells the byte order: flags that agree in it
/// stand for the same order, whatever their other bits.
pub proof fn lemma_byte_order_by_bit_0(flags: u8, other: u8)
    ensures
        flags & 1 == other & 1 ==> byte_order_of(flags) == byte_order_of(other),
        byte_order_of(flags | 1) == ByteOrder::LittleEndian,
        byte_order_of(flags & 0xfe) == ByteOrder::BigEndian,
        flags & 1 == 1 <==> byte_order_of(flags) == ByteOrder::LittleEndian,
        flags & 1 == 0 <==> byte_order_of(flags) == ByteOrder::BigEndian,
{
    assert(flags & 1 == flags % 2) by (bit_vector);
    assert(other & 1 == other % 2) by (bit_vector);
    assert((flags | 1) % 2 == 1) by (bit_vector);
    assert((flags & 0xfe) % 2 == 0) by (bit_vector);
}

impl SubMessage {
    /// Tells whether this submessage is marked as the last of its message:
    /// its length is zero, so it goes on to the end of the message.
    #[must_use]
    pub fn is_last(&self) -> (last: bool)
        ensures
            last == (self.header.len == 0),
    {
        self.header.len == 0
    }

    /// Returns the byte order in which this submessage is encoded.
    #[must_use]
    pub fn endianness(&self) -> (order: ByteOrder)
        ensures
            order == byte_order_of(self.header.flags),
    {
        let flags = self.header.flags;
        let flag_set = (flags & ENDIANNESS_FLAG) != 0;
        assert(flags & 1 == flags % 2) by (bit_vector);
        if flag_set {
            ByteOrder::LittleEndian
        } else {
            ByteOrder::BigEndian
        }
    }
}

} // verus!
