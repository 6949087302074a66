//! The Common Data Representation (CDR): how wire elements are turned into
//! bytes and back, in either byte order.

pub mod bitmap;
pub mod elements;
pub mod guid;
pub mod integers;

use crate::messages::ByteOrder;
use vstd::prelude::*;

verus! {

/// A wire element whose bytes do not depend on a byte order.
///
/// Encoding cannot fail: a value that exists in memory is valid.
pub trait IntoCdr {
    /// The bytes that stand for this element.
    spec fn encoding(&self) -> Seq<u8>;

    /// Appends the bytes of this element to `buffer`.
    fn to_buffer(&self, buffer: &mut Vec<u8>)
        ensures
            final(buffer)@ == old(buffer)@ + self.encoding(),
    ;

    /// Returns the bytes of this element.
    fn as_bytes(&self) -> (bytes: Vec<u8>)
        ensures
            bytes@ == self.encoding(),
    {
        let mut buffer = Vec::new();
        self.to_buffer(&mut buffer);
        assert(buffer@ =~= self.encoding());
        buffer
    }
}

/// A wire element that can be read from bytes whatever the byte order.
///
/// Decoding never reads past the end of the buffer: a buffer that is too
/// short or malformed gives an error.
pub trait FromCdr: Sized + View {
    /// What decoding can fail with.
    type DecodeErr;

    /// What `bytes` stand for: the model of the element, or the error that
    /// rejects them.
    spec fn decoding(bytes: Seq<u8>) -> Result<Self::V, Self::DecodeErr>;

    /// The number of bytes that the element at the front of `bytes` takes,
    /// if `bytes` hold all of it.
    spec fn extent(bytes: Seq<u8>) -> Option<nat>;

    /// Tells where the element at the front of `bytes` ends: how many bytes
    /// it takes, or `None` if `bytes` end before it does.
    fn wire_len(bytes: &[u8]) -> (len: Option<usize>)
        ensures
            match len {
                Some(taken) => Self::extent(bytes@) == Some(taken as nat) && taken <= bytes@.len(),
                None => Self::extent(bytes@) is None,
            },
    ;

    /// Reads an element from the front of `bytes`.
    fn from_bytes(bytes: &[u8]) -> (result: Result<Self, Self::DecodeErr>)
        ensures
            match result {
                Ok(element) => Self::decoding(bytes@) == Ok::<_, Self::DecodeErr>(element@),
                Err(error) => Self::decoding(bytes@) == Err::<Self::V, _>(error),
            },
    ;
}

/// A wire element that goes both ways, whatever the byte order.
pub trait Cdr: FromCdr + IntoCdr {

}

impl<T: FromCdr + IntoCdr> Cdr for T {

}

/// A wire element whose bytes depend on a byte order that it does not hold
/// itself: the submessage around it fixes the order.
///
/// Encoding cannot fail: a value that exists in memory is valid.
pub trait IntoCdrEndian {
    /// The bytes that stand for this element in the given byte order.
    spec fn encoding(&self, endianess: ByteOrder) -> Seq<u8>;

    /// Appends the bytes of this element to `buffer`.
    fn to_buffer_endian(&self, endianess: ByteOrder, buffer: &mut Vec<u8>)
        ensures
            final(buffer)@ == old(buffer)@ + self.encoding(endianess),
    ;

    /// Appends the little-endian bytes of this element to `buffer`.
    fn to_buffer_le(&self, buffer: &mut Vec<u8>)
        ensures
            final(buffer)@ == old(buffer)@ + self.encoding(ByteOrder::LittleEndian),
    {
        self.to_buffer_endian(ByteOrder::LittleEndian, buffer);
    }

    /// Appends the big-endian bytes of this element to `buffer`.
    fn to_buffer_be(&self, buffer: &mut Vec<u8>)
        ensures
            final(buffer)@ == old(buffer)@ + self.encoding(ByteOrder::BigEndian),
    {
        self.to_buffer_endian(ByteOrder::BigEndian, buffer);
    }

    /// Returns the bytes of this element in the given byte order.
    fn as_bytes_endian(&self, endianess: ByteOrder) -> (bytes: Vec<u8>)
        ensures
            bytes@ == self.encoding(endianess),
    {
        let mut buffer = Vec::new();
        self.to_buffer_endian(endianess, &mut buffer);
        assert(buffer@ =~= self.encoding(endianess));
        buffer
    }

    /// Returns the big-endian bytes of this element.
    fn as_bytes_be(&self) -> (bytes: Vec<u8>)
        ensures
            bytes@ == self.encoding(ByteOrder::BigEndian),
    {
        let mut buffer = Vec::new();
        self.to_buffer_endian(ByteOrder::BigEndian, &mut buffer);
        assert(buffer@ =~= self.encoding(ByteOrder::BigEndian));
        buffer
    }

    /// Returns the little-endian bytes of this element.
    fn as_bytes_le(&self) -> (bytes: Vec<u8>)
        ensures
            bytes@ == self.encoding(ByteOrder::LittleEndian),
    {
        let mut buffer = Vec::new();
        self.to_buffer_endian(ByteOrder::LittleEndian, &mut buffer);
        assert(buffer@ =~= self.encoding(ByteOrder::LittleEndian));
        buffer
    }
}

/// A wire element that can be read from bytes in a byte order that the
/// submessage around it fixes.
///
/// Decoding never reads past the end of the buffer: a buffer that is too
/// short or malformed gives an error.
pub trait FromCdrEndian: Sized + View {
    /// What decoding can fail with.
    type DecodeErr;

    /// What `bytes` stand for in the given byte order: the model of the
    /// element, or the error that rejects them.
    spec fn decoding(endianess: ByteOrder, bytes: Seq<u8>) -> Result<Self::V, Self::DecodeErr>;

    /// The number of bytes that the element at the front of `bytes` takes,
    /// if `bytes` hold all of it.
    spec fn extent(endianess: ByteOrder, bytes: Seq<u8>) -> Option<nat>;

    /// Tells where the element at the front of `bytes` ends: how many bytes
    /// it takes, or `None` if `bytes` end before it does.
    fn wire_len(endianess: ByteOrder, bytes: &[u8]) -> (len: Option<usize>)
        ensures
            match len {
                Some(taken) => Self::extent(endianess, bytes@) == Some(taken as nat) && taken
                    <= bytes@.len(),
                None => Self::extent(endianess, bytes@) is None,
            },
    ;

    /// Reads an element from the front of `bytes`.
    fn from_bytes_endian(endianess: ByteOrder, bytes: &[u8]) -> (result: Result<
        Self,
        Self::DecodeErr,
    >)
        ensures
            match result {
                Ok(element) => Self::decoding(endianess, bytes@) == Ok::<_, Self::DecodeErr>(
                    element@,
                ),
                Err(error) => Self::decoding(endianess, bytes@) == Err::<Self::V, _>(error),
            },
    ;

    /// Reads an element from the front of big-endian `bytes`.
    fn from_bytes_be(bytes: &[u8]) -> (result: Result<Self, Self::DecodeErr>)
        ensures
            match result {
                Ok(element) => Self::decoding(ByteOrder::BigEndian, bytes@) == Ok::<
                    _,
                    Self::DecodeErr,
                >(element@),
                Err(error) => Self::decoding(ByteOrder::BigEndian, bytes@) == Err::<Self::V, _>(
                    error,
                ),
            },
    {
        Self::from_bytes_endian(ByteOrder::BigEndian, bytes)
    }

    /// Reads an element from the front of little-endian `bytes`.
    fn from_bytes_le(bytes: &[u8]) -> (result: Result<Self, Self::DecodeErr>)
        ensures
            match result {
                Ok(element) => Self::decoding(ByteOrder::LittleEndian, bytes@) == Ok::<
                    _,
                    Self::DecodeErr,
                >(element@),
                Err(error) => Self::decoding(ByteOrder::LittleEndian, bytes@) == Err::<
                    Self::V,
                    _,
                >(error),
            },
    {
        Self::from_bytes_endian(ByteOrder::LittleEndian, bytes)
    }
}

/// A wire element that goes both ways, in a byte order given from outside.
pub trait CDR: FromCdrEndian + IntoCdrEndian {
    /// Returns the bytes of this element in the given byte order.
    fn as_bytes(&self, endianess: ByteOrder) -> (bytes: Vec<u8>)
        ensures
            bytes@ == self.encoding(endianess),
    {
        self.as_bytes_endian(endianess)
    }

    /// Reads an element from the front of `bytes`.
    fn from_bytes(endianess: ByteOrder, bytes: &[u8]) -> (result: Result<Self, Self::DecodeErr>)
        ensures
            match result {
                Ok(element) => Self::decoding(endianess, bytes@) == Ok::<_, Self::DecodeErr>(
                    element@,
                ),
                Err(error) => Self::decoding(endianess, bytes@) == Err::<Self::V, _>(error),
            },
    {
        Self::from_bytes_endian(endianess, bytes)
    }
}

impl<T: FromCdrEndian + IntoCdrEndian> CDR for T {

}

/// Errors that can occur when decoding a wire element from bytes.
#[derive(Debug, Clone, Copy, PartialEq, Eq, Structural)]
pub enum DecodeError {
    /// The base of a sequence number set was zero.
    ZeroBase,
    /// The buffer ended before the element did.
    Truncated,
    /// A bit was set for an offset above 255, which no sequence number set
    /// can hold.
    OffsetOutOfRange,
    /// A message held no submessage.
    NoSubmessages,
}

impl DecodeError {
    /// The message that describes this error.
    pub fn message(&self) -> (text: &'static str)
        ensures
            text@ == match *self {
                DecodeError::ZeroBase => "the base of the sequence cannot be 0"@,
                DecodeError::Truncated => "not enough bytes left in the buffer"@,
                DecodeError::OffsetOutOfRange => "a bit is set for an offset above 255"@,
                DecodeError::NoSubmessages => "a message holds at least one submessage"@,
            },
    {
        match self {
            DecodeError::ZeroBase => "the base of the sequence cannot be 0",
            DecodeError::Truncated => "not enough bytes left in the buffer",
            DecodeError::OffsetOutOfRange => "a bit is set for an offset above 255",
            DecodeError::NoSubmessages => "a message holds at least one submessage",
        }
    }
}

} // verus!
