//! Unsigned integers on the wire: a fixed number of bytes in big-endian or
//! little-endian order.

use crate::cdr::DecodeError;
use crate::messages::ByteOrder;
use safer_bytes::error::Truncated;
use safer_bytes::{BufMut, SafeBuf};
use vstd::prelude::*;

verus! {

/// The `width` low bytes of `value`, least significant first.
pub open spec fn le_bytes(value: nat, width: nat) -> Seq<u8>
    decreases width,
{
    if width == 0 {
        Seq::empty()
    } else {
        seq![(value % 256) as u8] + le_bytes(value / 256, (width - 1) as nat)
    }
}

/// The `width` low bytes of `value`, most significant first.
pub open spec fn be_bytes(value: nat, width: nat) -> Seq<u8>
    decreases width,
{
    if width == 0 {
        Seq::empty()
    } else {
        be_bytes(value / 256, (width - 1) as nat).push((value % 256) as u8)
    }
}

/// The number that `bytes` spell, least significant byte first.
pub open spec fn le_value(bytes: Seq<u8>) -> nat
    decreases bytes.len(),
{
    if bytes.len() == 0 {
        0
    } else {
        bytes.first() as nat + 256 * le_value(bytes.drop_first())
    }
}

/// The number that `bytes` spell, most significant byte first.
pub open spec fn be_value(bytes: Seq<u8>) -> nat
    decreases bytes.len(),
{
    if bytes.len() == 0 {
        0
    } else {
        256 * be_value(bytes.drop_last()) + bytes.last() as nat
    }
}

/// The `width` low bytes of `value` in the given byte order.
pub open spec fn wire_bytes(value: nat, width: nat, order: ByteOrder) -> Seq<u8> {
    match order {
        ByteOrder::BigEndian => be_bytes(value, width),
        ByteOrder::LittleEndian => le_bytes(value, width),
    }
}

/// The number that `bytes` spell in the given byte order.
pub open spec fn wire_value(bytes: Seq<u8>, order: ByteOrder) -> nat {
    match order {
        ByteOrder::BigEndian => be_value(bytes),
        ByteOrder::LittleEndian => le_value(bytes),
    }
}

/// The number of values that `width` bytes can tell apart: 256 to the power
/// `width`.
pub open spec fn capacity(width: nat) -> nat
    decreases width,
{
    if width == 0 {
        1
    } else {
        256 * capacity((width - 1) as nat)
    }
}

/// Every `u16` fits in two bytes, every `u32` in four, every `u64` in eight.
pub proof fn lemma_capacity()
    ensures
        capacity(2) == 0x1_0000,
        capacity(4) == 0x1_0000_0000,
        capacity(8) == 0x1_0000_0000_0000_0000,
{
    reveal_with_fuel(capacity, 9);
}

/// An integer on the wire takes exactly `width` bytes.
pub proof fn lemma_wire_bytes_len(value: nat, width: nat, order: ByteOrder)
    ensures
        wire_bytes(value, width, order).len() == width,
    decreases width,
{
    if width > 0 {
        lemma_wire_bytes_len(value / 256, (width - 1) as nat, order);
    }
}

/// Reading back the bytes written for a value that fits in `width` bytes
/// gives the value, in either byte order.
pub proof fn lemma_wire_round_trip(value: nat, width: nat, order: ByteOrder)
    requires
        value < capacity(width),
    ensures
        wire_value(wire_bytes(value, width, order), order) == value,
    decreases width,
{
    if width > 0 {
        let rest = (width - 1) as nat;
        lemma_wire_round_trip(value / 256, rest, order);
        match order {
            ByteOrder::BigEndian => {
                assert(be_bytes(value, width).drop_last() =~= be_bytes(value / 256, rest));
            },
            ByteOrder::LittleEndian => {
                assert(le_bytes(value, width).drop_first() =~= le_bytes(value / 256, rest));
            },
        }
    }
}

/// What two bytes spell in either byte order.
pub proof fn lemma_two_bytes(bytes: Seq<u8>)
    requires
        bytes.len() == 2,
    ensures
        le_value(bytes) == bytes[0] + 256 * bytes[1],
        be_value(bytes) == 256 * bytes[0] + bytes[1],
{
    reveal_with_fuel(le_value, 3);
    reveal_with_fuel(be_value, 3);
    assert(bytes.drop_first().drop_first().len() == 0);
    assert(bytes.drop_last().drop_last().len() == 0);
}

/// The two bytes of a 16-bit value in either byte order.
pub proof fn lemma_two_byte_value(value: u16)
    ensures
        le_bytes(value as nat, 2) == seq![(value % 256) as u8, (value / 256) as u8],
        be_bytes(value as nat, 2) == seq![(value / 256) as u8, (value % 256) as u8],
{
    reveal_with_fuel(le_bytes, 3);
    reveal_with_fuel(be_bytes, 3);
    assert(le_bytes(value as nat, 2) =~= seq![(value % 256) as u8, (value / 256) as u8]);
    assert(be_bytes(value as nat, 2) =~= seq![(value / 256) as u8, (value % 256) as u8]);
}

#[verifier::external_type_specification]
#[verifier::external_body]
pub struct ExTruncated(Truncated);

/// `BufMut::put_u64` on a `Vec<u8>`: appends the eight bytes of `value`, most
/// significant first.
#[verifier::external_body]
fn put_u64_be(buffer: &mut Vec<u8>, value: u64)
    ensures
        final(buffer)@ == old(buffer)@ + be_bytes(value as nat, 8),
{
    buffer.put_u64(value)
}

/// `BufMut::put_u64_le` on a `Vec<u8>`: appends the eight bytes of `value`,
/// least significant first.
#[verifier::external_body]
fn put_u64_le(buffer: &mut Vec<u8>, value: u64)
    ensures
        final(buffer)@ == old(buffer)@ + le_bytes(value as nat, 8),
{
    buffer.put_u64_le(value)
}

/// `BufMut::put_u32` on a `Vec<u8>`: appends the four bytes of `value`, most
/// significant first.
#[verifier::external_body]
fn put_u32_be(buffer: &mut Vec<u8>, value: u32)
    ensures
        final(buffer)@ == old(buffer)@ + be_bytes(value as nat, 4),
{
    buffer.put_u32(value)
}

/// `BufMut::put_u32_le` on a `Vec<u8>`: appends the four bytes of `value`,
/// least significant first.
#[verifier::external_body]
fn put_u32_le(buffer: &mut Vec<u8>, value: u32)
    ensures
        final(buffer)@ == old(buffer)@ + le_bytes(value as nat, 4),
{
    buffer.put_u32_le(value)
}

/// `SafeBuf::try_get_u64` on a byte slice: with eight bytes or more left, it
/// takes the first eight off the slice and returns the number they spell,
/// most significant first; with fewer it fails and takes nothing.
#[verifier::external_body]
fn try_get_u64_be(buffer: &mut &[u8]) -> (result: Result<u64, Truncated>)
    ensures
        old(buffer)@.len() >= 8 ==> result is Ok && result->Ok_0 == be_value(old(buffer)@.take(8))
            && final(buffer)@ == old(buffer)@.skip(8),
        old(buffer)@.len() < 8 ==> result is Err && final(buffer)@ == old(buffer)@,
{
    buffer.try_get_u64()
}

/// `SafeBuf::try_get_u64_le` on a byte slice: as `try_get_u64`, least
/// significant byte first.
#[verifier::external_body]
fn try_get_u64_le(buffer: &mut &[u8]) -> (result: Result<u64, Truncated>)
    ensures
        old(buffer)@.len() >= 8 ==> result is Ok && result->Ok_0 == le_value(old(buffer)@.take(8))
            && final(buffer)@ == old(buffer)@.skip(8),
        old(buffer)@.len() < 8 ==> result is Err && final(buffer)@ == old(buffer)@,
{
    buffer.try_get_u64_le()
}

/// `SafeBuf::try_get_u32` on a byte slice: with four bytes or more left, it
/// takes the first four off the slice and returns the number they spell,
/// most significant first; with fewer it fails and takes nothing.
#[verifier::external_body]
fn try_get_u32_be(buffer: &mut &[u8]) -> (result: Result<u32, Truncated>)
    ensures
        old(buffer)@.len() >= 4 ==> result is Ok && result->Ok_0 == be_value(old(buffer)@.take(4))
            && final(buffer)@ == old(buffer)@.skip(4),
        old(buffer)@.len() < 4 ==> result is Err && final(buffer)@ == old(buffer)@,
{
    buffer.try_get_u32()
}

/// `SafeBuf::try_get_u32_le` on a byte slice: as `try_get_u32`, least
/// significant byte first.
#[verifier::external_body]
fn try_get_u32_le(buffer: &mut &[u8]) -> (result: Result<u32, Truncated>)
    ensures
        old(buffer)@.len() >= 4 ==> result is Ok && result->Ok_0 == le_value(old(buffer)@.take(4))
            && final(buffer)@ == old(buffer)@.skip(4),
        old(buffer)@.len() < 4 ==> result is Err && final(buffer)@ == old(buffer)@,
{
    buffer.try_get_u32_le()
}

/// Appends the eight bytes of `value` to `buffer` in the given byte order.
pub fn put_u64(buffer: &mut Vec<u8>, value: u64, order: ByteOrder)
    ensures
        final(buffer)@ == old(buffer)@ + wire_bytes(value as nat, 8, order),
{
    match order {
        ByteOrder::BigEndian => put_u64_be(buffer, value),
        ByteOrder::LittleEndian => put_u64_le(buffer, value),
    }
}

/// Appends the four bytes of `value` to `buffer` in the given byte order.
pub fn put_u32(buffer: &mut Vec<u8>, value: u32, order: ByteOrder)
    ensures
        final(buffer)@ == old(buffer)@ + wire_bytes(value as nat, 4, order),
{
    match order {
        ByteOrder::BigEndian => put_u32_be(buffer, value),
        ByteOrder::LittleEndian => put_u32_le(buffer, value),
    }
}

/// Takes a 64-bit integer in the given byte order off the front of `buffer`.
///
/// # Errors
///
/// Fails with [`DecodeError::Truncated`] if fewer than eight bytes are left;
/// `buffer` is then unchanged.
pub fn try_get_u64(buffer: &mut &[u8], order: ByteOrder) -> (result: Result<u64, DecodeError>)
    ensures
        match result {
            Ok(value) => {
                &&& old(buffer)@.len() >= 8
                &&& value == wire_value(old(buffer)@.take(8), order)
                &&& final(buffer)@ == old(buffer)@.skip(8)
            },
            Err(error) => {
                &&& old(buffer)@.len() < 8
                &&& error == DecodeError::Truncated
                &&& final(buffer)@ == old(buffer)@
            },
        },
{
    let read = match order {
        ByteOrder::BigEndian => try_get_u64_be(buffer),
        ByteOrder::LittleEndian => try_get_u64_le(buffer),
    };
    match read {
        Ok(value) => Ok(value),
        Err(_) => Err(DecodeError::Truncated),
    }
}

/// Takes a 32-bit integer in the given byte order off the front of `buffer`.
///
/// # Errors
///
/// Fails with [`DecodeError::Truncated`] if fewer than four bytes are left;
/// `buffer` is then unchanged.
pub fn try_get_u32(buffer: &mut &[u8], order: ByteOrder) -> (result: Result<u32, DecodeError>)
    ensures
        match result {
            Ok(value) => {
                &&& old(buffer)@.len() >= 4
                &&& value == wire_value(old(buffer)@.take(4), order)
                &&& final(buffer)@ == old(buffer)@.skip(4)
            },
            Err(error) => {
                &&& old(buffer)@.len() < 4
                &&& error == DecodeError::Truncated
                &&& final(buffer)@ == old(buffer)@
            },
        },
{
    let read = match order {
        ByteOrder::BigEndian => try_get_u32_be(buffer),
        ByteOrder::LittleEndian => try_get_u32_le(buffer),
    };
    match read {
        Ok(value) => Ok(value),
        Err(_) => Err(DecodeError::Truncated),
    }
}

} // verus!
