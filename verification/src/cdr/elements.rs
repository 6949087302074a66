//! The wire form of submessage elements.
//!
//! A sequence number set travels as its base (64 bits), the number of bits
//! in its bitmap (32 bits, a multiple of 32) and the bitmap, one 32-bit word
//! after another. Bit `j` of word `i` is set when offset `32 * i + j` is in
//! the set.

use crate::cdr::bitmap::{
    bit, bitmask_blocks, bitmask_from_elem, bitmask_set, bits_of, lemma_word_by_bits,
    lemma_word_of, word_of,
};
use crate::cdr::integers::{
    lemma_capacity, lemma_wire_bytes_len, lemma_wire_round_trip, put_u32, put_u64, try_get_u32,
    try_get_u64, wire_bytes, wire_value,
};
use crate::cdr::{DecodeError, FromCdrEndian, IntoCdrEndian};
use crate::messages::submessage::elements::{
    lemma_largest_below, SequenceNumberSet, SequenceNumberSetView,
};
use crate::messages::ByteOrder;
use vstd::prelude::*;

verus! {

/// Whether the bitmap of `offsets` has the bit at `position` set.
pub open spec fn offset_bit(offsets: Set<u8>, position: int) -> bool {
    0 <= position <= 255 && offsets.contains(position as u8)
}

/// Word `index` of the bitmap of `offsets`.
pub open spec fn bitmap_word(offsets: Set<u8>, index: int) -> u32 {
    word_of(|j: u32| offset_bit(offsets, 32 * index + j), 32)
}

/// The number of bits in the bitmap of `set`: one for every offset up to
/// the largest, rounded up to a multiple of 32.
pub open spec fn bit_count(set: SequenceNumberSetView) -> nat {
    ((set.max_offset() as nat + 1 + 31) / 32) * 32
}

/// The number of 32-bit words in the bitmap of `set`.
pub open spec fn word_count(set: SequenceNumberSetView) -> nat {
    bit_count(set) / 32
}

/// The first `count` words of the bitmap of `offsets`, on the wire.
pub open spec fn bitmap_bytes(offsets: Set<u8>, count: nat, order: ByteOrder) -> Seq<u8>
    decreases count,
{
    if count == 0 {
        Seq::empty()
    } else {
        bitmap_bytes(offsets, (count - 1) as nat, order) + wire_bytes(
            bitmap_word(offsets, count - 1) as nat,
            4,
            order,
        )
    }
}

/// The bytes that stand for `set` in the given byte order.
pub open spec fn encoded(set: SequenceNumberSetView, order: ByteOrder) -> Seq<u8> {
    wire_bytes(set.base as nat, 8, order) + wire_bytes(bit_count(set), 4, order) + bitmap_bytes(
        set.offsets,
        word_count(set),
        order,
    )
}

/// The bitmap of `count` words is `4 * count` bytes long, and word `index`
/// lies at `4 * index`.
pub proof fn lemma_bitmap_bytes(offsets: Set<u8>, count: nat, order: ByteOrder)
    ensures
        bitmap_bytes(offsets, count, order).len() == 4 * count,
        forall|index: int|
            0 <= index < count ==> #[trigger] bitmap_bytes(offsets, count, order).subrange(
                4 * index,
                4 * index + 4,
            ) == wire_bytes(bitmap_word(offsets, index) as nat, 4, order),
    decreases count,
{
    if count > 0 {
        let before = (count - 1) as nat;
        let head = bitmap_bytes(offsets, before, order);
        let last = wire_bytes(bitmap_word(offsets, count - 1) as nat, 4, order);
        lemma_bitmap_bytes(offsets, before, order);
        lemma_wire_bytes_len(bitmap_word(offsets, count - 1) as nat, 4, order);
        assert forall|index: int| 0 <= index < count implies #[trigger] bitmap_bytes(
            offsets,
            count,
            order,
        ).subrange(4 * index, 4 * index + 4) == wire_bytes(
            bitmap_word(offsets, index) as nat,
            4,
            order,
        ) by {
            if index < before {
                assert((head + last).subrange(4 * index, 4 * index + 4) =~= head.subrange(
                    4 * index,
                    4 * index + 4,
                ));
            } else {
                assert((head + last).subrange(4 * index, 4 * index + 4) =~= last);
            }
        }
    }
}

impl IntoCdrEndian for SequenceNumberSet {
    open spec fn encoding(&self, endianess: ByteOrder) -> Seq<u8> {
        encoded(self@, endianess)
    }

    fn to_buffer_endian(&self, endianess: ByteOrder, buffer: &mut Vec<u8>) {
        let n_offsets: usize = self.max_offset() as usize + 1;
        let offsets = self.offsets();
        let mut bitmask = bitmask_from_elem(n_offsets, false);
        for i in 0..offsets.len()
            invariant
                n_offsets == self@.max_offset() + 1,
                forall|o: u8| self@.offsets.contains(o) ==> o < n_offsets,
                forall|o: u8| offsets@.contains(o) <==> self@.offsets.contains(o),
                bits_of(bitmask).len() == n_offsets,
                forall|k: int|
                    0 <= k < n_offsets ==> (#[trigger] bits_of(bitmask)[k] <==> exists|at: int|
                        0 <= at < i && offsets@[at] == k),
        {
            assert(offsets@.contains(offsets@[i as int]));
            bitmask_set(&mut bitmask, offsets[i] as usize, true);
        }
        let blocks = bitmask_blocks(&bitmask);
        let n_bits: usize = blocks.len() * 32;
        proof {
            lemma_capacity();
            assert(blocks@.len() == word_count(self@));
            assert forall|index: int| 0 <= index < blocks@.len() implies blocks@[index]
                == bitmap_word(self@.offsets, index) by {
                let word = bitmap_word(self@.offsets, index);
                lemma_word_of(|j: u32| offset_bit(self@.offsets, 32 * index + j), 32);
                assert forall|j: u32| j < 32 implies bit(blocks@[index], j) == bit(word, j) by {
                    let position = 32 * index + j;
                    if position < n_offsets {
                        if bits_of(bitmask)[position] {
                            let at = choose|at: int|
                                0 <= at < offsets@.len() && offsets@[at] == position;
                            assert(offsets@.contains(offsets@[at]));
                        } else if offset_bit(self@.offsets, position) {
                            let o = position as u8;
                            assert(offsets@.contains(o));
                        }
                    }
                }
                lemma_word_by_bits(blocks@[index], word);
            }
        }
        put_u64(buffer, self.base(), endianess);
        put_u32(buffer, n_bits as u32, endianess);
        let ghost header = buffer@;
        for i in 0..blocks.len()
            invariant
                forall|index: int|
                    0 <= index < blocks@.len() ==> blocks@[index] == bitmap_word(
                        self@.offsets,
                        index,
                    ),
                buffer@ == header + bitmap_bytes(self@.offsets, i as nat, endianess),
        {
            put_u32(buffer, blocks[i], endianess);
            assert(buffer@ =~= header + bitmap_bytes(self@.offsets, (i + 1) as nat, endianess));
        }
        assert(buffer@ =~= old(buffer)@ + encoded(self@, endianess));
    }
}

/// The number of bitmap words that `bytes` announce: the bit count at bytes
/// 8 to 12, divided by 32.
pub open spec fn wire_word_count(bytes: Seq<u8>, order: ByteOrder) -> nat {
    wire_value(bytes.subrange(8, 12), order) / 32
}

/// Word `index` of the bitmap in `bytes`.
pub open spec fn wire_word(bytes: Seq<u8>, index: int, order: ByteOrder) -> u32 {
    wire_value(bytes.subrange(12 + 4 * index, 16 + 4 * index), order) as u32
}

/// Whether the bitmap in `bytes` has the bit at `position` set.
pub open spec fn wire_bit(bytes: Seq<u8>, position: int, order: ByteOrder) -> bool {
    bit(wire_word(bytes, position / 32, order), (position % 32) as u32)
}

/// Whether `bytes` end before the set that they announce does.
pub open spec fn truncated(bytes: Seq<u8>, order: ByteOrder) -> bool {
    bytes.len() < 12 || bytes.len() < 12 + 4 * wire_word_count(bytes, order)
}

/// Whether the bitmap in `bytes` has a bit set at position 256 or above.
pub open spec fn offset_out_of_range(bytes: Seq<u8>, order: ByteOrder) -> bool {
    exists|position: int|
        256 <= position < 32 * wire_word_count(bytes, order) && #[trigger] wire_bit(
            bytes,
            position,
            order,
        )
}

/// The number of bytes that the set at the front of `bytes` takes, if
/// `bytes` hold all of it: the base, the bit count and the words that the
/// bit count announces.
pub open spec fn extent(order: ByteOrder, bytes: Seq<u8>) -> Option<nat> {
    if truncated(bytes, order) {
        None
    } else {
        Some(12 + 4 * wire_word_count(bytes, order))
    }
}

/// What the front of `bytes` stands for in the given byte order.
///
/// The fields are judged in the order in which they are read. Without the
/// eight bytes of the base the buffer is `Truncated`; a base of zero is
/// rejected as soon as it is read, whatever follows it; then the bit count
/// and the words have to be there; then no bit may stand for an offset that
/// no set can hold. Bytes after the element are ignored.
pub open spec fn decoded(order: ByteOrder, bytes: Seq<u8>) -> Result<
    SequenceNumberSetView,
    DecodeError,
> {
    if bytes.len() < 8 {
        Err(DecodeError::Truncated)
    } else if wire_value(bytes.take(8), order) == 0 {
        Err(DecodeError::ZeroBase)
    } else if truncated(bytes, order) {
        Err(DecodeError::Truncated)
    } else if offset_out_of_range(bytes, order) {
        Err(DecodeError::OffsetOutOfRange)
    } else {
        Ok(
            SequenceNumberSetView {
                base: wire_value(bytes.take(8), order) as u64,
                offsets: Set::new(
                    |o: u8| o < 32 * wire_word_count(bytes, order) && wire_bit(bytes, o as int, order),
                ),
            },
        )
    }
}

impl FromCdrEndian for SequenceNumberSet {
    type DecodeErr = DecodeError;

    open spec fn decoding(endianess: ByteOrder, bytes: Seq<u8>) -> Result<
        SequenceNumberSetView,
        DecodeError,
    > {
        decoded(endianess, bytes)
    }

    open spec fn extent(endianess: ByteOrder, bytes: Seq<u8>) -> Option<nat> {
        extent(endianess, bytes)
    }

    fn wire_len(endianess: ByteOrder, bytes: &[u8]) -> (len: Option<usize>) {
        let mut buffer = bytes;
        if try_get_u64(&mut buffer, endianess).is_err() {
            return None;
        }
        let bit_count = match try_get_u32(&mut buffer, endianess) {
            Ok(bit_count) => bit_count,
            Err(_) => {
                return None;
            },
        };
        assert(bytes@.skip(8).take(4) =~= bytes@.subrange(8, 12));
        let words: usize = (bit_count / 32) as usize;
        if buffer.len() / 4 < words {
            None
        } else {
            Some(12 + 4 * words)
        }
    }

    fn from_bytes_endian(endianess: ByteOrder, bytes: &[u8]) -> (result: Result<
        Self,
        DecodeError,
    >) {
        let mut buffer = bytes;
        let base = match try_get_u64(&mut buffer, endianess) {
            Ok(base) => base,
            Err(error) => {
                return Err(error);
            },
        };
        if base == 0 {
            return Err(DecodeError::ZeroBase);
        }
        let bit_count = match try_get_u32(&mut buffer, endianess) {
            Ok(bit_count) => bit_count,
            Err(error) => {
                return Err(error);
            },
        };
        assert(bytes@.skip(8).take(4) =~= bytes@.subrange(8, 12));
        let n_blocks: u32 = bit_count / 32;
        let mut blocks: Vec<u32> = Vec::new();
        let mut i: u32 = 0;
        while i < n_blocks
            invariant
                i <= n_blocks,
                n_blocks == wire_word_count(bytes@, endianess),
                bytes@.len() >= 12 + 4 * i,
                buffer@ == bytes@.skip(12 + 4 * i),
                blocks@.len() == i,
                forall|index: int|
                    0 <= index < i ==> blocks@[index] == wire_word(bytes@, index, endianess),
                base == wire_value(bytes@.take(8), endianess),
                base != 0,
            decreases n_blocks - i,
        {
            let block = match try_get_u32(&mut buffer, endianess) {
                Ok(block) => block,
                Err(error) => {
                    return Err(error);
                },
            };
            assert(bytes@.skip(12 + 4 * i).take(4) =~= bytes@.subrange(12 + 4 * i, 16 + 4 * i));
            assert(bytes@.skip(12 + 4 * i).skip(4) =~= bytes@.skip(12 + 4 * (i + 1)));
            blocks.push(block);
            i = i + 1;
        }
        let mut set = Self::new(base);
        let mut i: u32 = 0;
        while i < n_blocks
            invariant
                i <= n_blocks,
                n_blocks <= 0x7ff_ffff,
                n_blocks == wire_word_count(bytes@, endianess),
                !truncated(bytes@, endianess),
                base == wire_value(bytes@.take(8), endianess),
                base != 0,
                blocks@.len() == n_blocks,
                forall|index: int|
                    0 <= index < n_blocks ==> blocks@[index] == wire_word(
                        bytes@,
                        index,
                        endianess,
                    ),
                set@.base == base,
                forall|o: u8|
                    set@.offsets.contains(o) <==> o < 32 * i && wire_bit(
                        bytes@,
                        o as int,
                        endianess,
                    ),
                forall|position: int|
                    256 <= position < 32 * i ==> !wire_bit(bytes@, position, endianess),
            decreases n_blocks - i,
        {
            let block = blocks[i as usize];
            let mut n: u32 = 0;
            while n < 32
                invariant
                    n <= 32,
                    i < n_blocks,
                    n_blocks <= 0x7ff_ffff,
                    n_blocks == wire_word_count(bytes@, endianess),
                    !truncated(bytes@, endianess),
                    base == wire_value(bytes@.take(8), endianess),
                    base != 0,
                    block == wire_word(bytes@, i as int, endianess),
                    set@.base == base,
                    forall|o: u8|
                        set@.offsets.contains(o) <==> o < 32 * i + n && wire_bit(
                            bytes@,
                            o as int,
                            endianess,
                        ),
                    forall|position: int|
                        256 <= position < 32 * i + n ==> !wire_bit(bytes@, position, endianess),
                decreases 32 - n,
            {
                let position: u32 = i * 32 + n;
                assert(position / 32 == i && position % 32 == n);
                if block & (1u32 << n) != 0 {
                    if position > 255 {
                        assert(wire_bit(bytes@, position as int, endianess));
                        return Err(DecodeError::OffsetOutOfRange);
                    }
                    set.insert_offset(position as u8);
                }
                n = n + 1;
            }
            i = i + 1;
        }
        assert(set@.offsets =~= decoded(endianess, bytes@)->Ok_0.offsets);
        Ok(set)
    }
}

/// Decoding the bytes of a set gives the set back, in both byte orders,
/// whatever bytes follow them; and the set takes as many bytes as were
/// written for it.
pub proof fn lemma_round_trip_followed(
    set: SequenceNumberSetView,
    order: ByteOrder,
    rest: Seq<u8>,
)
    requires
        set.base > 0,
    ensures
        decoded(order, encoded(set, order) + rest) == Ok::<_, DecodeError>(set),
        extent(order, encoded(set, order) + rest) == Some(encoded(set, order).len()),
        encoded(set, order).len() == 12 + 4 * word_count(set),
{
    let bytes = encoded(set, order) + rest;
    let count = word_count(set);
    let base_bytes = wire_bytes(set.base as nat, 8, order);
    let count_bytes = wire_bytes(bit_count(set), 4, order);
    let bitmap = bitmap_bytes(set.offsets, count, order);
    lemma_capacity();
    lemma_largest_below(set.offsets, 256);
    lemma_wire_bytes_len(set.base as nat, 8, order);
    lemma_wire_bytes_len(bit_count(set), 4, order);
    lemma_bitmap_bytes(set.offsets, count, order);
    lemma_wire_round_trip(set.base as nat, 8, order);
    lemma_wire_round_trip(bit_count(set), 4, order);
    assert(bytes.take(8) =~= base_bytes);
    assert(bytes.subrange(8, 12) =~= count_bytes);
    assert(wire_word_count(bytes, order) == count);
    assert forall|index: int| 0 <= index < count implies wire_word(bytes, index, order)
        == bitmap_word(set.offsets, index) by {
        assert(bytes.subrange(12 + 4 * index, 16 + 4 * index) =~= bitmap.subrange(
            4 * index,
            4 * index + 4,
        ));
        lemma_wire_round_trip(bitmap_word(set.offsets, index) as nat, 4, order);
    }
    assert forall|position: int| 0 <= position < bit_count(set) implies wire_bit(
        bytes,
        position,
        order,
    ) == offset_bit(set.offsets, position) by {
        let index = position / 32;
        let j = (position % 32) as u32;
        lemma_word_of(|j: u32| offset_bit(set.offsets, 32 * index + j), 32);
    }
    assert(!offset_out_of_range(bytes, order));
    assert(decoded(order, bytes)->Ok_0.offsets =~= set.offsets);
}

/// Decoding the bytes of a set gives the set back, in both byte orders.
pub proof fn lemma_round_trip(set: SequenceNumberSetView, order: ByteOrder)
    requires
        set.base > 0,
    ensures
        decoded(order, encoded(set, order)) == Ok::<_, DecodeError>(set),
{
    lemma_round_trip_followed(set, order, Seq::empty());
    assert(encoded(set, order) + Seq::<u8>::empty() =~= encoded(set, order));
}

/// Only the bytes of the element count: what follows them changes neither
/// what is decoded nor how many bytes the element takes.
pub proof fn lemma_decoding_stops_at_extent(order: ByteOrder, bytes: Seq<u8>)
    requires
        extent(order, bytes) is Some,
    ensures
        extent(order, bytes)->0 <= bytes.len(),
        extent(order, bytes.take(extent(order, bytes)->0 as int)) == extent(order, bytes),
        decoded(order, bytes.take(extent(order, bytes)->0 as int)) == decoded(order, bytes),
{
    let len = extent(order, bytes)->0 as int;
    let front = bytes.take(len);
    let count = wire_word_count(bytes, order);
    assert(front.subrange(8, 12) =~= bytes.subrange(8, 12));
    assert(front.take(8) =~= bytes.take(8));
    assert forall|index: int| 0 <= index < count implies wire_word(front, index, order)
        == wire_word(bytes, index, order) by {
        assert(front.subrange(12 + 4 * index, 16 + 4 * index) =~= bytes.subrange(
            12 + 4 * index,
            16 + 4 * index,
        ));
    }
    assert forall|position: int| 0 <= position < 32 * count implies wire_bit(
        front,
        position,
        order,
    ) == wire_bit(bytes, position, order) by {
        assert(wire_word(front, position / 32, order) == wire_word(bytes, position / 32, order));
    }
    if offset_out_of_range(bytes, order) {
        let position = choose|position: int|
            256 <= position < 32 * count && #[trigger] wire_bit(bytes, position, order);
        assert(wire_bit(front, position, order));
    }
    if offset_out_of_range(front, order) {
        let position = choose|position: int|
            256 <= position < 32 * count && #[trigger] wire_bit(front, position, order);
        assert(wire_bit(bytes, position, order));
    }
    if decoded(order, bytes) is Ok {
        assert(decoded(order, front)->Ok_0.offsets =~= decoded(order, bytes)->Ok_0.offsets);
    }
}

/// The bytes of a set with a positive base, cut short anywhere, are
/// rejected as truncated.
pub proof fn lemma_truncation_rejected(set: SequenceNumberSetView, order: ByteOrder, kept: int)
    requires
        set.base > 0,
        0 <= kept < encoded(set, order).len(),
    ensures
        decoded(order, encoded(set, order).take(kept)) == Err::<SequenceNumberSetView, _>(
            DecodeError::Truncated,
        ),
        extent(order, encoded(set, order).take(kept)) is None,
{
    let bytes = encoded(set, order);
    let count = word_count(set);
    lemma_capacity();
    lemma_largest_below(set.offsets, 256);
    lemma_wire_bytes_len(set.base as nat, 8, order);
    lemma_wire_bytes_len(bit_count(set), 4, order);
    lemma_bitmap_bytes(set.offsets, count, order);
    lemma_wire_round_trip(set.base as nat, 8, order);
    lemma_wire_round_trip(bit_count(set), 4, order);
    if kept >= 8 {
        assert(bytes.take(kept).take(8) =~= wire_bytes(set.base as nat, 8, order));
    }
    if kept >= 12 {
        assert(bytes.take(kept).subrange(8, 12) =~= wire_bytes(bit_count(set), 4, order));
    }
}

/// Bytes that start with a base of zero are rejected for the base as soon
/// as the base is there, whatever follows it and however little.
pub proof fn lemma_zero_base_rejected(order: ByteOrder, bytes: Seq<u8>)
    requires
        bytes.len() >= 8,
        wire_value(bytes.take(8), order) == 0,
    ensures
        decoded(order, bytes) == Err::<SequenceNumberSetView, _>(DecodeError::ZeroBase),
{
}

/// Bytes too few to hold a base are rejected as truncated.
pub proof fn lemma_short_base_rejected(order: ByteOrder, bytes: Seq<u8>)
    requires
        bytes.len() < 8,
    ensures
        decoded(order, bytes) == Err::<SequenceNumberSetView, _>(DecodeError::Truncated),
        extent(order, bytes) is None,
{
}

} // verus!
