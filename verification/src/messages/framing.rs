//! How submessages lie one after another in a message.
//!
//! Each submessage starts with a header of four bytes: its kind, its flags
//! and, in the byte order that bit 0 of the flags tells, the number of bytes
//! that follow the header. A length of zero means that the submessage goes
//! on to the end of the message, so no other can follow it.

use crate::cdr::integers::{
    lemma_capacity, lemma_two_byte_value, lemma_two_bytes, lemma_wire_bytes_len,
    lemma_wire_round_trip, wire_bytes, wire_value,
};
use crate::cdr::DecodeError;
use crate::messages::submessage::{byte_order_of, ENDIANNESS_FLAG};
use crate::messages::ByteOrder;
use vstd::prelude::*;

verus! {

/// The number of bytes of the header of a submessage.
pub const HEADER_LEN: usize = 4;

/// A submessage as it lies in a buffer: what its header says, and where the
/// bytes after its header start and end.
#[derive(Debug, Clone, Copy, PartialEq, Eq, Structural)]
pub struct Frame {
    /// The byte that tells the kind of the submessage.
    pub kind: u8,
    /// The flags of the submessage. Bit 0 tells the byte order.
    pub flags: u8,
    /// The length that the header states. Zero: up to the end of the
    /// message.
    pub len: u16,
    /// The index in the buffer of the first byte after the header.
    pub start: usize,
    /// The index in the buffer after the last byte of the submessage.
    pub end: usize,
}

impl Frame {
    /// Tells whether this submessage is marked as the last of its message.
    #[must_use]
    pub fn is_last(&self) -> (last: bool)
        ensures
            last == (self.len == 0),
    {
        self.len == 0
    }

    /// Returns the byte order in which this submessage is encoded.
    #[must_use]
    pub fn endianness(&self) -> (order: ByteOrder)
        ensures
            order == byte_order_of(self.flags),
    {
        let flags = self.flags;
        assert(flags & 1 == flags % 2) by (bit_vector);
        if (flags & ENDIANNESS_FLAG) != 0 {
            ByteOrder::LittleEndian
        } else {
            ByteOrder::BigEndian
        }
    }
}

/// The length that the header at `at` states.
pub open spec fn stated_len(bytes: Seq<u8>, at: int) -> nat {
    wire_value(bytes.subrange(at + 2, at + 4), byte_order_of(bytes[at + 1]))
}

/// Where the submessage whose header starts at `at` ends: with the bytes
/// if its length is zero, else as far after its header as its length says.
pub open spec fn end_of(bytes: Seq<u8>, at: int) -> int {
    if stated_len(bytes, at) == 0 {
        bytes.len() as int
    } else {
        at + HEADER_LEN + stated_len(bytes, at)
    }
}

/// The submessage whose header starts at `at`.
pub open spec fn frame_at(bytes: Seq<u8>, at: int) -> Frame {
    Frame {
        kind: bytes[at],
        flags: bytes[at + 1],
        len: stated_len(bytes, at) as u16,
        start: (at + HEADER_LEN) as usize,
        end: end_of(bytes, at) as usize,
    }
}

/// `frames` followed by what `rest` holds, or the error that `rest` is.
pub open spec fn followed_by(frames: Seq<Frame>, rest: Result<Seq<Frame>, DecodeError>) -> Result<
    Seq<Frame>,
    DecodeError,
> {
    match rest {
        Ok(more) => Ok(frames + more),
        Err(error) => Err(error),
    }
}

/// The submessages that lie in `bytes` from `at` to the end, in order.
///
/// Fails with `Truncated` if the bytes end within a header or before a
/// submessage does.
pub open spec fn frames_from(bytes: Seq<u8>, at: int) -> Result<Seq<Frame>, DecodeError>
    decreases bytes.len() - at,
{
    if at < 0 || at >= bytes.len() {
        Ok(Seq::empty())
    } else if bytes.len() - at < HEADER_LEN {
        Err(DecodeError::Truncated)
    } else if end_of(bytes, at) > bytes.len() {
        Err(DecodeError::Truncated)
    } else {
        followed_by(seq![frame_at(bytes, at)], frames_from(bytes, end_of(bytes, at)))
    }
}

/// The submessages of a message whose bytes after the header are `bytes`.
///
/// Fails with `NoSubmessages` if there are no bytes, since a message holds
/// at least one submessage.
pub open spec fn framed(bytes: Seq<u8>) -> Result<Seq<Frame>, DecodeError> {
    if bytes.len() == 0 {
        Err(DecodeError::NoSubmessages)
    } else {
        frames_from(bytes, 0)
    }
}

/// Finds the submessages in `bytes`, which are the bytes of a message after
/// its header.
///
/// # Errors
///
/// Fails with [`DecodeError::NoSubmessages`] if `bytes` is empty, and with
/// [`DecodeError::Truncated`] if the bytes end within a header or before a
/// submessage does.
pub fn frames(bytes: &[u8]) -> (result: Result<Vec<Frame>, DecodeError>)
    ensures
        match result {
            Ok(found) => framed(bytes@) == Ok::<_, DecodeError>(found@),
            Err(error) => framed(bytes@) == Err::<Seq<Frame>, _>(error),
        },
{
    let total = bytes.len();
    if total == 0 {
        return Err(DecodeError::NoSubmessages);
    }
    let mut found: Vec<Frame> = Vec::new();
    let mut at: usize = 0;
    assert(followed_by(found@, frames_from(bytes@, 0)) == frames_from(bytes@, 0)) by {
        match frames_from(bytes@, 0) {
            Ok(more) => {
                assert(found@ + more =~= more);
            },
            Err(_) => {},
        }
    }
    while at < total
        invariant
            total == bytes@.len(),
            at <= total,
            frames_from(bytes@, 0) == followed_by(found@, frames_from(bytes@, at as int)),
        decreases total - at,
    {
        if total - at < HEADER_LEN {
            return Err(DecodeError::Truncated);
        }
        let kind = bytes[at];
        let flags = bytes[at + 1];
        let first = bytes[at + 2];
        let second = bytes[at + 3];
        let little = (flags & ENDIANNESS_FLAG) != 0;
        let len: u16 = if little {
            (second as u16) * 256 + first as u16
        } else {
            (first as u16) * 256 + second as u16
        };
        proof {
            assert(flags & 1 == flags % 2) by (bit_vector);
            lemma_two_bytes(bytes@.subrange(at + 2, at + 4));
        }
        let start = at + HEADER_LEN;
        let end = if len == 0 {
            total
        } else {
            if total - start < len as usize {
                return Err(DecodeError::Truncated);
            }
            start + len as usize
        };
        let frame = Frame { kind, flags, len, start, end };
        assert(frame == frame_at(bytes@, at as int));
        proof {
            let rest = frames_from(bytes@, end as int);
            match rest {
                Ok(more) => {
                    assert(found@ + (seq![frame] + more) =~= found@.push(frame) + more);
                },
                Err(_) => {},
            }
        }
        found.push(frame);
        at = end;
    }
    proof {
        assert(found@ + Seq::<Frame>::empty() =~= found@);
    }
    Ok(found)
}

/// Appends the header of a submessage to `buffer`: the kind, the flags and
/// the length, the length in the byte order that bit 0 of the flags tells.
pub fn put_header(buffer: &mut Vec<u8>, kind: u8, flags: u8, len: u16)
    ensures
        final(buffer)@ == old(buffer)@ + header_bytes(kind, flags, len),
{
    let high = (len / 256) as u8;
    let low = (len % 256) as u8;
    let little = (flags & ENDIANNESS_FLAG) != 0;
    proof {
        assert(flags & 1 == flags % 2) by (bit_vector);
        lemma_two_byte_value(len);
    }
    buffer.push(kind);
    buffer.push(flags);
    if little {
        buffer.push(low);
        buffer.push(high);
    } else {
        buffer.push(high);
        buffer.push(low);
    }
    assert(buffer@ =~= old(buffer)@ + header_bytes(kind, flags, len));
}

/// The four bytes of the header of a submessage.
pub open spec fn header_bytes(kind: u8, flags: u8, len: u16) -> Seq<u8> {
    seq![kind, flags] + wire_bytes(len as nat, 2, byte_order_of(flags))
}

/// A header that was written is read back as it was, whatever follows it
/// and in either byte order.
pub proof fn lemma_header_round_trip(kind: u8, flags: u8, len: u16, payload: Seq<u8>)
    ensures
        header_bytes(kind, flags, len).len() == HEADER_LEN,
        frame_at(header_bytes(kind, flags, len) + payload, 0).kind == kind,
        frame_at(header_bytes(kind, flags, len) + payload, 0).flags == flags,
        frame_at(header_bytes(kind, flags, len) + payload, 0).len == len,
        len == 0 || len == payload.len() ==> framed(header_bytes(kind, flags, len) + payload)
            == Ok::<_, DecodeError>(seq![frame_at(header_bytes(kind, flags, len) + payload, 0)])
            && end_of(header_bytes(kind, flags, len) + payload, 0) == HEADER_LEN + payload.len(),
{
    let order = byte_order_of(flags);
    let bytes = header_bytes(kind, flags, len) + payload;
    lemma_capacity();
    lemma_wire_bytes_len(len as nat, 2, order);
    lemma_wire_round_trip(len as nat, 2, order);
    assert(bytes.subrange(2, 4) =~= wire_bytes(len as nat, 2, order));
    if len == 0 || len == payload.len() {
        let frame = frame_at(bytes, 0);
        assert(end_of(bytes, 0) == bytes.len());
        assert(frames_from(bytes, bytes.len() as int) == Ok::<_, DecodeError>(
            Seq::<Frame>::empty(),
        ));
        assert(seq![frame] + Seq::<Frame>::empty() =~= seq![frame]);
    }
}

/// The submessages found in a buffer lie one after another and fill it: the
/// first header starts at `from`, each next header starts where the
/// submessage before it ends, and the last submessage ends with the bytes.
/// Only the last can have the length zero; every other is as long as its
/// header says.
pub proof fn lemma_frames_tile(bytes: Seq<u8>, from: int)
    requires
        0 <= from <= bytes.len() <= usize::MAX,
        frames_from(bytes, from) is Ok,
    ensures
        ({
            let found = frames_from(bytes, from)->Ok_0;
            &&& found.len() == 0 <==> from == bytes.len()
            &&& found.len() > 0 ==> found.first().start == from + HEADER_LEN && found.last().end
                == bytes.len()
            &&& forall|i: int|
                0 <= i < found.len() ==> (#[trigger] found[i]).start <= found[i].end
                    <= bytes.len()
            &&& forall|i: int|
                0 <= i < found.len() - 1 ==> (#[trigger] found[i]).len > 0 && found[i].end
                    - found[i].start == found[i].len && found[i + 1].start == found[i].end
                    + HEADER_LEN
        }),
    decreases bytes.len() - from,
{
    if from < bytes.len() {
        let frame = frame_at(bytes, from);
        let next = end_of(bytes, from);
        let rest = frames_from(bytes, next);
        let found = frames_from(bytes, from)->Ok_0;
        lemma_frames_tile(bytes, next);
        let more = rest->Ok_0;
        assert(found =~= seq![frame] + more);
        lemma_two_bytes(bytes.subrange(from + 2, from + 4));
        assert forall|i: int| 0 <= i < found.len() implies (#[trigger] found[i]).start <= found[i].end
            <= bytes.len() by {
            if i > 0 {
                assert(found[i] == more[i - 1]);
            }
        }
        assert forall|i: int| 0 <= i < found.len() - 1 implies (#[trigger] found[i]).len > 0
            && found[i].end - found[i].start == found[i].len && found[i + 1].start
            == found[i].end + HEADER_LEN by {
            if i > 0 {
                assert(found[i] == more[i - 1]);
                assert(found[i + 1] == more[i]);
            } else {
                assert(found[1] == more[0]);
            }
        }
        if more.len() > 0 {
            assert(found.last() == more.last());
        }
    }
}

} // verus!
