//! The wire form of an identifier: the twelve bytes of its prefix, then the
//! four bytes of its entity ID. Both are byte strings, so the byte order of
//! the submessage does not touch them.

use crate::cdr::{DecodeError, FromCdr, IntoCdr};
use crate::structure::guid::{EntityId, Guid, GuidPrefix, GuidView};
use vstd::prelude::*;

verus! {

/// The number of bytes of an identifier on the wire.
pub const GUID_LEN: usize = 16;

/// The bytes that stand for `guid`.
pub open spec fn encoded(guid: GuidView) -> Seq<u8> {
    guid.prefix + guid.entity_id
}

/// What the front of `bytes` stands for: an identifier, unless fewer than
/// sixteen bytes are there. Bytes after the identifier are ignored.
pub open spec fn decoded(bytes: Seq<u8>) -> Result<GuidView, DecodeError> {
    if bytes.len() < GUID_LEN {
        Err(DecodeError::Truncated)
    } else {
        Ok(GuidView { prefix: bytes.subrange(0, 12), entity_id: bytes.subrange(12, 16) })
    }
}

/// The number of bytes that the identifier at the front of `bytes` takes,
/// if `bytes` hold all of it: always sixteen.
pub open spec fn extent(bytes: Seq<u8>) -> Option<nat> {
    if bytes.len() < GUID_LEN {
        None
    } else {
        Some(GUID_LEN as nat)
    }
}

/// Decoding the bytes of an identifier gives the identifier back, whatever
/// bytes follow them; and the identifier takes as many bytes as were
/// written for it.
pub proof fn lemma_round_trip(guid: Guid, rest: Seq<u8>)
    ensures
        encoded(guid@).len() == GUID_LEN,
        decoded(encoded(guid@) + rest) == Ok::<_, DecodeError>(guid@),
        extent(encoded(guid@) + rest) == Some(encoded(guid@).len()),
{
    let bytes = encoded(guid@) + rest;
    assert(bytes.subrange(0, 12) =~= guid@.prefix);
    assert(bytes.subrange(12, 16) =~= guid@.entity_id);
}

impl IntoCdr for Guid {
    open spec fn encoding(&self) -> Seq<u8> {
        encoded(self@)
    }

    fn to_buffer(&self, buffer: &mut Vec<u8>) {
        let prefix = self.prefix();
        let entity_id = self.entity_id();
        let ghost before = buffer@;
        for i in 0..12usize
            invariant
                prefix == self.prefix(),
                buffer@ == before + prefix@.take(i as int),
        {
            buffer.push(prefix[i]);
            assert(buffer@ =~= before + prefix@.take(i + 1));
        }
        assert(prefix@.take(12) =~= prefix@);
        for i in 0..4usize
            invariant
                entity_id == self.entity_id(),
                buffer@ == before + prefix@ + entity_id@.take(i as int),
        {
            buffer.push(entity_id[i]);
            assert(buffer@ =~= before + prefix@ + entity_id@.take(i + 1));
        }
        assert(entity_id@.take(4) =~= entity_id@);
        assert(buffer@ =~= before + encoded(self@));
    }
}

impl FromCdr for Guid {
    type DecodeErr = DecodeError;

    open spec fn decoding(bytes: Seq<u8>) -> Result<GuidView, DecodeError> {
        decoded(bytes)
    }

    open spec fn extent(bytes: Seq<u8>) -> Option<nat> {
        extent(bytes)
    }

    fn wire_len(bytes: &[u8]) -> (len: Option<usize>) {
        if bytes.len() < GUID_LEN {
            None
        } else {
            Some(GUID_LEN)
        }
    }

    fn from_bytes(bytes: &[u8]) -> (result: Result<Self, DecodeError>) {
        if bytes.len() < GUID_LEN {
            return Err(DecodeError::Truncated);
        }
        let mut prefix: GuidPrefix = [0; 12];
        for i in 0..12usize
            invariant
                bytes@.len() >= 16,
                forall|k: int| 0 <= k < i ==> prefix@[k] == bytes@[k],
        {
            prefix[i] = bytes[i];
        }
        let mut entity_id: EntityId = [0; 4];
        for i in 0..4usize
            invariant
                bytes@.len() >= 16,
                forall|k: int| 0 <= k < i ==> entity_id@[k] == bytes@[12 + k],
        {
            entity_id[i] = bytes[12 + i];
        }
        let guid = Guid::new(prefix, entity_id);
        assert(guid@.prefix =~= bytes@.subrange(0, 12));
        assert(guid@.entity_id =~= bytes@.subrange(12, 16));
        Ok(guid)
    }
}

} // verus!
