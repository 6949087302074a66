use vstd::prelude::*;
use vstd::std_specs::cmp::PartialEqSpecImpl;

verus! {

/// The prefix component of a [`Guid`]: shared by all entities of one
/// participant.
pub type GuidPrefix = [u8; 12];

/// The entity ID component of a [`Guid`]: unique within one participant.
pub type EntityId = [u8; 4];

/// A unique identifier of an entity within the RTPS protocol.
#[derive(Debug, Clone, Copy, PartialOrd, Ord)]
pub struct Guid {
    prefix: GuidPrefix,
    entity_id: EntityId,
}

/// Mathematical model of a [`Guid`]: the bytes of its two parts.
pub struct GuidView {
    /// The twelve bytes of the prefix.
    pub prefix: Seq<u8>,
    /// The four bytes of the entity ID.
    pub entity_id: Seq<u8>,
}

impl View for Guid {
    type V = GuidView;

    open spec fn view(&self) -> GuidView {
        GuidView { prefix: self.prefix()@, entity_id: self.entity_id()@ }
    }
}

/// Whether two byte arrays hold the same bytes.
pub(crate) fn same_bytes<const N: usize>(left: &[u8; N], right: &[u8; N]) -> (same: bool)
    ensures
        same == (left@ == right@),
        same == (*left == *right),
{
    let mut i: usize = 0;
    while i < N
        invariant
            i <= N,
            forall|k: int| 0 <= k < i ==> left@[k] == right@[k],
        decreases N - i,
    {
        if left[i] != right[i] {
            return false;
        }
        i = i + 1;
    }
    assert(left@ =~= right@);
    assert(*left =~= *right);
    true
}

impl Guid {
    /// The prefix of this identifier.
    pub closed spec fn spec_prefix(&self) -> GuidPrefix {
        self.prefix
    }

    /// The entity ID of this identifier.
    pub closed spec fn spec_entity_id(&self) -> EntityId {
        self.entity_id
    }

    /// Constructs an identifier from a prefix and an entity ID.
    #[must_use]
    pub fn new(prefix: GuidPrefix, entity_id: EntityId) -> (guid: Self)
        ensures
            guid.prefix() == prefix,
            guid.entity_id() == entity_id,
    {
        Self { prefix, entity_id }
    }

    /// Returns the prefix.
    #[must_use]
    #[verifier::when_used_as_spec(spec_prefix)]
    pub fn prefix(&self) -> (prefix: GuidPrefix)
        ensures
            prefix == self.prefix(),
    {
        self.prefix
    }

    /// Returns the entity ID.
    #[must_use]
    #[verifier::when_used_as_spec(spec_entity_id)]
    pub fn entity_id(&self) -> (entity_id: EntityId)
        ensures
            entity_id == self.entity_id(),
    {
        self.entity_id
    }

    /// An identifier is its prefix and its entity ID, and nothing more: two
    /// identifiers with the same bytes are the same.
    pub proof fn lemma_determined_by_parts(self, other: Self)
        ensures
            self@ == other@ <==> self == other,
            self.prefix() == other.prefix() && self.entity_id() == other.entity_id() <==> self
                == other,
    {
        if self@ == other@ {
            assert(self.prefix =~= other.prefix);
            assert(self.entity_id =~= other.entity_id);
        }
    }
}

impl PartialEq for Guid {
    fn eq(&self, other: &Self) -> (equal: bool) {
        same_bytes(&self.prefix, &other.prefix) && same_bytes(&self.entity_id, &other.entity_id)
    }
}

impl Eq for Guid {

}

impl PartialEqSpecImpl for Guid {
    open spec fn obeys_eq_spec() -> bool {
        true
    }

    open spec fn eq_spec(&self, other: &Self) -> bool {
        *self == *other
    }
}

} // verus!
