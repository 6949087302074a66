use crate::structure::guid::{EntityId, Guid, GuidPrefix};
use vstd::prelude::*;

verus! {

/// What every actor of the protocol has: an identifier.
///
/// The prefix and the entity ID are read off the identifier; an actor
/// holds no second copy of them.
pub trait Entity {
    /// The identifier of this entity.
    spec fn spec_guid(&self) -> Guid;

    /// Returns the identifier of this entity.
    fn guid(&self) -> (guid: Guid)
        ensures
            guid == self.spec_guid(),
    ;

    /// Returns the prefix of the identifier, which all entities of one
    /// participant share.
    fn guid_prefix(&self) -> (prefix: GuidPrefix)
        ensures
            prefix == self.spec_guid().prefix(),
    {
        self.guid().prefix()
    }

    /// Returns the entity ID of the identifier, which is unique within one
    /// participant.
    fn entity_id(&self) -> (entity_id: EntityId)
        ensures
            entity_id == self.spec_guid().entity_id(),
    {
        self.guid().entity_id()
    }
}

} // verus!
