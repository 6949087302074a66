//! The participant and its builder.

use crate::structure::entity::Entity;
use crate::structure::group::{Group, Publisher, Subscriber};
use crate::structure::guid::{EntityId, Guid, GuidPrefix};
use crate::structure::locator::Locator;
use crate::structure::protocol_version::ProtocolVersion;
use crate::structure::vendor_id::VendorId;
use vstd::prelude::*;

verus! {

/// The top-level actor of the protocol: it owns the publishers and
/// subscribers of one process.
#[derive(Debug)]
pub struct Participant {
    guid: Guid,
    protocol_version: ProtocolVersion,
    vendor_id: VendorId,
    default_unicast_locators: Vec<Locator>,
    default_multicast_locators: Vec<Locator>,
}

/// Mathematical model of a [`Participant`].
pub struct ParticipantView {
    /// The identifier of the participant.
    pub guid: Guid,
    /// The version of the protocol that the participant speaks.
    pub protocol_version: ProtocolVersion,
    /// The vendor of the implementation.
    pub vendor_id: VendorId,
    /// Where endpoints without unicast locators of their own are reached.
    pub default_unicast_locators: Seq<Locator>,
    /// Where endpoints without multicast locators of their own are reached.
    pub default_multicast_locators: Seq<Locator>,
}

/// A participant in the making: what has been chosen so far.
///
/// What is left unset gets its default when the participant is built, and
/// not before.
#[derive(Debug)]
#[must_use]
pub struct Builder {
    guid: Guid,
    protocol_version: Option<ProtocolVersion>,
    vendor_id: Option<VendorId>,
    default_unicast_locators: Vec<Locator>,
    default_multicast_locators: Vec<Locator>,
}

/// Mathematical model of a [`Builder`].
pub struct BuilderView {
    /// The identifier that the participant will have.
    pub guid: Guid,
    /// The protocol version, if one was chosen.
    pub protocol_version: Option<ProtocolVersion>,
    /// The vendor, if one was chosen.
    pub vendor_id: Option<VendorId>,
    /// The default unicast locators chosen; empty if none were.
    pub default_unicast_locators: Seq<Locator>,
    /// The default multicast locators chosen; empty if none were.
    pub default_multicast_locators: Seq<Locator>,
}

impl BuilderView {
    /// A builder on which nothing has been chosen.
    pub open spec fn unset(guid: Guid) -> Self {
        BuilderView {
            guid,
            protocol_version: None,
            vendor_id: None,
            default_unicast_locators: Seq::empty(),
            default_multicast_locators: Seq::empty(),
        }
    }

    /// The participant that this builder builds: the latest protocol
    /// version and the unknown vendor stand in for what was not chosen.
    pub open spec fn built(self) -> ParticipantView {
        ParticipantView {
            guid: self.guid,
            protocol_version: match self.protocol_version {
                Some(version) => version,
                None => ProtocolVersion::Latest,
            },
            vendor_id: match self.vendor_id {
                Some(vendor) => vendor,
                None => VendorId::Unknown,
            },
            default_unicast_locators: self.default_unicast_locators,
            default_multicast_locators: self.default_multicast_locators,
        }
    }
}

impl View for Builder {
    type V = BuilderView;

    closed spec fn view(&self) -> BuilderView {
        BuilderView {
            guid: self.guid,
            protocol_version: self.protocol_version,
            vendor_id: self.vendor_id,
            default_unicast_locators: self.default_unicast_locators@,
            default_multicast_locators: self.default_multicast_locators@,
        }
    }
}

impl View for Participant {
    type V = ParticipantView;

    closed spec fn view(&self) -> ParticipantView {
        ParticipantView {
            guid: self.guid,
            protocol_version: self.protocol_version,
            vendor_id: self.vendor_id,
            default_unicast_locators: self.default_unicast_locators@,
            default_multicast_locators: self.default_multicast_locators@,
        }
    }
}

impl Builder {
    fn new(guid_prefix: GuidPrefix, entity_id: EntityId) -> (builder: Self)
        ensures
            builder@.guid.prefix() == guid_prefix,
            builder@.guid.entity_id() == entity_id,
            builder@ == BuilderView::unset(builder@.guid),
    {
        let guid = Guid::new(guid_prefix, entity_id);
        let protocol_version = None;
        let vendor_id = None;
        let default_unicast_locators = Vec::new();
        let default_multicast_locators = Vec::new();
        Self {
            guid,
            protocol_version,
            vendor_id,
            default_unicast_locators,
            default_multicast_locators,
        }
    }

    /// Sets the protocol version of the participant.
    pub fn protocol_version(self, major: u16, minor: u16) -> (builder: Self)
        ensures
            builder@ == (BuilderView {
                protocol_version: Some(ProtocolVersion::Specified { major, minor }),
                ..self@
            }),
    {
        let mut builder = self;
        builder.protocol_version = Some(ProtocolVersion::Specified { major, minor });
        builder
    }

    /// Sets the vendor of the implementation.
    pub fn vendor_id(self, id: [u8; 2]) -> (builder: Self)
        ensures
            builder@ == (BuilderView { vendor_id: Some(VendorId::Known(id)), ..self@ }),
    {
        let mut builder = self;
        builder.vendor_id = Some(VendorId::Known(id));
        builder
    }

    /// Sets the unicast locators that endpoints without their own fall back
    /// to. They replace any set before.
    pub fn default_unicast_locators(self, locators: Vec<Locator>) -> (builder: Self)
        ensures
            builder@ == (BuilderView { default_unicast_locators: locators@, ..self@ }),
    {
        let mut builder = self;
        builder.default_unicast_locators = locators;
        builder
    }

    /// Sets the multicast locators that endpoints without their own fall
    /// back to. They replace any set before.
    pub fn default_multicast_locators(self, locators: Vec<Locator>) -> (builder: Self)
        ensures
            builder@ == (BuilderView { default_multicast_locators: locators@, ..self@ }),
    {
        let mut builder = self;
        builder.default_multicast_locators = locators;
        builder
    }

    /// Builds the participant, with the defaults for what was not set.
    #[must_use]
    pub fn build(self) -> (participant: Participant)
        ensures
            participant@ == self@.built(),
    {
        Participant {
            guid: self.guid,
            protocol_version: match self.protocol_version {
                Some(version) => version,
                None => ProtocolVersion::default(),
            },
            vendor_id: match self.vendor_id {
                Some(vendor) => vendor,
                None => VendorId::default(),
            },
            default_unicast_locators: self.default_unicast_locators,
            default_multicast_locators: self.default_multicast_locators,
        }
    }
}

impl Entity for Participant {
    open spec fn spec_guid(&self) -> Guid {
        self@.guid
    }

    fn guid(&self) -> (guid: Guid) {
        self.guid
    }
}

impl Participant {
    /// Creates a participant with every default. For other options, use
    /// [`Participant::builder`].
    #[must_use]
    pub fn new(guid_prefix: GuidPrefix, entity_id: EntityId) -> (participant: Self)
        ensures
            participant@.guid.prefix() == guid_prefix,
            participant@.guid.entity_id() == entity_id,
            participant@ == BuilderView::unset(participant@.guid).built(),
    {
        Builder::new(guid_prefix, entity_id).build()
    }

    /// Starts building a participant on which nothing is chosen yet.
    pub fn builder(guid_prefix: GuidPrefix, entity_id: EntityId) -> (builder: Builder)
        ensures
            builder@.guid.prefix() == guid_prefix,
            builder@.guid.entity_id() == entity_id,
            builder@ == BuilderView::unset(builder@.guid),
    {
        Builder::new(guid_prefix, entity_id)
    }

    /// Returns the version of the protocol that this participant speaks.
    #[must_use]
    pub fn protocol_version(&self) -> (version: ProtocolVersion)
        ensures
            version == self@.protocol_version,
    {
        self.protocol_version
    }

    /// Returns the vendor of the implementation.
    #[must_use]
    pub fn vendor_id(&self) -> (vendor: VendorId)
        ensures
            vendor == self@.vendor_id,
    {
        self.vendor_id
    }

    /// Returns the unicast locators that endpoints without their own fall
    /// back to.
    #[must_use]
    pub fn default_unicast_locators(&self) -> (locators: &Vec<Locator>)
        ensures
            locators@ == self@.default_unicast_locators,
    {
        &self.default_unicast_locators
    }

    /// Returns the multicast locators that endpoints without their own fall
    /// back to.
    #[must_use]
    pub fn default_multicast_locators(&self) -> (locators: &Vec<Locator>)
        ensures
            locators@ == self@.default_multicast_locators,
    {
        &self.default_multicast_locators
    }

    /// Creates an empty group of either role under this participant: its
    /// identifier has the prefix of the participant and the given entity ID.
    #[must_use]
    pub fn group<T>(&self, entity_id: EntityId) -> (group: Group<T>)
        ensures
            group.spec_guid().prefix() == self@.guid.prefix(),
            group.spec_guid().entity_id() == entity_id,
            group.spec_endpoints() == Seq::<crate::structure::endpoint::Endpoint>::empty(),
    {
        let guid = Guid::new(self.guid_prefix(), entity_id);
        Group::new(guid)
    }

    /// Creates an empty publisher under this participant: its identifier
    /// has the prefix of the participant and the given entity ID.
    #[must_use]
    pub fn publisher(&self, entity_id: EntityId) -> (publisher: Publisher)
        ensures
            publisher.spec_guid().prefix() == self@.guid.prefix(),
            publisher.spec_guid().entity_id() == entity_id,
            publisher.spec_endpoints() == Seq::<crate::structure::endpoint::Endpoint>::empty(),
    {
        self.group(entity_id)
    }

    /// Creates an empty subscriber under this participant: its identifier
    /// has the prefix of the participant and the given entity ID.
    #[must_use]
    pub fn subscriber(&self, entity_id: EntityId) -> (subscriber: Subscriber)
        ensures
            subscriber.spec_guid().prefix() == self@.guid.prefix(),
            subscriber.spec_guid().entity_id() == entity_id,
            subscriber.spec_endpoints() == Seq::<crate::structure::endpoint::Endpoint>::empty(),
    {
        self.group(entity_id)
    }
}

} // verus!
