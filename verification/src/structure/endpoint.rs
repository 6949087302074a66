use crate::structure::entity::Entity;
use crate::structure::guid::Guid;
use crate::structure::locator::Locator;
use vstd::prelude::*;

verus! {

/// Whether an endpoint supports the lifecycle of keyed data instances.
#[derive(Debug, Clone, Copy, PartialEq, Eq, Structural)]
pub enum TopicKind {
    /// The topic has a key: its data objects are told apart by it.
    WithKey,
    /// The topic has no key.
    NoKey,
}

/// The level of reliability that an endpoint supports.
#[derive(Debug, Clone, Copy, PartialEq, Eq, Structural)]
pub enum ReliabilityKind {
    /// Changes may be lost.
    BestEffort,
    /// Lost changes are sent again.
    Reliable,
}

/// A reader or a writer of changes.
#[derive(Debug)]
pub struct Endpoint {
    guid: Guid,
    unicast_locators: Vec<Locator>,
    multicast_locators: Vec<Locator>,
    topic_kind: TopicKind,
    reliability_kind: ReliabilityKind,
}

/// Mathematical model of an [`Endpoint`].
pub struct EndpointView {
    /// The identifier of the endpoint.
    pub guid: Guid,
    /// Where the endpoint is reached by unicast. May be empty, in which case
    /// the defaults of the participant apply.
    pub unicast_locators: Seq<Locator>,
    /// Where the endpoint is reached by multicast. May be empty, in which
    /// case the defaults of the participant apply.
    pub multicast_locators: Seq<Locator>,
    /// Whether the topic has a key.
    pub topic_kind: TopicKind,
    /// The level of reliability.
    pub reliability_kind: ReliabilityKind,
}

impl View for Endpoint {
    type V = EndpointView;

    closed spec fn view(&self) -> EndpointView {
        EndpointView {
            guid: self.guid,
            unicast_locators: self.unicast_locators@,
            multicast_locators: self.multicast_locators@,
            topic_kind: self.topic_kind,
            reliability_kind: self.reliability_kind,
        }
    }
}

impl Endpoint {
    /// Creates an endpoint.
    #[must_use]
    pub fn new(
        guid: Guid,
        unicast_locators: Vec<Locator>,
        multicast_locators: Vec<Locator>,
        topic_kind: TopicKind,
        reliability_kind: ReliabilityKind,
    ) -> (endpoint: Self)
        ensures
            endpoint@ == (EndpointView {
                guid,
                unicast_locators: unicast_locators@,
                multicast_locators: multicast_locators@,
                topic_kind,
                reliability_kind,
            }),
    {
        Self { guid, unicast_locators, multicast_locators, topic_kind, reliability_kind }
    }

    /// Returns this endpoint's unicast locators.
    #[must_use]
    pub fn unicast_locators(&self) -> (locators: &Vec<Locator>)
        ensures
            locators@ == self@.unicast_locators,
    {
        &self.unicast_locators
    }

    /// Returns this endpoint's multicast locators.
    #[must_use]
    pub fn multicast_locators(&self) -> (locators: &Vec<Locator>)
        ensures
            locators@ == self@.multicast_locators,
    {
        &self.multicast_locators
    }

    /// Returns whether the topic of this endpoint has a key.
    #[must_use]
    pub fn topic_kind(&self) -> (kind: TopicKind)
        ensures
            kind == self@.topic_kind,
    {
        self.topic_kind
    }

    /// Returns the level of reliability of this endpoint.
    #[must_use]
    pub fn reliability_kind(&self) -> (kind: ReliabilityKind)
        ensures
            kind == self@.reliability_kind,
    {
        self.reliability_kind
    }
}

impl Entity for Endpoint {
    open spec fn spec_guid(&self) -> Guid {
        self@.guid
    }

    fn guid(&self) -> (guid: Guid) {
        self.guid
    }
}

} // verus!
