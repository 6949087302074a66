//! Groups of endpoints: publishers and subscribers.

use crate::structure::endpoint::Endpoint;
use crate::structure::entity::Entity;
use crate::structure::guid::Guid;
use std::marker::PhantomData;
use vstd::prelude::*;

verus! {

/// Marks a group of readers.
#[derive(Debug)]
pub struct Reader;

/// Marks a group of writers.
#[derive(Debug)]
pub struct Writer;

/// A collection of endpoints of one role `T`: all of them writers, or all of
/// them readers.
///
/// A group is made by a participant, whose identifier prefix it shares.
#[derive(Debug)]
pub struct Group<T> {
    guid: Guid,
    marker: PhantomData<T>,
    endpoints: Vec<Endpoint>,
}

/// A group of writers.
pub type Publisher = Group<Writer>;

/// A group of readers.
pub type Subscriber = Group<Reader>;

impl<T> Entity for Group<T> {
    closed spec fn spec_guid(&self) -> Guid {
        self.guid
    }

    fn guid(&self) -> (guid: Guid) {
        self.guid
    }
}

impl<T> Group<T> {
    /// The endpoints of this group, in order.
    pub closed spec fn spec_endpoints(&self) -> Seq<Endpoint> {
        self.endpoints@
    }

    /// Creates an empty group with the given identifier.
    pub(crate) fn new(guid: Guid) -> (group: Self)
        ensures
            group.spec_guid() == guid,
            group.spec_endpoints() == Seq::<Endpoint>::empty(),
    {
        Self { guid, marker: PhantomData, endpoints: Vec::new() }
    }

    /// Returns the endpoints of this group, in order.
    #[must_use]
    pub fn endpoints(&self) -> (endpoints: &Vec<Endpoint>)
        ensures
            endpoints@ == self.spec_endpoints(),
    {
        &self.endpoints
    }
}

} // verus!
