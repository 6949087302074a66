//! The communication actors that make up the RTPS protocol, and how they
//! are told apart and reached.

pub mod endpoint;
pub mod entity;
pub mod group;
pub mod guid;
pub mod history;
pub mod locator;
pub mod participant;
pub mod protocol_version;
pub mod vendor_id;

pub use endpoint::{Endpoint, ReliabilityKind, TopicKind};
pub use entity::Entity;
pub use group::{Group, Publisher, Subscriber};
pub use guid::{EntityId, Guid, GuidPrefix};
pub use locator::Locator;
pub use participant::Participant;
pub use protocol_version::ProtocolVersion;
pub use vendor_id::VendorId;
