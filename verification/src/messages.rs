//! Structures and message definitions used in all communications between RTPS
//! entities.

mod byte_order;
pub mod framing;
pub mod header;
pub mod message;
mod protocol_id;
pub mod submessage;

pub use byte_order::ByteOrder;
pub use message::Message;
pub use protocol_id::ProtocolId;
pub use submessage::SubMessage;
