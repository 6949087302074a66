//! Wire model and codec core of the Real-Time Publish-Subscribe (RTPS)
//! protocol.
//!
//! - [`structure`]: the actors of the protocol and how they are told apart
//!   and reached, and the history cache of changes.
//! - [`messages`]: messages, submessages and their elements, and how
//!   submessages lie in a message.
//! - [`cdr`]: how wire elements are turned into bytes and back.

pub mod cdr;
pub mod messages;
pub mod structure;
