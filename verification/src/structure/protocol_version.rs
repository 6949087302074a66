use vstd::prelude::*;

verus! {

/// The version of the protocol that a participant speaks.
#[derive(Debug, Clone, Copy, PartialEq, Eq, Structural)]
pub enum ProtocolVersion {
    /// The latest version that this implementation supports.
    Latest,
    /// A given version.
    Specified {
        /// Major version of the protocol.
        major: u16,
        /// Minor version of the protocol.
        minor: u16,
    },
}

impl Default for ProtocolVersion {
    /// The latest supported version.
    fn default() -> (version: Self)
        ensures
            version == ProtocolVersion::Latest,
    {
        ProtocolVersion::Latest
    }
}

} // verus!
