//! The errors of decoding or building a packet.
use vstd::prelude::*;
use crate::node_configuration::InvalidConfigurationError;

verus! {

/// The errors which can occur when decoding or creating a packet.
#[derive(Clone, Copy, Debug, PartialEq, Eq, Hash)]
pub enum Error {
    /// The node address is outside the valid range of 0-127.
    InvalidNodeAddress(u8),
    /// The unit address is outside the valid range of 65-192.
    InvalidUnitAddress(u8),
    /// The message type within the packet is not of a known type.
    InvalidMessageType(u8),
    /// The packet is too short.
    TooShort,
    /// The packet is too long.
    TooLong,
    /// The body within the packet is too long.
    BodyTooLong,
    /// The node type (within an initialization packet) is not of a known type.
    InvalidNodeType(u8),
    /// The configuration within an initialization packet is invalid.
    InvalidConfiguration {
        /// What the error actually is.
        source: InvalidConfigurationError,
    },
}

} // verus!
