//! The configuration of the nodes on a CMRInet network.
use vstd::prelude::*;

pub mod cp;
pub mod node_cards;
pub mod node_sort;
pub mod sic;
pub mod smini;

pub use node_cards::Error as NodeCardsError;
pub use cp::{CpOptions, CpmegaConfiguration, CpmegaOptions, CpnodeConfiguration, CpnodeOptions};
pub use smini::Configuration as SminiConfiguration;
pub use node_sort::{ConfigurationSummary, NodeConfiguration, NodeSort, NodeSortView};
pub use sic::{SicConfiguration, SusicConfiguration, UsicConfiguration};

verus! {

/// Node description parameter of a classic USIC (24 bit cards).
pub const NDP_USIC: u8 = 78;
/// Node description parameter of a SUSIC (32 bit cards).
pub const NDP_SUSIC: u8 = 88;
/// Node description parameter of a SMINI (24 inputs, 48 outputs).
pub const NDP_SMINI: u8 = 77;
/// Node description parameter of a CPNODE (16 to 144 input and output bits).
pub const NDP_CPNODE: u8 = 67;
/// Node description parameter of a CPMEGA (0 to 192 input and output bits).
pub const NDP_CPMEGA: u8 = 79;

/// The errors which can occur when decoding or creating a node's configuration.
#[derive(Clone, Copy, Debug, PartialEq, Eq, Hash)]
pub enum InvalidConfigurationError {
    /// The cards of a USIC or SUSIC are invalid.
    Sic { source: NodeCardsError },
    /// The oscillating pairs of a SMINI are invalid.
    Smini { source: SminiConfigurationError },
    /// The input and output bytes of a CPNODE or CPMEGA are invalid.
    Cp { source: CpConfigurationError },
}

/// Errors which can happen when decoding or creating a SMINI configuration.
#[derive(Clone, Copy, Debug, PartialEq, Eq, Hash)]
pub enum SminiConfigurationError {
    /// At least one run of set bits in the oscillating pairs has an odd length.
    NonAdjacent,
}

/// Errors which can happen when decoding or creating a CPNODE or CPMEGA configuration.
#[derive(Clone, Copy, Debug, PartialEq, Eq, Hash)]
pub enum CpConfigurationError {
    /// The number of input and output bits (first field) lies outside the range from the
    /// second to the third field (inclusive).
    InvalidInputOutputBitsCount(u16, u8, u8),
}

} // verus!
