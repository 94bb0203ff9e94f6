//! Encoding, decoding, framing and validation of CMRInet messages, with the typed
//! configuration of the five node kinds.
use vstd::prelude::*;

pub mod address;
pub mod buffer;
pub mod frame;
pub mod node_configuration;
pub mod packet;
pub mod readings;
pub mod statistics;

pub use address::Address;
pub use frame::Raw as Frame;
pub use node_configuration::{NodeConfiguration, NodeSort};

verus! {

/// Default speed for serial communications: 8 data bits, 1 stop bit, no parity.
pub const DEFAULT_BAUD: u32 = 19_200;

} // verus!
