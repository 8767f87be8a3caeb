//! Reconstructs a bridge contract's event record from simulated accessor
//! replies and re-encodes selected fields into the destination chain's ABI.
//!
//! The crate models both chains' ABI values as explicit token trees, parses
//! the accessor's reply tokens into a typed event record, converts source
//! tokens to destination tokens (value-preserving integer reinterpretation,
//! sign extension, address truncation), and packs the fixed relay envelope.
//! The destination chain's byte-level encoding is delegated to the `ethabi`
//! crate behind a trusted boundary.

pub mod contract;
pub mod errors;
pub mod eth;
pub mod eth_abi;
pub mod map;
pub mod numeric;
pub mod record;
pub mod simulate;
pub mod tokens;
