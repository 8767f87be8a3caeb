//! The crate's error taxonomy.
//!
//! Reply parsing reports one uniform "invalid ABI" category: by design it
//! does not say which field failed. Cross-chain mapping distinguishes an
//! unsupported source shape from a numeric value that cannot be carried
//! exactly. Simulation reports what went wrong around the engine call.

use vstd::prelude::*;

verus! {

/// A reply token did not have the declared shape, or a field's value did not
/// fit its declared width. Deliberately carries no further detail.
#[derive(Debug, Clone, Copy, PartialEq, Eq, Structural)]
pub enum AbiError {
    InvalidAbi,
}

/// Cross-chain mapping failure.
#[derive(Debug, Clone, Copy, PartialEq, Eq, Structural)]
pub enum MapError {
    /// The source value's shape has no counterpart in the destination ABI.
    UnsupportedType,
    /// An integer's value cannot be represented exactly in the destination's
    /// fixed 256-bit width.
    IntegerOverflow,
}

/// Call-simulation failure around the engine's output.
#[derive(Debug, Clone, Copy, PartialEq, Eq, Structural)]
pub enum SimError {
    /// Only inbound messages can be simulated; the outbound kind is invalid
    /// input to this path.
    InvalidMessageType,
    /// The engine's output actions held no outbound reply of this accessor.
    NoMessagesProduced,
    /// An outbound reply message carried no body.
    MessageWithoutBody,
    /// An outbound reply body was too short to hold a selector.
    MalformedReply,
}

} // verus!
