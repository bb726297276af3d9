//! Error taxonomy for the C/MRI protocol layer.
//!
//! Only buffer-capacity violations and encode-time incompleteness are
//! reported to callers; all other malformed-input cases are recovered
//! internally by resynchronising the decoder.

use vstd::prelude::*;

verus! {

/// Everything that the protocol layer can report to a caller.
#[derive(Copy, Clone, Debug, PartialEq, Eq, Structural)]
pub enum Error {
    /// An index was outside the valid range of a buffer.
    OutOfBounds,
    /// A payload exceeded `MAX_PAYLOAD_LEN` during decode, or an input
    /// slice was too long to embed in a payload buffer.
    DataTooLong,
    /// Encode was attempted on a message whose address is unset.
    MissingAddress,
    /// Encode was attempted on a message whose type is unset.
    MissingType,
    /// A type byte on the wire matched none of the recognised codes.
    InvalidMessageType,
    /// A node-type byte matched none of the recognised codes.
    InvalidNodeType,
}

} // verus!
