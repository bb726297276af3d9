//! The closed set of node hardware types; each variant corresponds to
//! one printable ASCII byte on the wire.

use vstd::prelude::*;

use crate::error::Error;

verus! {

/// Node hardware families addressed by the protocol.
#[derive(Copy, Clone, Debug, PartialEq, Eq, Structural)]
pub enum NodeType {
    /// Classic USIC, and SUSIC using 24 bit input/output cards (`'N'`).
    Usic,
    /// SUSIC using 32 bit input/output cards (`'X'`).
    Susic,
    /// SMINI with fixed 24 inputs and 48 outputs (`'M'`).
    Smini,
    /// CPNODE with 16 to 144 input/outputs using 8 bit cards (`'C'`).
    Cpnode,
}

/// Which node type, if any, a wire byte decodes to.
pub open spec fn spec_node_type_of(b: u8) -> Option<NodeType> {
    if b == 0x4e {
        Some(NodeType::Usic)
    } else if b == 0x58 {
        Some(NodeType::Susic)
    } else if b == 0x4d {
        Some(NodeType::Smini)
    } else if b == 0x43 {
        Some(NodeType::Cpnode)
    } else {
        None
    }
}

impl NodeType {
    /// Decode a wire byte; every byte outside the closed code set is
    /// rejected, never coerced to a default variant.
    pub fn try_from(nt: u8) -> (r: Result<NodeType, Error>)
        ensures
            (match spec_node_type_of(nt) {
                Some(n) => r == Ok::<NodeType, Error>(n),
                None => r == Err::<NodeType, Error>(Error::InvalidNodeType),
            }),
    {
        if nt == 0x4e {
            Ok(NodeType::Usic)
        } else if nt == 0x58 {
            Ok(NodeType::Susic)
        } else if nt == 0x4d {
            Ok(NodeType::Smini)
        } else if nt == 0x43 {
            Ok(NodeType::Cpnode)
        } else {
            Err(Error::InvalidNodeType)
        }
    }
}

} // verus!
