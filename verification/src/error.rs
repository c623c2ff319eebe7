//! The ways in which received bytes can fail to be a message.

use vstd::prelude::*;

verus! {

/// Why a sequence of received bytes was rejected.
#[derive(Clone, Copy, Debug, PartialEq, Eq, Structural)]
pub enum ProtocolError {
    /// The tag code of an inbound message names no known message kind.
    UnknownTag,
    /// A declared length, or the number of bytes handed over for a read,
    /// does not cover what the envelope has to consume.
    Truncated,
    /// A payload is shorter than its fixed-width fields.
    TooShort,
    /// A byte that must be `0` or `1` holds another value.
    InvalidFlag,
}

} // verus!
