//! The capabilities a payload offers to the envelope, and the messages that
//! have them.

pub mod login;
pub mod message;

use crate::error::ProtocolError;
use crate::messages::message::MessageTag;
use vstd::prelude::*;

verus! {

/// A value that has a representation on the wire.
pub trait Serialize {
    /// The bytes that stand for this value on the wire.
    spec fn encoding(&self) -> Seq<u8>;

    /// Writes this value out as its wire bytes.
    fn encode(&self) -> (out: Vec<u8>)
        ensures
            out@ == self.encoding(),
    ;
}

/// A value that can be read from received bytes.
pub trait Deserialize: Sized {
    /// Whether `outcome` is what decoding `bytes` has to give.
    spec fn decoded(bytes: Seq<u8>, outcome: Result<Self, ProtocolError>) -> bool;

    /// Reads a value from `slice`, or says why the bytes are not one.
    fn decode(slice: &[u8]) -> (outcome: Result<Self, ProtocolError>)
        ensures
            Self::decoded(slice@, outcome),
    ;
}

/// A payload that travels inside an envelope.
pub trait Message {
    /// The message kind under which this payload travels.
    spec fn kind() -> MessageTag;
}

} // verus!
