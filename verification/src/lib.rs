//! Wire codec for the login exchange of a length-prefixed, little-endian
//! binary protocol: the request frame, the response payload and the envelope
//! that carries typed payloads over a byte stream.
//!
//! Nothing here performs I/O. The envelope's receive path is a step function
//! that is fed the bytes a caller has read and answers with what to read next.

pub mod digest;
pub mod error;
pub mod messages;
pub mod text;
pub mod wire;
