//! The envelope: a tag, a payload, and the steps by which one is received.

use crate::error::ProtocolError;
use crate::messages::{Deserialize, Message, Serialize};
use crate::wire::{get_u32_le, le_bytes, le_value, lemma_le_value_of_bytes};
use vstd::prelude::*;

verus! {

/// The kinds of message that the protocol knows.
#[derive(Clone, Copy, Debug, PartialEq, Eq, Structural)]
pub enum MessageTag {
    /// The login exchange, wire code 1.
    Login,
}

impl MessageTag {
    /// The wire code of this kind.
    pub open spec fn spec_code(self) -> u32 {
        match self {
            MessageTag::Login => 1,
        }
    }

    /// The kind that a wire code names, if any.
    pub open spec fn of_code(code: u32) -> Option<MessageTag> {
        if code == 1 {
            Some(MessageTag::Login)
        } else {
            None
        }
    }

    /// Resolves a wire code; a code that names no kind is an error.
    pub fn from(i: u32) -> (r: Result<Self, ProtocolError>)
        ensures
            r == match Self::of_code(i) {
                Some(tag) => Ok::<MessageTag, ProtocolError>(tag),
                None => Err(ProtocolError::UnknownTag),
            },
    {
        match i {
            1 => Ok(MessageTag::Login),
            _ => Err(ProtocolError::UnknownTag),
        }
    }

    /// The wire code of this kind.
    pub fn code(&self) -> (c: u32)
        ensures
            c == self.spec_code(),
    {
        match self {
            MessageTag::Login => 1,
        }
    }

    /// Codes and kinds correspond one to one: a kind is found again under its
    /// own code, and under no other.
    pub proof fn lemma_code_round_trip(tag: MessageTag, code: u32)
        ensures
            Self::of_code(tag.spec_code()) == Some(tag),
            Self::of_code(code) == Some(tag) <==> code == tag.spec_code(),
    {
    }
}

/// The number of bytes in the length field and in the tag field of the
/// header that precedes an inbound payload.
pub const FIELD_LEN: usize = 4;

/// Where the reception of one message stands.
#[derive(Clone, Copy, Debug, PartialEq, Eq, Structural)]
pub enum RecvState {
    /// Nothing has been read; the length field comes first.
    Length,
    /// The length field has been read; the tag field comes next.
    Tag { body_len: u32 },
    /// The header has been read; the payload comes next.
    Body { tag: MessageTag, body_len: u32 },
}

impl RecvState {
    /// The number of bytes that have to be read in this state.
    pub open spec fn spec_wanted(self) -> nat {
        match self {
            RecvState::Length => 4,
            RecvState::Tag { .. } => 4,
            RecvState::Body { body_len, .. } => body_len as nat,
        }
    }

    /// The state in which the reception of a message begins.
    pub fn new() -> (state: Self)
        ensures
            state == RecvState::Length,
    {
        RecvState::Length
    }

    /// The number of bytes that have to be read in this state, and handed to
    /// [`Msg::recv`] together with it.
    pub fn wanted(&self) -> (n: usize)
        ensures
            n == self.spec_wanted(),
    {
        match self {
            RecvState::Length => FIELD_LEN,
            RecvState::Tag { .. } => FIELD_LEN,
            RecvState::Body { body_len, .. } => *body_len as usize,
        }
    }
}

/// A payload together with the tag under which it arrived.
#[derive(Debug)]
pub struct Msg<T> where T: Message {
    tag: MessageTag,
    message: T,
}

/// What one step of a reception has come to.
#[derive(Debug)]
pub enum Recv<T> where T: Message {
    /// More bytes have to be read, as many as the new state wants.
    More(RecvState),
    /// The message is complete.
    Done(Msg<T>),
}

/// Whether `r` is the answer to the bytes `bytes`, read in state `state`.
///
/// Bytes that are not exactly as many as the state wants are a truncated
/// read. The length field counts the tag and the payload, so it must be at
/// least four, and the payload has four bytes fewer. The tag field must hold
/// a known code. The payload is decoded as a `T`, and what decoding says is
/// the answer.
pub open spec fn recv_step<T: Message + Deserialize>(
    state: RecvState,
    bytes: Seq<u8>,
    r: Result<Recv<T>, ProtocolError>,
) -> bool {
    if bytes.len() != state.spec_wanted() {
        r == Err::<Recv<T>, ProtocolError>(ProtocolError::Truncated)
    } else {
        match state {
            RecvState::Length => if le_value(bytes) < 4 {
                r == Err::<Recv<T>, ProtocolError>(ProtocolError::Truncated)
            } else {
                r == Ok::<Recv<T>, ProtocolError>(
                    Recv::More(RecvState::Tag { body_len: (le_value(bytes) - 4) as u32 }),
                )
            },
            RecvState::Tag { body_len } => match MessageTag::of_code(le_value(bytes) as u32) {
                None => r == Err::<Recv<T>, ProtocolError>(ProtocolError::UnknownTag),
                Some(tag) => r == Ok::<Recv<T>, ProtocolError>(
                    Recv::More(RecvState::Body { tag, body_len }),
                ),
            },
            RecvState::Body { tag, body_len } => match r {
                Ok(Recv::Done(msg)) => msg.spec_tag() == tag && msg.agrees() && T::decoded(
                    bytes,
                    Ok(msg.spec_message()),
                ),
                Ok(Recv::More(_)) => false,
                Err(e) => T::decoded(bytes, Err(e)),
            },
        }
    }
}

/// A header that declares `length` bytes and carries `code` leads in two
/// steps to the state that awaits a payload of `length - 4` bytes under the
/// kind that `code` names. A length under four ends the reception as
/// truncated, a code that names no kind as an unknown tag.
pub proof fn lemma_header_steps<T: Message + Deserialize>(
    length: u32,
    code: u32,
    first: Result<Recv<T>, ProtocolError>,
    second: Result<Recv<T>, ProtocolError>,
)
    requires
        recv_step::<T>(RecvState::Length, le_bytes(length), first),
        length >= 4 ==> recv_step::<T>(
            RecvState::Tag { body_len: (length - 4) as u32 },
            le_bytes(code),
            second,
        ),
    ensures
        length < 4 ==> first == Err::<Recv<T>, ProtocolError>(ProtocolError::Truncated),
        length >= 4 ==> first == Ok::<Recv<T>, ProtocolError>(
            Recv::More(RecvState::Tag { body_len: (length - 4) as u32 }),
        ),
        length >= 4 && MessageTag::of_code(code) is None ==> second == Err::<
            Recv<T>,
            ProtocolError,
        >(ProtocolError::UnknownTag),
        length >= 4 && MessageTag::of_code(code) is Some ==> second == Ok::<
            Recv<T>,
            ProtocolError,
        >(
            Recv::More(
                RecvState::Body {
                    tag: MessageTag::of_code(code)->Some_0,
                    body_len: (length - 4) as u32,
                },
            ),
        ),
{
    lemma_le_value_of_bytes(length);
    lemma_le_value_of_bytes(code);
}

impl<T> Msg<T> where T: Message {
    /// The tag under which the payload arrived.
    pub closed spec fn spec_tag(&self) -> MessageTag {
        self.tag
    }

    /// The payload.
    pub closed spec fn spec_message(&self) -> T {
        self.message
    }

    /// Whether the tag is the kind under which the payload's type travels.
    pub open spec fn agrees(&self) -> bool {
        self.spec_tag() == T::kind()
    }

    /// The tag under which the payload arrived.
    pub fn tag(&self) -> (tag: MessageTag)
        ensures
            tag == self.spec_tag(),
    {
        self.tag
    }

    /// The payload.
    pub fn message(&self) -> (message: &T)
        ensures
            *message == self.spec_message(),
    {
        &self.message
    }

    /// Gives up the envelope for the payload.
    pub fn into_message(self) -> (message: T)
        ensures
            message == self.spec_message(),
    {
        self.message
    }

    /// Puts what decoding a payload gave into its envelope: a decoded value
    /// is wrapped under `tag`, an error is passed on.
    pub fn deliver(tag: MessageTag, outcome: Result<T, ProtocolError>) -> (r: Result<
        Self,
        ProtocolError,
    >)
        ensures
            match outcome {
                Ok(message) => r is Ok && r->Ok_0.spec_tag() == tag && r->Ok_0.spec_message()
                    == message && r->Ok_0.agrees(),
                Err(e) => r == Err::<Self, ProtocolError>(e),
            },
    {
        match outcome {
            Ok(message) => Ok(Msg { tag, message }),
            Err(e) => Err(e),
        }
    }

    /// Takes one step of a reception: `bytes` are the bytes that were read
    /// because `state` wanted them. The answer is the state to go on from, or
    /// the message.
    pub fn recv(state: RecvState, bytes: &[u8]) -> (r: Result<Recv<T>, ProtocolError>) where
        T: Deserialize,
        ensures
            recv_step::<T>(state, bytes@, r),
    {
        if bytes.len() != state.wanted() {
            return Err(ProtocolError::Truncated);
        }
        match state {
            RecvState::Length => {
                assert(bytes@.subrange(0, 4) =~= bytes@);
                let length: u32 = get_u32_le(bytes, 0);
                if length < 4 {
                    return Err(ProtocolError::Truncated);
                }
                Ok(Recv::More(RecvState::Tag { body_len: length - 4 }))
            },
            RecvState::Tag { body_len } => {
                assert(bytes@.subrange(0, 4) =~= bytes@);
                let value: u32 = get_u32_le(bytes, 0);
                match MessageTag::from(value) {
                    Ok(tag) => Ok(Recv::More(RecvState::Body { tag, body_len })),
                    Err(e) => Err(e),
                }
            },
            RecvState::Body { tag, .. } => {
                match Self::deliver(tag, T::decode(bytes)) {
                    Ok(msg) => Ok(Recv::Done(msg)),
                    Err(e) => Err(e),
                }
            },
        }
    }

    /// The bytes to write for an outbound payload: its own encoding, with no
    /// header added.
    pub fn send(t: T) -> (out: Vec<u8>) where T: Serialize
        ensures
            out@ == t.encoding(),
    {
        t.encode()
    }
}

} // verus!
