//! The login request and the response to it.

use crate::digest::{md5_digest, md5_of};
use crate::error::ProtocolError;
use crate::messages::message::MessageTag;
use crate::messages::{Deserialize, Message, Serialize};
use crate::text::{lossy_text, utf8_lossy};
use crate::wire::{
    hex_lower, is_lower_hex, le_bytes, le_field, lemma_le_value_of_bytes, put_u32_le,
    to_hex_lower,
};
use vstd::prelude::*;
use vstd::slice::slice_to_vec;
use vstd::string::StringSliceAdditionalSpecFns;
use vstd::utf8::{decode_utf8, encode_utf8, valid_utf8};

verus! {

/// The message code that a login request carries.
pub const LOGIN_CODE: u32 = 1;

/// The major protocol version that a login request announces.
pub const VERSION: u32 = 160;

/// The minor protocol version that a login request announces.
pub const MINOR_VERSION: u32 = 1;

/// The length of the credential hash: thirty-two hexadecimal digits.
pub const HASH_LEN: u32 = 32;

/// The bytes of a request frame that are there whatever the credentials:
/// seven 32-bit fields and the hash.
pub const FIXED_LEN: u32 = 60;

/// The most bytes that a user name and a password can have together, so that
/// the length of their frame still fits a 32-bit field.
pub const CREDENTIALS_MAX: usize = 4_294_967_235;

/// The length of the request frame for a user name and a password of the
/// given lengths in bytes, the length field included.
pub open spec fn frame_len(user_len: nat, pass_len: nat) -> int {
    FIXED_LEN + user_len + pass_len
}

/// The request frame for the given user name, password and credential hash:
///
/// `frame_length | code | user_len | user | pass_len | pass | version |
/// hash_len | hash | minor_version`
pub open spec fn request_frame(user: Seq<u8>, pass: Seq<u8>, hash: Seq<u8>) -> Seq<u8>
    recommends
        hash.len() == HASH_LEN,
        frame_len(user.len(), pass.len()) <= u32::MAX,
{
    le_bytes(frame_len(user.len(), pass.len()) as u32) + le_bytes(LOGIN_CODE) + le_bytes(
        user.len() as u32,
    ) + user + le_bytes(pass.len() as u32) + pass + le_bytes(VERSION) + le_bytes(HASH_LEN) + hash
        + le_bytes(MINOR_VERSION)
}

/// The credential hash: the lowercase hexadecimal text of the MD5 digest of
/// the user name followed directly by the password.
pub open spec fn credential_hash(user: Seq<u8>, pass: Seq<u8>) -> Seq<u8> {
    hex_lower(md5_digest(user + pass))
}

/// The user name that a request frame carries.
pub open spec fn frame_user(frame: Seq<u8>) -> Seq<u8> {
    frame.subrange(12, 12 + le_field(frame, 8))
}

/// The offset at which the password's length field stands in a request frame.
pub open spec fn pass_offset(frame: Seq<u8>) -> int {
    12 + le_field(frame, 8)
}

/// The password that a request frame carries.
pub open spec fn frame_pass(frame: Seq<u8>) -> Seq<u8> {
    let at = pass_offset(frame);
    frame.subrange(at + 4, at + 4 + le_field(frame, at))
}

/// The offset at which the version field stands in a request frame.
pub open spec fn version_offset(frame: Seq<u8>) -> int {
    let at = pass_offset(frame);
    at + 4 + le_field(frame, at)
}

/// The credential hash that a request frame carries.
pub open spec fn frame_hash(frame: Seq<u8>) -> Seq<u8> {
    let at = version_offset(frame);
    frame.subrange(at + 8, at + 8 + le_field(frame, at + 4))
}

/// Every field of a request frame can be read back from the frame alone: the
/// length field holds the length of the whole frame, and the code, both
/// credentials, the versions and the hash are found where the lengths before
/// them say.
pub proof fn lemma_request_frame_fields(user: Seq<u8>, pass: Seq<u8>, hash: Seq<u8>)
    requires
        hash.len() == HASH_LEN,
        frame_len(user.len(), pass.len()) <= u32::MAX,
    ensures
        request_frame(user, pass, hash).len() == frame_len(user.len(), pass.len()),
        le_field(request_frame(user, pass, hash), 0) == request_frame(user, pass, hash).len(),
        le_field(request_frame(user, pass, hash), 4) == LOGIN_CODE,
        le_field(request_frame(user, pass, hash), 8) == user.len(),
        frame_user(request_frame(user, pass, hash)) == user,
        le_field(request_frame(user, pass, hash), pass_offset(request_frame(user, pass, hash)))
            == pass.len(),
        frame_pass(request_frame(user, pass, hash)) == pass,
        le_field(request_frame(user, pass, hash), version_offset(request_frame(user, pass, hash)))
            == VERSION,
        le_field(
            request_frame(user, pass, hash),
            version_offset(request_frame(user, pass, hash)) + 4,
        ) == HASH_LEN,
        frame_hash(request_frame(user, pass, hash)) == hash,
        le_field(
            request_frame(user, pass, hash),
            request_frame(user, pass, hash).len() - 4,
        ) == MINOR_VERSION,
{
    let frame = request_frame(user, pass, hash);
    let u = user.len() as int;
    let p = pass.len() as int;
    lemma_le_value_of_bytes((60 + u + p) as u32);
    lemma_le_value_of_bytes(LOGIN_CODE);
    lemma_le_value_of_bytes(u as u32);
    lemma_le_value_of_bytes(p as u32);
    lemma_le_value_of_bytes(VERSION);
    lemma_le_value_of_bytes(HASH_LEN);
    lemma_le_value_of_bytes(MINOR_VERSION);
    assert(frame.len() == 60 + u + p);
    assert(frame.subrange(0, 4) =~= le_bytes((60 + u + p) as u32));
    assert(frame.subrange(4, 8) =~= le_bytes(LOGIN_CODE));
    assert(frame.subrange(8, 12) =~= le_bytes(u as u32));
    assert(frame.subrange(12, 12 + u) =~= user);
    assert(frame.subrange(12 + u, 16 + u) =~= le_bytes(p as u32));
    assert(frame.subrange(16 + u, 16 + u + p) =~= pass);
    assert(frame.subrange(16 + u + p, 20 + u + p) =~= le_bytes(VERSION));
    assert(frame.subrange(20 + u + p, 24 + u + p) =~= le_bytes(HASH_LEN));
    assert(frame.subrange(24 + u + p, 56 + u + p) =~= hash);
    assert(frame.subrange(56 + u + p, 60 + u + p) =~= le_bytes(MINOR_VERSION));
}

/// A user name and a password, as text.
pub struct Credential {
    pub user: Seq<char>,
    pub pass: Seq<char>,
}

impl Credential {
    /// The bytes of the user name.
    pub open spec fn user_bytes(self) -> Seq<u8> {
        encode_utf8(self.user)
    }

    /// The bytes of the password.
    pub open spec fn pass_bytes(self) -> Seq<u8> {
        encode_utf8(self.pass)
    }

    /// Whether the request frame for this credential has a length that its
    /// 32-bit length field can hold.
    pub open spec fn fits(self) -> bool {
        frame_len(self.user_bytes().len(), self.pass_bytes().len()) <= u32::MAX
    }
}

/// A request to log in with a user name and a password.
#[derive(Debug)]
pub struct LoginRequest<'a> {
    user: &'a str,
    pass: &'a str,
}

impl View for LoginRequest<'_> {
    type V = Credential;

    closed spec fn view(&self) -> Credential {
        Credential { user: self.user@, pass: self.pass@ }
    }
}

impl Message for LoginRequest<'_> {
    open spec fn kind() -> MessageTag {
        MessageTag::Login
    }
}

impl<'a> LoginRequest<'a> {
    #[verifier::type_invariant]
    spec fn inv(&self) -> bool {
        self@.fits()
    }

    /// A request for the given credentials. Their frame must have a length
    /// that fits its 32-bit length field.
    pub fn new(user: &'a str, pass: &'a str) -> (req: Self)
        requires
            (Credential { user: user@, pass: pass@ }).fits(),
        ensures
            req@ == (Credential { user: user@, pass: pass@ }),
    {
        LoginRequest { user, pass }
    }

    /// A request for the given credentials, unless their frame would be
    /// longer than its 32-bit length field can say.
    pub fn try_new(user: &'a str, pass: &'a str) -> (req: Option<Self>)
        ensures
            req is Some <==> (Credential { user: user@, pass: pass@ }).fits(),
            req is Some ==> req->Some_0@ == (Credential { user: user@, pass: pass@ }),
    {
        let user_len: usize = user.as_bytes().len();
        let pass_len: usize = pass.as_bytes().len();
        if user_len <= CREDENTIALS_MAX && pass_len <= CREDENTIALS_MAX - user_len {
            Some(LoginRequest::new(user, pass))
        } else {
            None
        }
    }

    /// Lays out the request frame around a digest computed beforehand.
    pub fn encode_with_digest(&self, digest: &[u8; 16]) -> (out: Vec<u8>)
        ensures
            out@ == request_frame(self@.user_bytes(), self@.pass_bytes(), hex_lower(digest@)),
            out@.len() == frame_len(self@.user_bytes().len(), self@.pass_bytes().len()),
            le_field(out@, 0) == out@.len(),
            frame_user(out@) == self@.user_bytes(),
            frame_pass(out@) == self@.pass_bytes(),
            frame_hash(out@) == hex_lower(digest@),
    {
        proof {
            use_type_invariant(self);
        }
        let user: &[u8] = self.user.as_bytes();
        let pass: &[u8] = self.pass.as_bytes();
        let user_len: u32 = user.len() as u32;
        let pass_len: u32 = pass.len() as u32;
        let message_length: u32 = FIXED_LEN + user_len + pass_len;
        let hash: Vec<u8> = to_hex_lower(digest.as_slice());

        let mut buffer: Vec<u8> = Vec::new();
        put_u32_le(&mut buffer, message_length);
        put_u32_le(&mut buffer, LOGIN_CODE);
        put_u32_le(&mut buffer, user_len);
        buffer.extend_from_slice(user);
        put_u32_le(&mut buffer, pass_len);
        buffer.extend_from_slice(pass);
        put_u32_le(&mut buffer, VERSION);
        put_u32_le(&mut buffer, HASH_LEN);
        buffer.extend_from_slice(hash.as_slice());
        put_u32_le(&mut buffer, MINOR_VERSION);
        proof {
            lemma_request_frame_fields(user@, pass@, hash@);
        }
        buffer
    }
}

impl Serialize for LoginRequest<'_> {
    open spec fn encoding(&self) -> Seq<u8> {
        request_frame(
            self@.user_bytes(),
            self@.pass_bytes(),
            credential_hash(self@.user_bytes(), self@.pass_bytes()),
        )
    }

    /// Hashes the credentials and lays out the request frame.
    fn encode(&self) -> (out: Vec<u8>)
        ensures
            out@.len() == frame_len(self@.user_bytes().len(), self@.pass_bytes().len()),
            le_field(out@, 0) == out@.len(),
            frame_user(out@) == self@.user_bytes(),
            frame_pass(out@) == self@.pass_bytes(),
            frame_hash(out@) == credential_hash(self@.user_bytes(), self@.pass_bytes()),
            frame_hash(out@).len() == HASH_LEN,
            forall|i: int| 0 <= i < HASH_LEN ==> is_lower_hex(#[trigger] frame_hash(out@)[i]),
    {
        let mut joined: Vec<u8> = slice_to_vec(self.user.as_bytes());
        joined.extend_from_slice(self.pass.as_bytes());
        assert(joined@ =~= self@.user_bytes() + self@.pass_bytes());
        let digest: [u8; 16] = md5_of(joined.as_slice());
        self.encode_with_digest(&digest)
    }
}

/// The first byte of a response that reports success.
pub const SUCCESS: u8 = 1;

/// The length of the verification hash in a successful response.
pub const RESPONSE_HASH_LEN: usize = 32;

/// The length of the address in a successful response.
pub const ADDRESS_LEN: usize = 4;

/// The least length of a successful response without its trailing flag: the
/// leading byte, the address and the hash.
pub const SUCCESS_MIN_LEN: usize = 37;

/// What a login response says.
pub enum LoginOutcome {
    /// The server accepted the credentials.
    Success { ip: Seq<u8>, hash: Seq<u8>, supporter: bool },
    /// The server refused, and gave a reason.
    Fail { reason: Seq<char> },
}

/// What the payload `bytes` of a login response decodes to.
///
/// A payload that does not start with [`SUCCESS`] is a refusal, and all that
/// follows its first byte is the reason. A successful payload is read from
/// its end: the last byte is the supporter flag, the thirty-two bytes before
/// it are the hash, and the four bytes before those are the address.
pub open spec fn parse_response(bytes: Seq<u8>) -> Result<LoginOutcome, ProtocolError> {
    let n = bytes.len() as int;
    if n == 0 {
        Err(ProtocolError::TooShort)
    } else if bytes[0] != SUCCESS {
        Ok(LoginOutcome::Fail { reason: utf8_lossy(bytes.skip(1)) })
    } else if bytes[n - 1] != 0 && bytes[n - 1] != 1 {
        Err(ProtocolError::InvalidFlag)
    } else if n - 1 < SUCCESS_MIN_LEN {
        Err(ProtocolError::TooShort)
    } else {
        Ok(
            LoginOutcome::Success {
                ip: bytes.subrange(n - 37, n - 33),
                hash: bytes.subrange(n - 33, n - 1),
                supporter: bytes[n - 1] == 1,
            },
        )
    }
}

/// A successful payload whose flag is valid and whose bytes before the flag
/// number at least thirty-seven decodes to the address and the hash that
/// stand before the flag, whatever precedes them.
pub proof fn lemma_success_decodes(prefix: Seq<u8>, ip: Seq<u8>, hash: Seq<u8>, flag: u8)
    requires
        prefix.len() >= 1,
        prefix[0] == SUCCESS,
        ip.len() == ADDRESS_LEN,
        hash.len() == RESPONSE_HASH_LEN,
        flag == 0 || flag == 1,
    ensures
        parse_response(prefix + ip + hash + seq![flag]) == Ok::<LoginOutcome, ProtocolError>(
            LoginOutcome::Success { ip, hash, supporter: flag == 1 },
        ),
        forall|outcome: Result<LoginResponse, ProtocolError>| #[trigger]
            LoginResponse::decoded(prefix + ip + hash + seq![flag], outcome) ==> outcome is Ok
                && outcome->Ok_0@ == (LoginOutcome::Success { ip, hash, supporter: flag == 1 }),
{
    let bytes = prefix + ip + hash + seq![flag];
    let n = bytes.len() as int;
    assert(bytes.subrange(n - 37, n - 33) =~= ip);
    assert(bytes.subrange(n - 33, n - 1) =~= hash);
}

/// A successful payload with a valid flag and fewer than thirty-seven bytes
/// before the flag is too short.
pub proof fn lemma_short_success_rejected(bytes: Seq<u8>)
    requires
        1 <= bytes.len() <= SUCCESS_MIN_LEN,
        bytes[0] == SUCCESS,
        bytes.last() == 0 || bytes.last() == 1,
    ensures
        parse_response(bytes) == Err::<LoginOutcome, ProtocolError>(ProtocolError::TooShort),
        forall|outcome: Result<LoginResponse, ProtocolError>| #[trigger]
            LoginResponse::decoded(bytes, outcome) ==> outcome == Err::<
                LoginResponse,
                ProtocolError,
            >(ProtocolError::TooShort),
{
}

/// A successful payload whose last byte is neither `0` nor `1` has an invalid
/// flag, however long it is.
pub proof fn lemma_invalid_flag_rejected(bytes: Seq<u8>)
    requires
        bytes.len() >= 1,
        bytes[0] == SUCCESS,
        bytes.last() != 0,
        bytes.last() != 1,
    ensures
        parse_response(bytes) == Err::<LoginOutcome, ProtocolError>(ProtocolError::InvalidFlag),
        forall|outcome: Result<LoginResponse, ProtocolError>| #[trigger]
            LoginResponse::decoded(bytes, outcome) ==> outcome == Err::<
                LoginResponse,
                ProtocolError,
            >(ProtocolError::InvalidFlag),
{
}

/// A payload whose first byte is not the success mark always decodes, to a
/// refusal whose reason is the lossy text of all bytes after the first.
pub proof fn lemma_refusal_decodes(bytes: Seq<u8>)
    requires
        bytes.len() >= 1,
        bytes[0] != SUCCESS,
    ensures
        parse_response(bytes) == Ok::<LoginOutcome, ProtocolError>(
            LoginOutcome::Fail { reason: utf8_lossy(bytes.skip(1)) },
        ),
        forall|outcome: Result<LoginResponse, ProtocolError>| #[trigger]
            LoginResponse::decoded(bytes, outcome) ==> outcome is Ok && outcome->Ok_0@ == (
            LoginOutcome::Fail { reason: utf8_lossy(bytes.skip(1)) }),
{
}

/// The response to a login request.
#[derive(Debug)]
pub enum LoginResponse {
    /// The server accepted the credentials.
    Success {
        /// The address under which the server sees the client.
        ip: [u8; 4],
        /// The hash by which the server verifies the password.
        hash: Vec<u8>,
        /// Whether the account is a supporter's.
        supporter: bool,
    },
    /// The server refused, and gave a reason.
    Fail { reason: String },
}

impl View for LoginResponse {
    type V = LoginOutcome;

    open spec fn view(&self) -> LoginOutcome {
        match self {
            LoginResponse::Success { ip, hash, supporter } => LoginOutcome::Success {
                ip: ip@,
                hash: hash@,
                supporter: *supporter,
            },
            LoginResponse::Fail { reason } => LoginOutcome::Fail { reason: reason@ },
        }
    }
}

impl Message for LoginResponse {
    open spec fn kind() -> MessageTag {
        MessageTag::Login
    }
}

impl Deserialize for LoginResponse {
    /// The outcome is what [`parse_response`] says; and where the reason of a
    /// refusal is well-formed UTF-8, the text is exactly what the bytes
    /// encode.
    open spec fn decoded(bytes: Seq<u8>, outcome: Result<Self, ProtocolError>) -> bool {
        &&& match parse_response(bytes) {
            Ok(expected) => outcome is Ok && outcome->Ok_0@ == expected,
            Err(e) => outcome == Err::<Self, ProtocolError>(e),
        }
        &&& bytes.len() >= 1 && bytes[0] != SUCCESS && valid_utf8(bytes.skip(1)) ==> outcome is Ok
            && outcome->Ok_0@ == (LoginOutcome::Fail { reason: decode_utf8(bytes.skip(1)) })
    }

    /// Reads a login response from the payload of its envelope.
    fn decode(slice: &[u8]) -> (outcome: Result<Self, ProtocolError>) {
        let n: usize = slice.len();
        if n == 0 {
            return Err(ProtocolError::TooShort);
        }
        if slice[0] != SUCCESS {
            let reason: String = lossy_text(&slice[1..n]);
            return Ok(LoginResponse::Fail { reason });
        }
        let flag: u8 = slice[n - 1];
        if flag != 0 && flag != 1 {
            return Err(ProtocolError::InvalidFlag);
        }
        let body: &[u8] = &slice[0..n - 1];
        if body.len() < SUCCESS_MIN_LEN {
            return Err(ProtocolError::TooShort);
        }
        let m: usize = body.len();
        let hash: Vec<u8> = slice_to_vec(&body[m - RESPONSE_HASH_LEN..m]);
        let ip_bits: &[u8] = &body[m - RESPONSE_HASH_LEN - ADDRESS_LEN..m - RESPONSE_HASH_LEN];
        let ip: [u8; 4] = [ip_bits[0], ip_bits[1], ip_bits[2], ip_bits[3]];
        assert(ip@ =~= slice@.subrange(n - 37, n - 33));
        assert(hash@ =~= slice@.subrange(n - 33, n - 1));
        Ok(LoginResponse::Success { ip, hash, supporter: flag == 1 })
    }
}

} // verus!
