//! Bytes received as text whose encoding cannot be relied on.

use vstd::prelude::*;
use vstd::utf8::{decode_utf8, valid_utf8};

verus! {

/// The text that `bytes` decode to when every ill-formed sequence is replaced
/// by U+FFFD.
///
/// This is a name for what `String::from_utf8_lossy` returns; it has no
/// definition here.
pub uninterp spec fn utf8_lossy(bytes: Seq<u8>) -> Seq<char>;

/// Decodes `bytes` with `String::from_utf8_lossy` into an owned string.
///
/// Not proved: that the text returned is [`utf8_lossy`] of the input, and
/// that well-formed UTF-8 decodes to exactly the characters it encodes.
#[verifier::external_body]
pub(crate) fn lossy_text(bytes: &[u8]) -> (text: String)
    ensures
        text@ == utf8_lossy(bytes@),
        valid_utf8(bytes@) ==> text@ == decode_utf8(bytes@),
{
    String::from_utf8_lossy(bytes).into_owned()
}

} // verus!
