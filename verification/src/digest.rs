//! The one-way hash that the login exchange is bound to.

use vstd::prelude::*;

verus! {

/// The MD5 digest of `data`.
///
/// This is a name for what `md5::compute` returns; it has no definition here.
pub uninterp spec fn md5_digest(data: Seq<u8>) -> Seq<u8>;

/// Hashes `data` with `md5::compute` and hands back the sixteen bytes of the
/// digest.
///
/// Not proved: that the bytes returned are [`md5_digest`] of the input, which
/// says no more than that the digest depends on the hashed bytes alone.
#[verifier::external_body]
pub(crate) fn md5_of(data: &[u8]) -> (digest: [u8; 16])
    ensures
        digest@ == md5_digest(data@),
{
    md5::compute(data).0
}

} // verus!
