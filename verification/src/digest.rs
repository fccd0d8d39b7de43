//! The one cryptographic ingredient of the handshake: SHA-1, provided by
//! an outside crate and relied upon through a single trusted wrapper.

use sha1::Digest;
use sha1::Sha1;
use vstd::prelude::*;

verus! {

/// The 20-byte SHA-1 digest of a byte sequence, named but not written
/// out: it is a function of the input alone.
pub uninterp spec fn sha1_of(bytes: Seq<u8>) -> Seq<u8>;

/// Relies on `sha1::Sha1` through the `Digest` interface: feeding the
/// input and finalizing yields the 20-byte SHA-1 digest, a function of
/// the input bytes alone.
#[verifier::external_body]
pub(crate) fn sha1_digest(bytes: &[u8]) -> (r: Vec<u8>)
    ensures
        r@ == sha1_of(bytes@),
        r@.len() == 20,
{
    let mut hasher = Sha1::new();
    hasher.update(bytes);
    hasher.finalize().to_vec()
}

} // verus!
