//! SHA-256 digests through the `sha2` crate.
use vstd::prelude::*;

use sha2::{Digest, Sha256};

verus! {

/// The SHA-256 digest of a byte string.
pub uninterp spec fn sha256_digest(data: Seq<u8>) -> Seq<u8>;

/// Hashes `data` with `sha2::Sha256::digest`.
///
/// Trusted: the result is the digest of exactly these bytes (so equal inputs give
/// equal digests) and is 32 bytes long, as the crate documents for SHA-256. Feeding
/// a hasher several slices with `update` digests their concatenation, so callers
/// concatenate and hash once.
#[verifier::external_body]
pub(crate) fn sha256(data: &[u8]) -> (r: Vec<u8>)
    ensures
        r@ == sha256_digest(data@),
        r@.len() == 32,
{
    Sha256::digest(data).to_vec()
}

} // verus!
