//! The collision-resistant hash that turns an input into seed material.

use vstd::prelude::*;
use digest::Digest;

verus! {

/// The SHA-256 digest of a byte string: a function of the input bytes alone.
pub uninterp spec fn sha256_of(x: Seq<u8>) -> Seq<u8>;

/// Relies on `sha2::Sha256` through the `Digest` trait: the digest is a
/// deterministic function of the input bytes and is exactly 32 bytes long.
#[verifier::external_body]
pub(crate) fn sha256(x: &[u8]) -> (r: Vec<u8>)
    ensures
        r@ == sha256_of(x@),
        r@.len() == 32,
{
    sha2::Sha256::digest(x).to_vec()
}

} // verus!
