//! SHA-1 and SHA-256 digests.

use vstd::prelude::*;
use sha1::{Digest, Sha1};
use sha2::Sha256;

verus! {

/// The SHA-1 digest of a byte string: 20 bytes.
pub uninterp spec fn spec_sha1(data: Seq<u8>) -> Seq<u8>;

/// The SHA-256 digest of a byte string: 32 bytes.
pub uninterp spec fn spec_sha256(data: Seq<u8>) -> Seq<u8>;

/// `Sha1::digest` of the `sha1` crate: the SHA-1 digest of `data`.
#[verifier::external_body]
pub(crate) fn sha1(data: &[u8]) -> (out: [u8; 20])
    ensures
        out@ == spec_sha1(data@),
{
    Sha1::digest(data).into()
}

/// `Sha256::digest` of the `sha2` crate: the SHA-256 digest of `data`.
#[verifier::external_body]
pub(crate) fn sha256(data: &[u8]) -> (out: [u8; 32])
    ensures
        out@ == spec_sha256(data@),
{
    Sha256::digest(data).into()
}

} // verus!
