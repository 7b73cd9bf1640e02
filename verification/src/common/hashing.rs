//! Hash functions.

use sha2::Digest;
use vstd::prelude::*;

use crate::common::fixed_bytes::B256;

verus! {

/// The Keccak-256 digest of `data`.
pub uninterp spec fn keccak256_digest(data: Seq<u8>) -> Seq<u8>;

/// The SHA-256 digest of `data`.
pub uninterp spec fn sha256_digest(data: Seq<u8>) -> Seq<u8>;

/// `alloy_primitives::keccak256`: a function of the bytes alone. What the digest is, is not said.
#[verifier::external_body]
pub(crate) fn keccak256(data: &[u8]) -> (r: B256)
    ensures
        r@ == keccak256_digest(data@),
{
    B256 { bytes: alloy_primitives::keccak256(data).0 }
}

/// `sha2::Sha256::digest`: a function of the bytes alone. What the digest is, is not said.
#[verifier::external_body]
pub(crate) fn sha256(data: &[u8]) -> (r: B256)
    ensures
        r@ == sha256_digest(data@),
{
    B256 { bytes: sha2::Sha256::digest(data).into() }
}

} // verus!
