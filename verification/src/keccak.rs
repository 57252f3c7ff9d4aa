//! The Keccak-256 hash.
use vstd::prelude::*;

verus! {

/// The Keccak-256 digest of a message.
pub uninterp spec fn keccak256_digest(data: Seq<u8>) -> Seq<u8>;

/// The Keccak-256 digest of a message.
///
/// `keccak256` of `alloy::primitives`. The digest is a function of the message
/// alone; nothing more is claimed of it than that it has 32 bytes.
#[verifier::external_body]
pub(crate) fn keccak256(data: &[u8]) -> (r: [u8; 32])
    ensures
        r@ == keccak256_digest(data@),
{
    alloy::primitives::keccak256(data).0
}

} // verus!
