use vstd::prelude::*;

verus! {

/// The SHA-256 digest of a byte string.
pub uninterp spec fn sha256_of(b: Seq<u8>) -> Seq<u8>;

/// Relies on anchor_lang::solana_program::hash::hash, which returns the
/// SHA-256 digest of its input as 32 bytes.
#[verifier::external_body]
pub(crate) fn sha256(b: &[u8]) -> (r: [u8; 32])
    ensures
        r@ == sha256_of(b@),
{
    anchor_lang::solana_program::hash::hash(b).to_bytes()
}

} // verus!
