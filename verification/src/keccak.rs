use vstd::prelude::*;

verus! {

/// The Keccak-256 digest of a byte sequence.  The hash itself is outside
/// code; this name stands for its result, which depends on the input alone.
pub uninterp spec fn keccak_of(data: Seq<u8>) -> Seq<u8>;

/// Relies on ethers_core::utils::keccak256: the Keccak-256 digest of the
/// input bytes, a 32-byte value that depends on the input alone.
#[verifier::external_body]
pub fn keccak256(data: &[u8]) -> (r: Vec<u8>)
    ensures
        r@ == keccak_of(data@),
        r@.len() == 32,
{
    ethers_core::utils::keccak256(data).to_vec()
}

} // verus!
