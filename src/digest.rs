//! The 256-bit Keccak digest.
use vstd::prelude::*;
use tiny_keccak::{Hasher, Keccak};

verus! {

/// The Keccak-256 digest of a byte sequence.
pub uninterp spec fn keccak_of(data: Seq<u8>) -> Seq<u8>;

/// Relies on `tiny_keccak::Keccak::v256` with `update` and `finalize`: the
/// 32-byte digest of `data`, a function of `data` alone.
#[verifier::external_body]
pub(crate) fn keccak256(data: &[u8]) -> (r: Vec<u8>)
    ensures
        r@ == keccak_of(data@),
        r@.len() == 32,
{
    let mut hasher = Keccak::v256();
    let mut out = [0u8; 32];
    hasher.update(data);
    hasher.finalize(&mut out);
    out.to_vec()
}

} // verus!
