//! The Keccak-256 hash, computed by the `tiny-keccak` crate.

use tiny_keccak::Hasher;
use tiny_keccak::Keccak;
use vstd::prelude::*;

verus! {

/// The Keccak-256 digest of `input`, as `tiny_keccak::Keccak::v256` computes
/// it. The function is not defined here: the library's contracts speak of the
/// digest by this name, and nothing in them depends on what it is.
pub uninterp spec fn keccak256(input: Seq<u8>) -> Seq<u8>;

/// Trusted: feeds `input` to a fresh `tiny_keccak::Keccak::v256` hasher
/// (`update`) and reads the 32-byte digest out of it (`finalize`). The
/// contract claims that the digest depends on the input bytes alone; the
/// hasher starts from a fixed state and reads nothing else.
#[verifier::external_body]
pub(crate) fn keccak256_digest(input: &[u8]) -> (digest: [u8; 32])
    ensures
        digest@ == keccak256(input@),
{
    let mut hasher = Keccak::v256();
    hasher.update(input);
    let mut digest = [0u8; 32];
    hasher.finalize(&mut digest);
    digest
}

} // verus!
