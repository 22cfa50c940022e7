//! The Keccak-256 digest, computed by `tiny-keccak`.

use vstd::prelude::*;
use tiny_keccak::Hasher;
use tiny_keccak::Keccak;

verus! {

/// The Keccak-256 digest of `data`, with the Keccak padding that Ethereum uses
/// (a first byte 0x01, not SHA3-256's 0x06).
pub uninterp spec fn keccak256_digest(data: Seq<u8>) -> Seq<u8>;

/// Trusted: `tiny_keccak::Keccak::v256`, fed `input` through `update` and read out
/// with `finalize`, writes the Keccak-256 digest of `input` into the 32-byte output.
/// Nothing is claimed of the digest beyond that it is a function of the input.
#[verifier::external_body]
pub(crate) fn keccak256_64(input: &[u8; 64]) -> (digest: [u8; 32])
    ensures
        digest@ == keccak256_digest(input@),
{
    let mut output = [0u8; 32];
    let mut keccak = Keccak::v256();
    keccak.update(input);
    keccak.finalize(&mut output);
    output
}

} // verus!
