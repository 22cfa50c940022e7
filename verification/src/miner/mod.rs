//! The proof-of-work puzzle: what is hashed for a nonce, when a digest solves the
//! puzzle, and what a found solution reports.

pub mod cpu;
pub mod gpu;

use vstd::prelude::*;
use crate::encoding::be_value;
use crate::keccak::{keccak256_64, keccak256_digest};
use crate::uint256::Uint256;

verus! {

/// The device that found a solution.
#[derive(Clone, Copy, Debug, PartialEq, Eq)]
pub enum MiningBackend {
    Cpu,
    OpenCl,
}

/// The name of a backend as it is shown to the user.
pub open spec fn backend_name(b: MiningBackend) -> Seq<char> {
    match b {
        MiningBackend::Cpu => "cpu"@,
        MiningBackend::OpenCl => "opencl"@,
    }
}

/// Two seconds, in nanoseconds: the least time between two progress lines that
/// the miner prints.
pub const PROGRESS_LINE_INTERVAL_NANOS: u128 = 2_000_000_000;

/// Whether a progress line is printed when `elapsed_nanos` have passed since the
/// last one: only once two seconds have passed.
pub fn should_report(elapsed_nanos: u128) -> (r: bool)
    ensures
        r <==> elapsed_nanos >= PROGRESS_LINE_INTERVAL_NANOS,
{
    elapsed_nanos >= PROGRESS_LINE_INTERVAL_NANOS
}

impl MiningBackend {
    pub fn as_str(self) -> (r: &'static str)
        ensures
            r@ == backend_name(self),
    {
        match self {
            MiningBackend::Cpu => "cpu",
            MiningBackend::OpenCl => "opencl",
        }
    }
}

/// A nonce that solves the puzzle, with the digest it gives (as `0x` and 64
/// lowercase hexadecimal digits) and the number of hashes tried to find it.
#[derive(Clone, Debug)]
pub struct Solution {
    pub backend: MiningBackend,
    pub nonce: u64,
    pub hash: String,
    pub hashes: u64,
}

/// The eight bytes of `n`, most significant first.
pub open spec fn u64_be_bytes(n: u64) -> Seq<u8> {
    seq![
        (n / 0x100_0000_0000_0000) as u8,
        ((n / 0x1_0000_0000_0000) % 256) as u8,
        ((n / 0x100_0000_0000) % 256) as u8,
        ((n / 0x1_0000_0000) % 256) as u8,
        ((n / 0x100_0000) % 256) as u8,
        ((n / 0x1_0000) % 256) as u8,
        ((n / 0x100) % 256) as u8,
        (n % 256) as u8,
    ]
}

/// The 64 bytes hashed for a nonce: the 32-byte challenge, 24 zero bytes, and the
/// nonce as eight big-endian bytes (the ABI encoding of `(bytes32, uint256)`).
pub open spec fn challenge_nonce_input(challenge: Seq<u8>, nonce: u64) -> Seq<u8> {
    challenge + Seq::new(24, |i: int| 0u8) + u64_be_bytes(nonce)
}

/// The digest of a nonce for a challenge.
pub open spec fn nonce_digest(challenge: Seq<u8>, nonce: u64) -> Seq<u8> {
    keccak256_digest(challenge_nonce_input(challenge, nonce))
}

/// A nonce solves the puzzle when its digest, read as a big-endian number, is
/// below the difficulty target.
pub open spec fn solves(challenge: Seq<u8>, difficulty: nat, nonce: u64) -> bool {
    be_value(nonce_digest(challenge, nonce)) < difficulty
}

/// Hashes the challenge together with a nonce.
pub fn hash_challenge_nonce(challenge: [u8; 32], nonce: u64) -> (r: [u8; 32])
    ensures
        r@ == nonce_digest(challenge@, nonce),
{
    let mut input = [0u8; 64];
    let mut i: usize = 0;
    while i < 32
        invariant
            i <= 32,
            forall|j: int| 0 <= j < i ==> input[j] == challenge[j],
            forall|j: int| 32 <= j < 64 ==> input[j] == 0,
        decreases 32 - i,
    {
        input[i] = challenge[i];
        i = i + 1;
    }
    input[56] = (nonce / 0x100_0000_0000_0000) as u8;
    input[57] = ((nonce / 0x1_0000_0000_0000) % 256) as u8;
    input[58] = ((nonce / 0x100_0000_0000) % 256) as u8;
    input[59] = ((nonce / 0x1_0000_0000) % 256) as u8;
    input[60] = ((nonce / 0x100_0000) % 256) as u8;
    input[61] = ((nonce / 0x1_0000) % 256) as u8;
    input[62] = ((nonce / 0x100) % 256) as u8;
    input[63] = (nonce % 256) as u8;
    assert(input@ =~= challenge_nonce_input(challenge@, nonce));
    keccak256_64(&input)
}

/// Whether a digest, read as a big-endian number, is below the difficulty target.
pub fn hash_meets_difficulty(hash: &[u8; 32], difficulty: &Uint256) -> (r: bool)
    ensures
        r == (be_value(hash@) < difficulty.value()),
{
    Uint256::from_be_bytes(hash).is_less_than(difficulty)
}

} // verus!
