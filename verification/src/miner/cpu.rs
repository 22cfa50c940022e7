//! The CPU search: each worker scans consecutive nonces in batches.

use vstd::prelude::*;
use std::sync::atomic::AtomicBool;
use std::sync::atomic::Ordering;
use crate::miner::{hash_challenge_nonce, hash_meets_difficulty, nonce_digest, solves, MiningBackend, Solution};
use crate::text::{hex_lower, prefixed_hex};
use crate::uint256::Uint256;

verus! {

/// The nonce `offset` places after `start`, wrapping around at 2^64.
pub open spec fn batch_nonce(start: u64, offset: u64) -> u64 {
    ((start + offset) % 0x1_0000_0000_0000_0000int) as u64
}

/// No nonce among the first `m` of a batch solves the puzzle.
pub open spec fn none_solves_before(
    challenge: Seq<u8>,
    difficulty: nat,
    start: u64,
    m: u64,
) -> bool {
    forall|j: u64| j < m ==> !#[trigger] solves(challenge, difficulty, batch_nonce(start, j))
}

/// The settings of the CPU search: how many worker threads, and how many nonces a
/// worker takes at a time.
#[derive(Clone, Copy, Debug)]
pub struct CpuMiner {
    workers: usize,
    batch_size: u64,
}

impl CpuMiner {
    pub closed spec fn spec_workers(&self) -> usize {
        self.workers
    }

    pub closed spec fn spec_batch_size(&self) -> u64 {
        self.batch_size
    }

    pub fn new(workers: usize, batch_size: u64) -> (r: CpuMiner)
        ensures
            r.spec_workers() == workers,
            r.spec_batch_size() == batch_size,
    {
        CpuMiner { workers, batch_size }
    }

    pub fn workers(&self) -> (r: usize)
        ensures
            r == self.spec_workers(),
    {
        self.workers
    }

    pub fn batch_size(&self) -> (r: u64)
        ensures
            r == self.spec_batch_size(),
    {
        self.batch_size
    }
}

/// What one step of a batch scan found.
#[derive(Clone, Copy, Debug, PartialEq, Eq)]
pub enum ScanStep {
    /// The stop flag was seen set; the scan ends without a result.
    Stopped,
    /// The nonce solves the puzzle; here it is, with its digest.
    Found(u64, [u8; 32]),
    /// The nonce does not solve the puzzle; the scan goes on with the next one.
    Next,
}

/// One step of the scan of a batch: given whether the stop flag was seen set, it
/// either stops, or hashes the nonce `offset` places after `start` and reports it
/// when it solves the puzzle.
pub fn scan_step(
    challenge: [u8; 32],
    difficulty: &Uint256,
    start: u64,
    offset: u64,
    stop_seen: bool,
) -> (r: ScanStep)
    ensures
        stop_seen <==> r is Stopped,
        !stop_seen ==> (r is Found <==> solves(
            challenge@,
            difficulty.value(),
            batch_nonce(start, offset),
        )),
        r matches ScanStep::Found(nonce, hash) ==> {
            &&& nonce == batch_nonce(start, offset)
            &&& hash@ == nonce_digest(challenge@, nonce)
        },
{
    if stop_seen {
        return ScanStep::Stopped;
    }
    let nonce = start.wrapping_add(offset);
    assert(nonce == batch_nonce(start, offset));
    let hash = hash_challenge_nonce(challenge, nonce);
    if hash_meets_difficulty(&hash, difficulty) {
        ScanStep::Found(nonce, hash)
    } else {
        ScanStep::Next
    }
}

/// Scans the `count` nonces from `start` on (wrapping at 2^64) in order and returns
/// the first that solves the puzzle, with its digest. Before each nonce it reads
/// `stopped`, and it gives up, returning `None`, as soon as it sees the flag set;
/// the nonces it scanned before that do not solve the puzzle. Each step is
/// `scan_step`, which says what follows from each reading of the flag.
pub fn search_batch(
    challenge: [u8; 32],
    difficulty: Uint256,
    start: u64,
    count: u64,
    stopped: &AtomicBool,
) -> (r: Option<(u64, [u8; 32])>)
    ensures
        match r {
            Some((nonce, hash)) => exists|k: u64|
                {
                    &&& k < count
                    &&& nonce == #[trigger] batch_nonce(start, k)
                    &&& none_solves_before(challenge@, difficulty.value(), start, k)
                    &&& hash@ == nonce_digest(challenge@, nonce)
                    &&& solves(challenge@, difficulty.value(), nonce)
                },
            None => exists|m: u64|
                m <= count && #[trigger] none_solves_before(challenge@, difficulty.value(), start, m),
        },
{
    let mut offset: u64 = 0;
    while offset < count
        invariant
            offset <= count,
            none_solves_before(challenge@, difficulty.value(), start, offset),
        decreases count - offset,
    {
        let stop_seen = stopped.load(Ordering::Relaxed);
        match scan_step(challenge, &difficulty, start, offset, stop_seen) {
            ScanStep::Stopped => {
                return None;
            },
            ScanStep::Found(nonce, hash) => {
                return Some((nonce, hash));
            },
            ScanStep::Next => {},
        }
        assert forall|j: u64| j <= offset implies !#[trigger] solves(
            challenge@,
            difficulty.value(),
            batch_nonce(start, j),
        ) by {
            if j < offset {
            } else {
                assert(j == offset);
            }
        }
        offset = offset + 1;
    }
    None
}

impl Solution {
    /// The report of a solution that the CPU search found: the digest is shown as
    /// `0x` and its lowercase hexadecimal digits.
    pub fn found_by_cpu(nonce: u64, hash: [u8; 32], hashes: u64) -> (r: Solution)
        ensures
            r.backend == MiningBackend::Cpu,
            r.nonce == nonce,
            r.hashes == hashes,
            r.hash@ == "0x"@ + hex_lower(hash@),
    {
        Solution { backend: MiningBackend::Cpu, nonce, hash: prefixed_hex(hash.as_slice()), hashes }
    }
}

} // verus!
