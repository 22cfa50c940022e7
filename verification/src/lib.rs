//! Verified core of a HASH256 proof-of-work miner: the puzzle and its search on
//! the CPU and on an OpenCL GPU, the settings of a run, the gas settings of the
//! transaction that submits a solution, and the texts that the miner shows.

pub mod config;
pub mod encoding;
pub mod eth;
pub mod format;
pub mod gwei;
pub mod keccak;
pub mod laws;
pub mod miner;
pub mod round;
pub mod telegram;
pub mod text;
pub mod uint256;
