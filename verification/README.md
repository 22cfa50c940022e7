# hash256-rust-miner

A miner for the HASH256 proof-of-work token on Ethereum mainnet. A nonce solves
the puzzle when the Keccak-256 digest of the current challenge and the nonce
(`challenge || 24 zero bytes || nonce as 8 big-endian bytes`), read as a
big-endian number, is below the contract's difficulty target. The search runs
on CPU worker threads or on an OpenCL GPU (AMD ROCm), and a found nonce is
submitted to the contract's `mine` function.

## Layout

- `src/` is the library, checked with Verus:
  - `miner/` the puzzle (`hash_challenge_nonce`, `hash_meets_difficulty`), the
    CPU batch search (`cpu.rs`) and the host side of the GPU search (`gpu.rs`:
    the words handed to the kernel and the bookkeeping between two runs);
  - `config.rs` the settings of a run from the command line and environment;
  - `eth.rs` the contract state the miner uses, the wallet address and the
    gas limit, priority fee and fee cap of its transaction;
  - `gwei.rs` the priority-fee setting read as an amount of gwei;
  - `format.rs`, `text.rs`, `telegram.rs` the texts the miner shows and sends;
  - `uint256.rs`, `encoding.rs`, `keccak.rs` 256-bit numbers, big-endian bytes
    and the Keccak-256 digest;
  - `laws.rs` properties across functions, among them that a model of the GPU
    kernel's input (the words it is handed and how it places them in lanes 0
    to 7 of the Keccak state, with the padding it writes into lanes 8 and 16)
    is the padded block of the 64 bytes that the CPU search hashes, that the
    digest words it reads back spell the digest, and that it accepts the same
    digests. The permutation `keccakf` is not modelled, and the OpenCL source
    in `app/opencl.rs` is not itself verified; the model is written from it;
  - `round.rs` the decisions of the mining loop after each event of a round.
- `app/` is the program around it: command line, RPC calls, threads, the
  OpenCL calls and kernel, and the Telegram request.
- `tests/` runs the library on concrete values.

## Usage

```bash
cp .env.example .env   # RPC_URL, PRIVATE_KEY, MINER_BACKEND, CPU_WORKERS, ...
hash256-rust-miner --backend auto
hash256-rust-miner --backend cpu --workers 8
hash256-rust-miner --backend opencl --gpu-batch 67108864
hash256-rust-miner --once
hash256-rust-miner check
```

With `--backend auto`, OpenCL is tried first and the CPU search takes over when
it is not available or fails.
