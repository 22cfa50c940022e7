use hash256_rust_miner::miner::cpu::{search_batch, CpuMiner};
use hash256_rust_miner::miner::gpu::{
    base_nonce_from_clock, challenge_words, check, difficulty_words, gpu_nonce, hash_words_to_hex,
    GpuSearch, GpuStep, RawResult,
};
use hash256_rust_miner::miner::{hash_challenge_nonce, hash_meets_difficulty, MiningBackend, Solution};
use hash256_rust_miner::uint256::Uint256;
use std::sync::atomic::AtomicBool;
use tiny_keccak::{Hasher, Keccak};

fn hex32(s: &str) -> [u8; 32] {
    let v = hex::decode(s).unwrap();
    let mut out = [0u8; 32];
    out.copy_from_slice(&v);
    out
}

fn max_target() -> Uint256 {
    Uint256 { limbs: [u64::MAX; 4] }
}

#[test]
fn keccak_of_zero_challenge_and_zero_nonce() {
    let hash = hash_challenge_nonce([0u8; 32], 0);
    assert_eq!(
        hash,
        hex32("ad3228b676f7d3cd4284a5443f17f1962b36e491b30a40b2405849e597ba5fb5")
    );
}

#[test]
fn nonce_is_hashed_big_endian_after_the_challenge() {
    let mut challenge = [0u8; 32];
    for (i, b) in challenge.iter_mut().enumerate() {
        *b = i as u8;
    }
    let nonce: u64 = 0x0102030405060708;
    let mut input = [0u8; 64];
    input[..32].copy_from_slice(&challenge);
    input[56..].copy_from_slice(&nonce.to_be_bytes());
    let mut expected = [0u8; 32];
    let mut k = Keccak::v256();
    k.update(&input);
    k.finalize(&mut expected);
    assert_eq!(hash_challenge_nonce(challenge, nonce), expected);
    assert_ne!(hash_challenge_nonce(challenge, nonce), hash_challenge_nonce(challenge, nonce + 1));
}

#[test]
fn digest_meets_difficulty_only_below_the_target() {
    let mut hash = [0u8; 32];
    hash[31] = 5;
    assert!(hash_meets_difficulty(&hash, &Uint256::from_u64(6)));
    assert!(!hash_meets_difficulty(&hash, &Uint256::from_u64(5)));
    assert!(!hash_meets_difficulty(&hash, &Uint256::from_u64(4)));
    let mut high = [0u8; 32];
    high[0] = 1;
    assert!(!hash_meets_difficulty(&high, &Uint256 { limbs: [u64::MAX, u64::MAX, u64::MAX, 0] }));
    assert!(hash_meets_difficulty(&high, &Uint256 { limbs: [0, 0, 0, 1 << 57] }));
}

#[test]
fn search_batch_takes_the_first_nonce_under_the_easiest_target() {
    let stopped = AtomicBool::new(false);
    let challenge = [7u8; 32];
    let found = search_batch(challenge, max_target(), 41, 10, &stopped);
    let (nonce, hash) = found.expect("every digest is below 2^256 - 1 but one");
    assert_eq!(nonce, 41);
    assert_eq!(hash, hash_challenge_nonce(challenge, 41));
}

#[test]
fn search_batch_finds_nothing_under_a_zero_target() {
    let stopped = AtomicBool::new(false);
    assert_eq!(search_batch([1u8; 32], Uint256::from_u64(0), 0, 50, &stopped), None);
}

#[test]
fn search_batch_stops_when_told() {
    let stopped = AtomicBool::new(true);
    assert_eq!(search_batch([1u8; 32], max_target(), 0, 50, &stopped), None);
}

#[test]
fn search_batch_wraps_around_the_nonce_space() {
    let stopped = AtomicBool::new(false);
    let challenge = [3u8; 32];
    // The target is the digest of nonce 1 plus one: nonce 1 solves it, and the
    // search that starts at u64::MAX reaches nonce 1 after wrapping.
    let d1 = hash_challenge_nonce(challenge, 1);
    let dmax = hash_challenge_nonce(challenge, u64::MAX);
    let d0 = hash_challenge_nonce(challenge, 0);
    let target = Uint256::from_be_bytes(&d1).checked_add(&Uint256::from_u64(1)).unwrap();
    let below = |d: &[u8; 32]| hash_meets_difficulty(d, &target);
    let expected = if below(&dmax) {
        u64::MAX
    } else if below(&d0) {
        0
    } else {
        1
    };
    let (nonce, _) = search_batch(challenge, target, u64::MAX, 3, &stopped).unwrap();
    assert_eq!(nonce, expected);
}

#[test]
fn cpu_solution_reports_hex_digest() {
    let mut hash = [0u8; 32];
    hash[0] = 0xab;
    hash[31] = 0x01;
    let s = Solution::found_by_cpu(9, hash, 100);
    assert_eq!(s.backend, MiningBackend::Cpu);
    assert_eq!(s.nonce, 9);
    assert_eq!(s.hashes, 100);
    assert_eq!(s.hash, format!("0x{}", hex::encode(hash)));
    assert_eq!(s.hash.len(), 66);
    assert!(s.hash.starts_with("0xab00"));
    assert!(s.hash.ends_with("0001"));
}

#[test]
fn backend_names() {
    assert_eq!(MiningBackend::Cpu.as_str(), "cpu");
    assert_eq!(MiningBackend::OpenCl.as_str(), "opencl");
}

#[test]
fn cpu_miner_keeps_its_settings() {
    let m = CpuMiner::new(8, 50_000);
    assert_eq!(m.workers(), 8);
    assert_eq!(m.batch_size(), 50_000);
}

#[test]
fn challenge_words_are_little_endian() {
    let mut bytes = [0u8; 32];
    for (i, b) in bytes.iter_mut().enumerate() {
        *b = i as u8;
    }
    let words = challenge_words(bytes);
    assert_eq!(words[0], 0x03020100);
    assert_eq!(words[7], 0x1f1e1d1c);
    for i in 0..8 {
        assert_eq!(words[i], u32::from_le_bytes(bytes[4 * i..4 * i + 4].try_into().unwrap()));
    }
}

#[test]
fn difficulty_words_are_big_endian() {
    assert_eq!(difficulty_words(Uint256::from_u64(1)), [0, 0, 0, 0, 0, 0, 0, 1]);
    let v = Uint256 { limbs: [0x1111_2222_3333_4444, 0x5555_6666_7777_8888, 0x9999_aaaa_bbbb_cccc, 0xdddd_eeee_ffff_0000] };
    assert_eq!(
        difficulty_words(v),
        [0xdddd_eeee, 0xffff_0000, 0x9999_aaaa, 0xbbbb_cccc, 0x5555_6666, 0x7777_8888, 0x1111_2222, 0x3333_4444]
    );
}

#[test]
fn hash_words_render_as_padded_hex() {
    let words = [0x01234567, 0x89abcdef, 0, 1, 0xffffffff, 0x10, 0xa, 0xdeadbeef];
    assert_eq!(
        hash_words_to_hex(words),
        "0x0123456789abcdef0000000000000001ffffffff000000100000000adeadbeef"
    );
}

#[test]
fn gpu_and_cpu_render_the_same_digest_alike() {
    let digest = hex32("ad3228b676f7d3cd4284a5443f17f1962b36e491b30a40b2405849e597ba5fb5");
    let mut words = [0u32; 8];
    for i in 0..8 {
        words[i] = u32::from_be_bytes(digest[4 * i..4 * i + 4].try_into().unwrap());
    }
    assert_eq!(hash_words_to_hex(words), Solution::found_by_cpu(0, digest, 0).hash);
}

#[test]
fn gpu_nonce_joins_halves() {
    assert_eq!(gpu_nonce(1, 2), (2u64 << 32) | 1);
    let n: u64 = 0xfedc_ba98_7654_3210;
    assert_eq!(gpu_nonce(n as u32, (n >> 32) as u32), n);
}

#[test]
fn base_nonce_mixes_clock_readings() {
    assert_eq!(base_nonce_from_clock(Some(1), 5), (1u64 << 32) ^ 5);
    assert_eq!(
        base_nonce_from_clock(Some(0xffff_ffff_0000_0001), u128::MAX),
        (1u64 << 32) ^ u64::MAX
    );
    assert_eq!(base_nonce_from_clock(None, 7), 7);
}

#[test]
fn gpu_search_counts_batches_and_reports_progress() {
    let mut s = GpuSearch::new(1000, 10);
    let none = RawResult::default();
    assert!(matches!(s.batch_finished(&none, 100), GpuStep::Continue));
    assert_eq!(s.base(), 1010);
    assert_eq!(s.total(), 1000);
    match s.batch_finished(&none, 600_000_000) {
        GpuStep::Progress(h) => assert_eq!(h, 2000),
        other => panic!("expected progress, got {other:?}"),
    }
    assert_eq!(s.base(), 2010);
    match s.batch_finished(&none, 500_000_001) {
        GpuStep::Progress(h) => assert_eq!(h, 1000),
        other => panic!("expected progress, got {other:?}"),
    }
    assert!(matches!(s.batch_finished(&none, 500_000_000), GpuStep::Continue));
    let hit = RawResult { found: 1, nonce_lo: 7, nonce_hi: 1, hash: [0x11111111; 8] };
    match s.batch_finished(&hit, 0) {
        GpuStep::Found(sol) => {
            assert_eq!(sol.backend, MiningBackend::OpenCl);
            assert_eq!(sol.nonce, (1u64 << 32) + 7);
            assert_eq!(sol.hashes, 5000);
            assert_eq!(sol.hash, format!("0x{}", "1".repeat(64)));
        }
        other => panic!("expected a solution, got {other:?}"),
    }
}

#[test]
fn gpu_search_wraps_base() {
    let mut s = GpuSearch::new(16, u64::MAX - 3);
    let none = RawResult::default();
    s.batch_finished(&none, 0);
    assert_eq!(s.base(), 12);
}

#[test]
fn opencl_status_check() {
    assert_eq!(check(0, "enqueue"), Ok(()));
    assert_eq!(check(-5, "enqueue"), Err("enqueue: OpenCL error -5".to_string()));
    assert_eq!(check(7, "finish"), Err("finish: OpenCL error 7".to_string()));
    assert_eq!(check(i32::MIN, "x"), Err(format!("x: OpenCL error {}", i32::MIN)));
}
