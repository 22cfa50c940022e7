use hash256_rust_miner::miner::gpu::{challenge_words, difficulty_words, hash_words_to_hex};
use hash256_rust_miner::miner::{hash_challenge_nonce, hash_meets_difficulty, Solution};
use hash256_rust_miner::uint256::Uint256;

/// The OpenCL kernel's `below` comparison, word by word.
fn kernel_below(h: [u32; 8], d: [u32; 8]) -> bool {
    for i in 0..8 {
        if h[i] < d[i] {
            return true;
        }
        if h[i] > d[i] {
            return false;
        }
    }
    false
}

fn digest_words(digest: [u8; 32]) -> [u32; 8] {
    let mut words = [0u32; 8];
    for i in 0..8 {
        words[i] = u32::from_be_bytes(digest[4 * i..4 * i + 4].try_into().unwrap());
    }
    words
}

#[test]
fn gpu_and_cpu_accept_the_same_digests() {
    let targets = [
        Uint256::from_u64(0),
        Uint256::from_u64(1),
        Uint256 { limbs: [0, 0, 0, 1 << 60] },
        Uint256 { limbs: [0, 0, 0, 0x0000_ffff_ffff_ffff] },
        Uint256 { limbs: [u64::MAX, u64::MAX, u64::MAX, 0x8000_0000_0000_0000] },
        Uint256 { limbs: [u64::MAX; 4] },
    ];
    for nonce in 0..64u64 {
        let digest = hash_challenge_nonce([0x5a; 32], nonce);
        for target in targets {
            assert_eq!(
                kernel_below(digest_words(digest), difficulty_words(target)),
                hash_meets_difficulty(&digest, &target)
            );
        }
        let exact = Uint256::from_be_bytes(&digest);
        assert!(!kernel_below(digest_words(digest), difficulty_words(exact)));
        assert!(!hash_meets_difficulty(&digest, &exact));
        let above = exact.checked_add(&Uint256::from_u64(1)).unwrap();
        assert!(kernel_below(digest_words(digest), difficulty_words(above)));
        assert!(hash_meets_difficulty(&digest, &above));
        assert_eq!(
            hash_words_to_hex(digest_words(digest)),
            Solution::found_by_cpu(nonce, digest, 0).hash
        );
    }
}

#[test]
fn kernel_lanes_are_the_cpu_input() {
    let mut challenge = [0u8; 32];
    for (i, b) in challenge.iter_mut().enumerate() {
        *b = (i as u8).wrapping_mul(37).wrapping_add(11);
    }
    let nonce: u64 = 0x0123_4567_89ab_cdef;
    let mut input = [0u8; 64];
    input[..32].copy_from_slice(&challenge);
    input[56..].copy_from_slice(&nonce.to_be_bytes());
    let words = challenge_words(challenge);
    for k in 0..4 {
        let lane = ((words[2 * k + 1] as u64) << 32) | words[2 * k] as u64;
        assert_eq!(lane, u64::from_le_bytes(input[8 * k..8 * k + 8].try_into().unwrap()));
    }
    for k in 4..7 {
        assert_eq!(u64::from_le_bytes(input[8 * k..8 * k + 8].try_into().unwrap()), 0);
    }
    let lo = nonce as u32;
    let hi = (nonce >> 32) as u32;
    let lane7 = ((lo.swap_bytes() as u64) << 32) | hi.swap_bytes() as u64;
    assert_eq!(lane7, u64::from_le_bytes(input[56..64].try_into().unwrap()));
}

#[test]
fn kernel_digest_words_spell_the_digest() {
    let digest = hash_challenge_nonce([0x42; 32], 99);
    let mut h = [0u32; 8];
    for k in 0..4 {
        let lane = u64::from_le_bytes(digest[8 * k..8 * k + 8].try_into().unwrap());
        h[2 * k] = ((lane & 0xffff_ffff) as u32).swap_bytes();
        h[2 * k + 1] = ((lane >> 32) as u32).swap_bytes();
    }
    assert_eq!(h, digest_words(digest));
    assert_eq!(hash_words_to_hex(h), Solution::found_by_cpu(99, digest, 0).hash);
}
