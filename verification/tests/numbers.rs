use hash256_rust_miner::eth::{gas_limit, max_fee_per_gas, reward_text, MiningState};
use hash256_rust_miner::text::prefixed_hex;
use hash256_rust_miner::format::short_decimal;
use hash256_rust_miner::uint256::Uint256;

#[test]
fn short_decimal_keeps_short_numbers() {
    assert_eq!(short_decimal(0), "0");
    assert_eq!(short_decimal(12345), "12345");
    assert_eq!(short_decimal(999_999_999_999_999_999), "999999999999999999");
}

#[test]
fn short_decimal_shortens_long_numbers() {
    assert_eq!(short_decimal(1_000_000_000_000_000_000), "1000000000...000000");
    assert_eq!(short_decimal(u64::MAX), "1844674407...551615");
}

#[test]
fn uint256_from_big_endian_bytes() {
    let mut b = [0u8; 32];
    b[31] = 1;
    b[0] = 0x80;
    let v = Uint256::from_be_bytes(&b);
    assert_eq!(v.limbs, [1, 0, 0, 0x8000_0000_0000_0000]);
}

#[test]
fn uint256_order() {
    let a = Uint256 { limbs: [5, 0, 0, 1] };
    let b = Uint256 { limbs: [0, 0, 1, 1] };
    assert!(a.is_less_than(&b));
    assert!(!b.is_less_than(&a));
    assert!(!a.is_less_than(&a));
}

#[test]
fn uint256_checked_arithmetic() {
    let max = Uint256 { limbs: [u64::MAX; 4] };
    assert_eq!(max.checked_add(&Uint256::from_u64(1)), None);
    assert_eq!(
        Uint256 { limbs: [u64::MAX, 0, 0, 0] }.checked_add(&Uint256::from_u64(1)),
        Some(Uint256 { limbs: [0, 1, 0, 0] })
    );
    assert_eq!(max.checked_mul_u64(2), None);
    assert_eq!(
        Uint256 { limbs: [u64::MAX, 1, 0, 0] }.checked_mul_u64(3),
        Some(Uint256 { limbs: [u64::MAX - 2, 5, 0, 0] })
    );
}

#[test]
fn gas_limit_pads_and_clamps_the_estimate() {
    assert_eq!(gas_limit(None), Uint256::from_u64(300_000));
    assert_eq!(gas_limit(Some(Uint256::from_u64(100_000))), Uint256::from_u64(200_000));
    assert_eq!(gas_limit(Some(Uint256::from_u64(200_000))), Uint256::from_u64(300_000));
    assert_eq!(gas_limit(Some(Uint256::from_u64(250_001))), Uint256::from_u64(375_001));
    assert_eq!(gas_limit(Some(Uint256::from_u64(400_000))), Uint256::from_u64(450_000));
    assert_eq!(gas_limit(Some(Uint256 { limbs: [0, 1, 0, 0] })), Uint256::from_u64(450_000));
}

#[test]
fn max_fee_is_three_base_fees_plus_priority() {
    let priority = Uint256::from_u64(2_000_000_000);
    assert_eq!(
        max_fee_per_gas(Some(Uint256::from_u64(30_000_000_000)), priority),
        Uint256::from_u64(92_000_000_000)
    );
    assert_eq!(max_fee_per_gas(None, priority), Uint256::from_u64(12_000_000_000));
    assert_eq!(
        max_fee_per_gas(Some(Uint256 { limbs: [u64::MAX, 0, 0, 0] }), Uint256::from_u64(3)),
        Uint256 { limbs: [0, 3, 0, 0] }
    );
}

#[test]
fn mining_state_picks_era_reward_difficulty_epoch() {
    let v = |n: u64| Uint256::from_u64(n);
    let s = MiningState::from_contract_state((v(1), v(2), v(3), v(4), v(5), v(6), v(7)));
    assert_eq!(s.era, v(1));
    assert_eq!(s.reward, v(2));
    assert_eq!(s.difficulty, v(3));
    assert_eq!(s.epoch, v(6));
}

#[test]
fn reward_is_shown_in_whole_tokens() {
    assert_eq!(reward_text(Uint256::from_u64(0)), "0.000000000000000000");
    assert_eq!(reward_text(Uint256::from_u64(1_500_000_000_000_000_000)), "1.500000000000000000");
    assert_eq!(reward_text(Uint256::from_u64(42)), "0.000000000000000042");
    assert_eq!(
        reward_text(Uint256 { limbs: [0, 1, 0, 0] }),
        "18.446744073709551616"
    );
}

#[test]
fn prefixed_hex_renders_bytes() {
    assert_eq!(prefixed_hex(&[]), "0x");
    assert_eq!(prefixed_hex(&[0x00, 0x0f, 0xa0, 0xff]), "0x000fa0ff");
}

#[test]
fn gas_limit_stays_in_range_and_grows_with_the_estimate() {
    let mut last = 0u64;
    for e in (0..700_000u64).step_by(997) {
        let limit = gas_limit(Some(Uint256::from_u64(e))).limbs[0];
        assert!((200_000..=450_000).contains(&limit));
        assert!(limit >= last);
        last = limit;
    }
}

#[test]
fn distinct_digests_render_distinctly() {
    let mut a = [0u8; 32];
    let mut b = [0u8; 32];
    a[5] = 0x10;
    b[5] = 0x01;
    assert_ne!(prefixed_hex(&a), prefixed_hex(&b));
    assert_eq!(prefixed_hex(&a).len(), 66);
}
