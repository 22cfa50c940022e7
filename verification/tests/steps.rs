use hash256_rust_miner::config::{next_search_action, Backend, SearchAction};
use hash256_rust_miner::eth::{priority_fee_wei, wallet_address, EthSettingError};
use hash256_rust_miner::gwei::{gwei_parse_risk, GweiParseRisk};
use hash256_rust_miner::round::{after_round_event, RoundAction, RoundEvent};
use hash256_rust_miner::miner::cpu::{scan_step, search_batch, ScanStep};
use hash256_rust_miner::miner::gpu::{choose_gpu_platform, first_gpu_platform, GpuChoiceError};
use hash256_rust_miner::miner::{hash_challenge_nonce, should_report};
use hash256_rust_miner::uint256::Uint256;
use std::sync::atomic::AtomicBool;

fn wei(v: u64) -> Uint256 {
    Uint256 { limbs: [v, 0, 0, 0] }
}

#[test]
fn scan_step_stops_when_the_flag_is_seen() {
    let target = Uint256 { limbs: [u64::MAX; 4] };
    assert_eq!(scan_step([0u8; 32], &target, 5, 0, true), ScanStep::Stopped);
}

#[test]
fn scan_step_reports_a_solving_nonce_with_its_digest() {
    let target = Uint256 { limbs: [u64::MAX; 4] };
    let expected = hash_challenge_nonce([7u8; 32], u64::MAX);
    assert_eq!(
        scan_step([7u8; 32], &target, u64::MAX - 2, 2, false),
        ScanStep::Found(u64::MAX, expected)
    );
}

#[test]
fn scan_step_wraps_the_nonce() {
    let target = Uint256 { limbs: [u64::MAX; 4] };
    let expected = hash_challenge_nonce([7u8; 32], 1);
    assert_eq!(
        scan_step([7u8; 32], &target, u64::MAX, 2, false),
        ScanStep::Found(1, expected)
    );
}

#[test]
fn scan_step_goes_on_past_a_nonce_that_does_not_solve() {
    let zero = Uint256 { limbs: [0; 4] };
    assert_eq!(scan_step([7u8; 32], &zero, 9, 3, false), ScanStep::Next);
}

#[test]
fn search_batch_finds_the_last_nonce_of_the_batch() {
    // The target admits exactly the digest of nonce 12, the last of 10..=12.
    let digests: Vec<[u8; 32]> = (10u64..=12).map(|n| hash_challenge_nonce([3u8; 32], n)).collect();
    let last = digests[2];
    let mut limbs = [0u64; 4];
    for i in 0..4 {
        let mut word = [0u8; 8];
        word.copy_from_slice(&last[24 - 8 * i..32 - 8 * i]);
        limbs[i] = u64::from_be_bytes(word);
    }
    // One more than the last digest, so that it alone may solve.
    let mut target = Uint256 { limbs };
    let mut i = 0;
    loop {
        let (v, carry) = target.limbs[i].overflowing_add(1);
        target.limbs[i] = v;
        if !carry {
            break;
        }
        i += 1;
    }
    let stopped = AtomicBool::new(false);
    let first_two_solve = digests[..2].iter().any(|d| {
        let a = Uint256::from_be_bytes(d);
        a.is_less_than(&target)
    });
    let r = search_batch([3u8; 32], target, 10, 3, &stopped);
    if first_two_solve {
        assert!(r.is_some());
    } else {
        assert_eq!(r, Some((12, last)));
    }
}

#[test]
fn first_gpu_platform_skips_failed_and_empty_platforms() {
    let answers = vec![(-1, 4), (0, 0), (0, 2), (0, 1)];
    assert_eq!(first_gpu_platform(&answers), Some(2));
}

#[test]
fn first_gpu_platform_none_without_a_gpu() {
    let answers = vec![(-1, 4), (0, 0), (-32, 0)];
    assert_eq!(first_gpu_platform(&answers), None);
    assert_eq!(first_gpu_platform(&Vec::new()), None);
}

#[test]
fn choose_gpu_platform_errors() {
    assert_eq!(choose_gpu_platform(0, &Vec::new()), Err(GpuChoiceError::NoPlatform));
    assert_eq!(choose_gpu_platform(2, &vec![(0, 0), (-1, 3)]), Err(GpuChoiceError::NoGpu));
    assert_eq!(choose_gpu_platform(2, &vec![(0, 0), (0, 3)]), Ok(1));
    assert_eq!(GpuChoiceError::NoPlatform.message(), "OpenCL platform tidak ditemukan");
    assert_eq!(
        GpuChoiceError::NoGpu.message(),
        "OpenCL GPU tidak ditemukan. Cek ROCm/OpenCL dengan clinfo."
    );
}

#[test]
fn progress_lines_are_two_seconds_apart() {
    assert!(!should_report(0));
    assert!(!should_report(1_999_999_999));
    assert!(should_report(2_000_000_000));
    assert!(should_report(10_000_000_000));
}

#[test]
fn search_actions_follow_the_backend() {
    assert_eq!(next_search_action(Backend::Auto, false), SearchAction::TryOpenCl);
    assert_eq!(next_search_action(Backend::Auto, true), SearchAction::RunCpu);
    assert_eq!(next_search_action(Backend::Opencl, false), SearchAction::TryOpenCl);
    assert_eq!(next_search_action(Backend::Opencl, true), SearchAction::GiveUp);
    assert_eq!(next_search_action(Backend::Cpu, false), SearchAction::RunCpu);
}

#[test]
fn priority_fee_in_whole_and_fractional_gwei() {
    assert_eq!(priority_fee_wei("2"), Ok(wei(2_000_000_000)));
    assert_eq!(priority_fee_wei("1.5"), Ok(wei(1_500_000_000)));
    assert_eq!(priority_fee_wei("0.000000001"), Ok(wei(1)));
    assert_eq!(priority_fee_wei("1_000"), Ok(wei(1_000_000_000_000)));
}

#[test]
fn priority_fee_drops_digits_below_one_wei() {
    assert_eq!(priority_fee_wei("0.0000000015"), Ok(wei(1)));
}

#[test]
fn priority_fee_negative_is_twos_complement() {
    let r = priority_fee_wei("-1").unwrap();
    assert_eq!(r.limbs, [u64::MAX - 999_999_999, u64::MAX, u64::MAX, u64::MAX]);
}

#[test]
fn priority_fee_rejects_text() {
    assert_eq!(priority_fee_wei("abc"), Err(EthSettingError::InvalidPriorityFee));
    assert_eq!(priority_fee_wei("+2"), Err(EthSettingError::InvalidPriorityFee));
    assert_eq!(
        EthSettingError::InvalidPriorityFee.message(),
        "PRIORITY_FEE_GWEI tidak valid"
    );
}

#[test]
fn gwei_parse_risks() {
    assert_eq!(gwei_parse_risk("2"), GweiParseRisk::Safe);
    assert_eq!(gwei_parse_risk("-1"), GweiParseRisk::Safe);
    assert_eq!(gwei_parse_risk("abc"), GweiParseRisk::Safe);
    assert_eq!(gwei_parse_risk("0.1234567\u{e9}"), GweiParseRisk::Safe);
    assert_eq!(gwei_parse_risk("0.12345678\u{e9}"), GweiParseRisk::Panics);
    let huge = "1".repeat(77);
    assert_eq!(gwei_parse_risk(&huge), GweiParseRisk::Panics);
    let negative_huge = format!("-{}", "1".repeat(70));
    assert_eq!(gwei_parse_risk(&negative_huge), GweiParseRisk::SignedOverflow);
    let too_long = "1".repeat(90);
    assert_eq!(gwei_parse_risk(&too_long), GweiParseRisk::Safe);
    let underscored = format!("{}_1", "1".repeat(76));
    assert_eq!(gwei_parse_risk(&underscored), GweiParseRisk::Panics);
}

#[test]
fn round_failures_end_the_run() {
    for keep in [false, true] {
        for notices in [false, true] {
            assert_eq!(after_round_event(keep, notices, RoundEvent::ReadFailed), RoundAction::EndWithError);
            assert_eq!(after_round_event(keep, notices, RoundEvent::SearchFailed), RoundAction::EndWithError);
            assert_eq!(after_round_event(keep, notices, RoundEvent::SubmitFailed), RoundAction::EndWithError);
        }
    }
}

#[test]
fn round_after_a_mined_solution() {
    assert_eq!(after_round_event(true, true, RoundEvent::Submitted), RoundAction::SendNotice);
    assert_eq!(after_round_event(false, true, RoundEvent::Submitted), RoundAction::SendNotice);
    assert_eq!(after_round_event(true, false, RoundEvent::Submitted), RoundAction::NextRound);
    assert_eq!(after_round_event(false, false, RoundEvent::Submitted), RoundAction::Finish);
    assert_eq!(after_round_event(true, true, RoundEvent::NoticeFailed), RoundAction::NextRound);
    assert_eq!(after_round_event(false, true, RoundEvent::NoticeFailed), RoundAction::Finish);
    assert_eq!(after_round_event(false, true, RoundEvent::NoticeSent), RoundAction::Finish);
}

#[test]
fn wallet_address_of_key_one() {
    let key = "0x0000000000000000000000000000000000000000000000000000000000000001";
    let address = wallet_address(key).unwrap();
    assert_eq!(hex::encode(address), "7e5f4552091a69125d5dfcb7b8c2659029395bdf");
}

#[test]
fn wallet_address_rejects_a_bad_key() {
    assert_eq!(wallet_address("0x1234"), Err(EthSettingError::InvalidPrivateKey));
    let zero = format!("0x{}", "0".repeat(64));
    assert_eq!(wallet_address(&zero), Err(EthSettingError::InvalidPrivateKey));
    assert_eq!(EthSettingError::InvalidPrivateKey.message(), "PRIVATE_KEY tidak valid");
}
