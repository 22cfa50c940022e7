//! What the miner reads from the HASH256 contract and the gas settings of the
//! transaction that submits a solution.

use vstd::prelude::*;
use ethers::signers::{LocalWallet, Signer};
use crate::gwei::{gwei_amount, gwei_parse_panics, gwei_signed_scaling_overflows, parse_gwei};
use crate::text::{decimal, pow10};
use crate::uint256::{uint256_modulus, Uint256};

verus! {

/// The part of the contract's `miningState()` that the miner shows and uses.
#[derive(Clone, Copy, Debug, PartialEq, Eq)]
pub struct MiningState {
    pub era: Uint256,
    pub reward: Uint256,
    pub difficulty: Uint256,
    pub epoch: Uint256,
}

impl MiningState {
    /// Picks era, reward, difficulty and epoch out of the seven values that
    /// `miningState()` returns (era, reward, difficulty, minted, remaining, epoch,
    /// blocks left in the epoch).
    pub fn from_contract_state(
        state: (Uint256, Uint256, Uint256, Uint256, Uint256, Uint256, Uint256),
    ) -> (r: MiningState)
        ensures
            r.era == state.0,
            r.reward == state.1,
            r.difficulty == state.2,
            r.epoch == state.5,
    {
        MiningState { era: state.0, reward: state.1, difficulty: state.2, epoch: state.5 }
    }
}

/// A mined transaction: its hash and the block that holds it.
#[derive(Clone, Copy, Debug, PartialEq, Eq)]
pub struct TxReport {
    pub tx_hash: [u8; 32],
    pub block_number: u64,
}

/// The lowest gas limit given to a `mine` transaction.
pub const MIN_GAS_LIMIT: u64 = 200_000;

/// The highest gas limit given to a `mine` transaction.
pub const MAX_GAS_LIMIT: u64 = 450_000;

/// The gas limit used when the node cannot estimate the gas.
pub const FALLBACK_GAS_LIMIT: u64 = 300_000;

/// The fee cap used, on top of the priority fee, when the latest block has no base
/// fee: ten gwei, in wei.
pub const FALLBACK_MAX_FEE_WEI: u64 = 10_000_000_000;

/// The gas limit for the node's estimate: half as much again as the estimate,
/// brought into 200000 ..= 450000; 300000 when there is no estimate.
pub open spec fn gas_limit_for(estimate: Option<nat>) -> nat {
    match estimate {
        None => 300_000,
        Some(e) => {
            let padded = e * 3 / 2;
            if padded < 200_000 {
                200_000
            } else if padded > 450_000 {
                450_000
            } else {
                padded
            }
        },
    }
}

/// The gas limit of the `mine` transaction, from the node's estimate (`None` when
/// estimating failed).
pub fn gas_limit(estimate: Option<Uint256>) -> (r: Uint256)
    requires
        estimate matches Some(e) ==> e.value() * 3 < uint256_modulus(),
    ensures
        r.value() == gas_limit_for(
            match estimate {
                Some(e) => Some(e.value()),
                None => None,
            },
        ),
{
    match estimate {
        None => Uint256::from_u64(FALLBACK_GAS_LIMIT),
        Some(e) => {
            let l = e.limbs;
            if l[1] != 0 || l[2] != 0 || l[3] != 0 || l[0] >= 300_000 {
                // Half as much again is at least 450000.
                Uint256::from_u64(MAX_GAS_LIMIT)
            } else {
                let padded = l[0] * 3 / 2;
                let limit = if padded < MIN_GAS_LIMIT {
                    MIN_GAS_LIMIT
                } else if padded > MAX_GAS_LIMIT {
                    MAX_GAS_LIMIT
                } else {
                    padded
                };
                Uint256::from_u64(limit)
            }
        },
    }
}

/// The fee cap of the `mine` transaction: three times the base fee of the latest
/// block plus the priority fee, or ten gwei plus the priority fee when the block
/// has no base fee.
pub open spec fn max_fee_for(base_fee: Option<nat>, priority: nat) -> nat {
    match base_fee {
        Some(b) => b * 3 + priority,
        None => 10_000_000_000nat + priority,
    }
}

pub fn max_fee_per_gas(base_fee: Option<Uint256>, priority: Uint256) -> (r: Uint256)
    requires
        max_fee_for(
            match base_fee {
                Some(b) => Some(b.value()),
                None => None,
            },
            priority.value(),
        ) < uint256_modulus(),
    ensures
        r.value() == max_fee_for(
            match base_fee {
                Some(b) => Some(b.value()),
                None => None,
            },
            priority.value(),
        ),
{
    let cap = match base_fee {
        Some(b) => b.checked_mul_u64(3).unwrap(),
        None => Uint256::from_u64(FALLBACK_MAX_FEE_WEI),
    };
    cap.checked_add(&priority).unwrap()
}

/// `s` padded on the left with zeros to at least `width` characters.
pub open spec fn zero_padded(s: Seq<char>, width: nat) -> Seq<char> {
    if s.len() >= width {
        s
    } else {
        Seq::new((width - s.len()) as nat, |i: int| '0') + s
    }
}

/// An amount of base units shown in whole units of `decimals` decimal places: the
/// whole part, a point, and the fraction with all `decimals` digits.
pub open spec fn units_text(amount: nat, decimals: nat) -> Seq<char> {
    decimal(amount / pow10(decimals)) + "."@ + zero_padded(decimal(amount % pow10(decimals)), decimals)
}

/// Trusted: `ethers::utils::format_units(amount, 18)` shows a 256-bit amount in
/// units of 18 decimals as the quotient by 10^18, a point, and the remainder padded
/// with zeros to 18 digits (`format!("{integer}.{decimals:0>18}")`); it fails only
/// for 78 decimals or more, so never here.
#[verifier::external_body]
fn format_units_18(amount: Uint256) -> (r: Option<String>)
    ensures
        r is Some,
        r matches Some(s) ==> s@ == units_text(amount.value(), 18),
{
    ethers::utils::format_units(ethers::types::U256(amount.limbs), 18).ok()
}

/// The mining reward, given in wei-like base units of an 18-decimal token, shown in
/// whole tokens.
pub fn reward_text(reward: Uint256) -> (r: String)
    ensures
        r@ == units_text(reward.value(), 18),
{
    format_units_18(reward).unwrap()
}

/// A setting that the transaction side of the miner cannot use.
#[derive(Clone, Copy, Debug, PartialEq, Eq)]
pub enum EthSettingError {
    /// `PRIVATE_KEY` is no valid secp256k1 secret key in hexadecimal.
    InvalidPrivateKey,
    /// `PRIORITY_FEE_GWEI` is no amount of gwei.
    InvalidPriorityFee,
}

pub open spec fn eth_setting_error_message(e: EthSettingError) -> Seq<char> {
    match e {
        EthSettingError::InvalidPrivateKey => "PRIVATE_KEY tidak valid"@,
        EthSettingError::InvalidPriorityFee => "PRIORITY_FEE_GWEI tidak valid"@,
    }
}

impl EthSettingError {
    /// The message shown for the error.
    pub fn message(&self) -> (r: &'static str)
        ensures
            r@ == eth_setting_error_message(*self),
    {
        match self {
            EthSettingError::InvalidPrivateKey => "PRIVATE_KEY tidak valid",
            EthSettingError::InvalidPriorityFee => "PRIORITY_FEE_GWEI tidak valid",
        }
    }
}

/// The priority fee per gas, in wei, that the `PRIORITY_FEE_GWEI` setting asks
/// for: the setting read as an amount of gwei by `parse_units`, or
/// `InvalidPriorityFee` where `parse_units` refuses it. The caller tests
/// `gwei_parse_risk` first: on the other settings `parse_units` panics, or what it
/// returns depends on the build.
pub fn priority_fee_wei(setting: &str) -> (r: Result<Uint256, EthSettingError>)
    requires
        !gwei_parse_panics(setting@),
        !gwei_signed_scaling_overflows(setting@),
    ensures
        r is Ok <==> gwei_amount(setting@) is Some,
        r matches Ok(u) ==> Some(u.value()) == gwei_amount(setting@),
        r matches Err(e) ==> e == EthSettingError::InvalidPriorityFee,
{
    match parse_gwei(setting) {
        Some(fee) => Ok(fee),
        None => Err(EthSettingError::InvalidPriorityFee),
    }
}

/// The 20-byte address of the account that the secret key in `text` controls
/// (hexadecimal, with or without `0x`); `None` where the text is no valid key.
pub uninterp spec fn key_address(text: Seq<char>) -> Option<Seq<u8>>;

/// Trusted: `text.parse::<LocalWallet>()` followed by `address()`: the address
/// that `key_address` names, or `None` where the parse fails. How the address
/// is derived from the key (secp256k1, then Keccak-256) is not written out here.
#[verifier::external_body]
pub(crate) fn wallet_address_from_key(private_key: &str) -> (r: Option<[u8; 20]>)
    ensures
        r is Some <==> key_address(private_key@) is Some,
        r matches Some(a) ==> Some(a@) == key_address(private_key@),
{
    match private_key.parse::<LocalWallet>() {
        Ok(wallet) => Some(wallet.address().0),
        Err(_) => None,
    }
}

/// The address of the wallet that `PRIVATE_KEY` holds, which the miner shows,
/// mines for and reports; `InvalidPrivateKey` where the key cannot be read.
pub fn wallet_address(private_key: &str) -> (r: Result<[u8; 20], EthSettingError>)
    ensures
        r is Ok <==> key_address(private_key@) is Some,
        r matches Ok(a) ==> Some(a@) == key_address(private_key@),
        r matches Err(e) ==> e == EthSettingError::InvalidPrivateKey,
{
    match wallet_address_from_key(private_key) {
        Some(address) => Ok(address),
        None => Err(EthSettingError::InvalidPrivateKey),
    }
}

} // verus!
