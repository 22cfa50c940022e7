//! Properties that hold across the functions of the library.

use vstd::prelude::*;
use crate::round::{round_action, RoundAction, RoundEvent};
use crate::eth::TxReport;
use crate::miner::{backend_name, MiningBackend, Solution};
use crate::telegram::{send_message_url_text, success_text};
use crate::miner::PROGRESS_LINE_INTERVAL_NANOS;
use crate::gwei::{all_ascii_digits, digits_value, is_ascii_digit};
use crate::eth::units_text;
use crate::miner::gpu::signed_decimal;
use crate::config::{is_unicode_whitespace, ConfigError};
use crate::miner::cpu::batch_nonce;
use crate::miner::gpu::{offers_gpu, CL_SUCCESS};
use crate::config::{search_action, Backend, SearchAction, clamp_workers, config_matches, config_outcome, default_workers, normalized_gpu_batch, Cli, Config, Environment};
use crate::encoding::{be_value, lemma_be_value_append, lemma_be_value_single, lemma_pow256_small, pow256};
use crate::eth::{gas_limit_for, max_fee_for};
use crate::format::short_decimal_text;
use crate::miner::{challenge_nonce_input, u64_be_bytes};
use crate::miner::gpu::{le_word_at, words_be_bytes, words_be_bytes_upto, words_be_value, wrap_add};
use crate::text::{decimal, hex_char, hex_lower, lemma_decimal_len_bound, lemma_hex_lower_len, pow10, u32_be_bytes};

verus! {

/// A normalized GPU batch is at least 65536, a multiple of 64, and normalizing it
/// again changes nothing.
pub proof fn law_normalized_gpu_batch(batch: usize)
    ensures
        normalized_gpu_batch(batch) >= 65_536,
        normalized_gpu_batch(batch) % 64 == 0,
        normalized_gpu_batch(batch) <= if batch < 65_536 { 65_536 } else { batch },
        normalized_gpu_batch(normalized_gpu_batch(batch)) == normalized_gpu_batch(batch),
{
}

/// Resolved settings always have between 1 and 64 CPU workers, a CPU batch of at
/// least one nonce, and a normalized GPU batch.
pub proof fn law_config_bounds(c: Config, cli: Cli, env: Environment, cpus: usize)
    requires
        config_matches(c, cli, env, cpus),
    ensures
        1 <= c.workers <= 64,
        c.cpu_batch >= 1,
        c.gpu_batch >= 65_536,
        c.gpu_batch % 64 == 0,
{
    law_normalized_gpu_batch(cli.gpu_batch);
}

/// The `check` command reads the contract only: it needs `RPC_URL` and nothing
/// else, whatever `PRIVATE_KEY` holds. Mining needs a private key that starts
/// with `0x`.
pub proof fn law_check_needs_only_rpc_url(cli: Cli, env: Environment)
    ensures
        cli.command is Some ==> (config_outcome(cli, env) is Ok <==> env.rpc_url is Some),
        cli.command is None && config_outcome(cli, env) is Ok ==> (env.private_key matches Some(k)
            && "0x"@.is_prefix_of(k@)),
{
    reveal_strlit("0x");
}

/// Without an explicit worker count, a machine with more than one CPU keeps one
/// CPU free (up to 64 workers), and a single-CPU machine runs one worker.
pub proof fn law_default_workers(cpus: usize)
    ensures
        cpus <= 1 ==> clamp_workers(default_workers(cpus)) == 1,
        2 <= cpus <= 65 ==> clamp_workers(default_workers(cpus)) == cpus - 1,
        cpus > 65 ==> clamp_workers(default_workers(cpus)) == 64,
{
}

/// The gas limit always lies between 200000 and 450000, and does not go down when
/// the estimate goes up.
pub proof fn law_gas_limit_bounds(e1: nat, e2: nat)
    ensures
        200_000 <= gas_limit_for(Some(e1)) <= 450_000,
        200_000 <= gas_limit_for(None) <= 450_000,
        e1 <= e2 ==> gas_limit_for(Some(e1)) <= gas_limit_for(Some(e2)),
{
    if e1 <= e2 {
        assert(e1 * 3 <= e2 * 3);
        vstd::arithmetic::div_mod::lemma_div_is_ordered((e1 * 3) as int, (e2 * 3) as int, 2);
    }
}

/// The fee cap is never below the priority fee.
pub proof fn law_max_fee_covers_priority(base_fee: Option<nat>, priority: nat)
    ensures
        max_fee_for(base_fee, priority) >= priority,
{
}

/// Numbers of up to 18 digits are shown in full; longer ones are shown as 19
/// characters that begin with the first 10 digits and end with the last 6.
pub proof fn law_short_decimal(v: u64)
    ensures
        (v as nat) < 1_000_000_000_000_000_000 ==> short_decimal_text(v as nat) == decimal(v as nat),
        (v as nat) >= 1_000_000_000_000_000_000 ==> short_decimal_text(v as nat).len() == 19,
        short_decimal_text(v as nat).subrange(0, 1) == decimal(v as nat).subrange(0, 1),
{
    reveal_with_fuel(pow10, 19);
    assert(pow10(18) == 1_000_000_000_000_000_000nat);
    if (v as nat) < 1_000_000_000_000_000_000 {
        lemma_decimal_len_bound(v as nat, 18);
    } else {
        lemma_decimal_len_at_least(v as nat, 18);
        reveal_strlit("...");
    }
}

/// A number of at least 10^k has more than k digits.
pub proof fn lemma_decimal_len_at_least(n: nat, k: nat)
    requires
        n >= pow10(k),
    ensures
        decimal(n).len() > k,
    decreases k,
{
    if k > 0 {
        assert(n / 10 >= pow10((k - 1) as nat)) by {
            vstd::arithmetic::div_mod::lemma_div_is_ordered(
                (10 * pow10((k - 1) as nat)) as int,
                n as int,
                10,
            );
            vstd::arithmetic::div_mod::lemma_div_multiples_vanish(pow10((k - 1) as nat) as int, 10);
        }
        lemma_decimal_len_at_least(n / 10, (k - 1) as nat);
    }
}

/// A rendered digest is `0x` and two hexadecimal digits per byte, and it
/// determines the digest: two digests of the same length render alike only when
/// they are equal.
pub proof fn law_digest_text_determines_digest(a: Seq<u8>, b: Seq<u8>)
    requires
        a.len() == b.len(),
        "0x"@ + hex_lower(a) == "0x"@ + hex_lower(b),
    ensures
        a == b,
{
    reveal_strlit("0x");
    lemma_hex_lower_len(a);
    lemma_hex_lower_len(b);
    assert(hex_lower(a) =~= ("0x"@ + hex_lower(a)).subrange(2, 2 + 2 * a.len() as int));
    assert(hex_lower(b) =~= ("0x"@ + hex_lower(b)).subrange(2, 2 + 2 * b.len() as int));
    lemma_hex_lower_injective(a, b);
}

pub proof fn lemma_hex_char_injective(x: nat, y: nat)
    requires
        x < 16,
        y < 16,
        hex_char(x) == hex_char(y),
    ensures
        x == y,
{
}

pub proof fn lemma_hex_lower_injective(a: Seq<u8>, b: Seq<u8>)
    requires
        a.len() == b.len(),
        hex_lower(a) == hex_lower(b),
    ensures
        a == b,
    decreases a.len(),
{
    if a.len() > 0 {
        let a2 = a.drop_last();
        let b2 = b.drop_last();
        lemma_hex_lower_len(a2);
        lemma_hex_lower_len(b2);
        let n = 2 * a2.len();
        assert(hex_lower(a2) =~= hex_lower(a).subrange(0, n as int));
        assert(hex_lower(b2) =~= hex_lower(b).subrange(0, n as int));
        lemma_hex_lower_injective(a2, b2);
        let x = a.last() as nat;
        let y = b.last() as nat;
        assert(hex_lower(a)[n as int] == hex_char(x / 16));
        assert(hex_lower(b)[n as int] == hex_char(y / 16));
        assert(hex_lower(a)[n as int + 1] == hex_char(x % 16));
        assert(hex_lower(b)[n as int + 1] == hex_char(y % 16));
        lemma_hex_char_injective(x / 16, y / 16);
        lemma_hex_char_injective(x % 16, y % 16);
        assert(x == y);
        assert(a =~= a2.push(a.last()));
        assert(b =~= b2.push(b.last()));
    } else {
        assert(a =~= b);
    }
}

/// The CPU and the GPU render a digest alike: when the kernel's words hold the
/// digest's bytes, most significant byte of each word first, the GPU's text is the
/// CPU's text for those bytes.
pub proof fn law_backends_render_digest_alike(words: [u32; 8], digest: Seq<u8>)
    requires
        words_be_bytes(words) == digest,
    ensures
        "0x"@ + hex_lower(words_be_bytes(words)) == "0x"@ + hex_lower(digest),
        ("0x"@ + hex_lower(digest)).len() == 2 + 2 * digest.len(),
{
    reveal_strlit("0x");
    lemma_hex_lower_len(digest);
}

/// The nonce occupies the last 32 bytes of the hashed input as a big-endian
/// 256-bit number, and the challenge the first 32 bytes.
pub proof fn law_challenge_nonce_layout(challenge: Seq<u8>, nonce: u64)
    requires
        challenge.len() == 32,
    ensures
        challenge_nonce_input(challenge, nonce).len() == 64,
        challenge_nonce_input(challenge, nonce).subrange(0, 32) == challenge,
        be_value(challenge_nonce_input(challenge, nonce).subrange(32, 64)) == nonce as nat,
{
    let input = challenge_nonce_input(challenge, nonce);
    let zeros = Seq::new(24, |i: int| 0u8);
    assert(input.subrange(0, 32) =~= challenge);
    assert(input.subrange(32, 64) =~= zeros + u64_be_bytes(nonce));
    lemma_be_value_append(zeros, u64_be_bytes(nonce));
    lemma_be_value_zeros(zeros);
    lemma_be_value_u64_bytes(nonce);
    lemma_pow256_small();
    assert(u64_be_bytes(nonce).len() == 8);
    assert(be_value(zeros) * pow256(8) == 0);
    assert(be_value(input.subrange(32, 64)) == be_value(zeros) * pow256(8) + be_value(
        u64_be_bytes(nonce),
    ));
}

pub proof fn lemma_be_value_zeros(z: Seq<u8>)
    requires
        forall|i: int| 0 <= i < z.len() ==> z[i] == 0,
    ensures
        be_value(z) == 0,
    decreases z.len(),
{
    if z.len() > 0 {
        lemma_be_value_zeros(z.drop_last());
    }
}

/// The eight bytes of a nonce, read back most significant first, give the nonce.
pub proof fn lemma_be_value_u64_bytes(n: u64)
    ensures
        be_value(u64_be_bytes(n)) == n as nat,
{
    let s = u64_be_bytes(n);
    let x = n as int;
    let q1 = x / 0x100;
    let q2 = x / 0x1_0000;
    let q3 = x / 0x100_0000;
    let q4 = x / 0x1_0000_0000;
    let q5 = x / 0x100_0000_0000;
    let q6 = x / 0x1_0000_0000_0000;
    let q7 = x / 0x100_0000_0000_0000;
    lemma_div_step(x, 0x1, 0x100);
    lemma_div_step(x, 0x100, 0x1_0000);
    lemma_div_step(x, 0x1_0000, 0x100_0000);
    lemma_div_step(x, 0x100_0000, 0x1_0000_0000);
    lemma_div_step(x, 0x1_0000_0000, 0x100_0000_0000);
    lemma_div_step(x, 0x100_0000_0000, 0x1_0000_0000_0000);
    lemma_div_step(x, 0x1_0000_0000_0000, 0x100_0000_0000_0000);
    assert(q7 < 256);
    // Unfold the reading byte by byte.
    assert(s.subrange(0, 1) =~= seq![s[0]]);
    lemma_be_value_single(s[0]);
    assert(be_value(s.subrange(0, 1)) == q7);
    assert(be_value(s.subrange(0, 2)) == q6) by {
        assert(s.subrange(0, 2).drop_last() =~= s.subrange(0, 1));
    }
    assert(be_value(s.subrange(0, 3)) == q5) by {
        assert(s.subrange(0, 3).drop_last() =~= s.subrange(0, 2));
    }
    assert(be_value(s.subrange(0, 4)) == q4) by {
        assert(s.subrange(0, 4).drop_last() =~= s.subrange(0, 3));
    }
    assert(be_value(s.subrange(0, 5)) == q3) by {
        assert(s.subrange(0, 5).drop_last() =~= s.subrange(0, 4));
    }
    assert(be_value(s.subrange(0, 6)) == q2) by {
        assert(s.subrange(0, 6).drop_last() =~= s.subrange(0, 5));
    }
    assert(be_value(s.subrange(0, 7)) == q1) by {
        assert(s.subrange(0, 7).drop_last() =~= s.subrange(0, 6));
    }
    assert(be_value(s) == x) by {
        assert(s.drop_last() =~= s.subrange(0, 7));
    }
}

/// Dividing by `d * 256` is dividing by `d`, then by 256; what is left over is
/// the next byte.
proof fn lemma_div_step(x: int, d: int, d256: int)
    requires
        x >= 0,
        d > 0,
        d256 == d * 256,
    ensures
        x / d == (x / d256) * 256 + (x / d) % 256,
        (x / d) % 256 < 256,
{
    vstd::arithmetic::div_mod::lemma_div_denominator(x, d, 256);
    vstd::arithmetic::div_mod::lemma_fundamental_div_mod(x / d, 256);
}

/// `n` successive wrapping additions of `b` to `x`.
pub open spec fn repeat_wrap_add(x: u64, b: u64, n: nat) -> u64
    decreases n,
{
    if n == 0 {
        x
    } else {
        wrap_add(repeat_wrap_add(x, b, (n - 1) as nat), b)
    }
}

/// After `n` runs of the kernel without a find, the search has counted `n` batches
/// of hashes and its base has moved `n` batches on, both modulo 2^64: successive
/// runs cover consecutive nonces.
pub proof fn law_gpu_search_advances(x: u64, b: u64, n: nat)
    ensures
        repeat_wrap_add(x, b, n) as int == (x + n * b) % 0x1_0000_0000_0000_0000int,
    decreases n,
{
    if n > 0 {
        law_gpu_search_advances(x, b, (n - 1) as nat);
        let prev = repeat_wrap_add(x, b, (n - 1) as nat);
        let m = 0x1_0000_0000_0000_0000int;
        let a = x + (n - 1) * b;
        assert(prev as int == a % m);
        vstd::arithmetic::div_mod::lemma_add_mod_noop(a, b as int, m);
        vstd::arithmetic::div_mod::lemma_small_mod(b as nat, m as nat);
        vstd::arithmetic::div_mod::lemma_mod_twice(a, m);
        assert((prev + b) % m == (a + b) % m);
        assert(a + b == x + n * b) by (nonlinear_arith)
            requires
                a == x + (n - 1) * b,
                n > 0,
        ;
        assert(repeat_wrap_add(x, b, n) == wrap_add(prev, b));
        vstd::arithmetic::div_mod::lemma_mod_bound(prev + b, m);
        assert(wrap_add(prev, b) as int == (prev + b) % m);
    } else {
        vstd::arithmetic::div_mod::lemma_small_mod(x as nat, 0x1_0000_0000_0000_0000nat);
        assert(n * b == 0) by (nonlinear_arith)
            requires
                n == 0,
        ;
    }
}

/// The weight of word `i` of eight words, most significant first: 2^(32 (7 - i)).
pub open spec fn word_weight(i: nat) -> nat
    decreases 8 - i,
{
    if i >= 7 {
        1
    } else {
        0x1_0000_0000 * word_weight(i + 1)
    }
}

/// The number that words `i ..` of eight words denote, most significant first.
pub open spec fn words_tail(w: [u32; 8], i: nat) -> nat
    decreases 8 - i,
{
    if i >= 8 {
        0
    } else {
        w[i as int] as nat * word_weight(i) + words_tail(w, i + 1)
    }
}

/// The comparison that the OpenCL kernel makes between the digest words `h` and
/// the target words `d`, from word `i` on: the first word in which they differ
/// decides, and equal words are not below.
pub open spec fn kernel_below(h: [u32; 8], d: [u32; 8], i: nat) -> bool
    decreases 8 - i,
{
    if i >= 8 {
        false
    } else if h[i as int] < d[i as int] {
        true
    } else if h[i as int] > d[i as int] {
        false
    } else {
        kernel_below(h, d, i + 1)
    }
}

proof fn lemma_word_weight_positive(i: nat)
    ensures
        word_weight(i) >= 1,
    decreases 8 - i,
{
    if i < 7 {
        lemma_word_weight_positive(i + 1);
    }
}

proof fn lemma_words_tail_bound(w: [u32; 8], i: nat)
    requires
        i < 8,
    ensures
        words_tail(w, i) < 0x1_0000_0000 * word_weight(i),
    decreases 8 - i,
{
    let ww = word_weight(i);
    let t = words_tail(w, i + 1);
    lemma_word_weight_positive(i);
    if i < 7 {
        lemma_words_tail_bound(w, i + 1);
    } else {
        assert(t == 0);
    }
    assert(t < ww);
    let x = w[i as int] as nat;
    assert(x * ww + t < 0x1_0000_0000 * ww) by (nonlinear_arith)
        requires
            x < 0x1_0000_0000,
            t < ww,
    ;
}

proof fn lemma_kernel_below(h: [u32; 8], d: [u32; 8], i: nat)
    ensures
        kernel_below(h, d, i) <==> words_tail(h, i) < words_tail(d, i),
    decreases 8 - i,
{
    if i < 8 {
        lemma_kernel_below(h, d, i + 1);
        let ww = word_weight(i);
        let x = h[i as int] as nat;
        let y = d[i as int] as nat;
        let th = words_tail(h, i + 1);
        let td = words_tail(d, i + 1);
        if i < 7 {
            lemma_words_tail_bound(h, i + 1);
            lemma_words_tail_bound(d, i + 1);
        }
        assert(th < ww && td < ww);
        if x < y {
            assert(x * ww + th < y * ww + td) by (nonlinear_arith)
                requires
                    x < y,
                    th < ww,
                    td >= 0,
            ;
        } else if x > y {
            assert(y * ww + td < x * ww + th) by (nonlinear_arith)
                requires
                    y < x,
                    td < ww,
                    th >= 0,
            ;
        }
    }
}

/// The four bytes of a word, read back most significant first, give the word.
proof fn lemma_be_value_u32_bytes(w: u32)
    ensures
        be_value(u32_be_bytes(w)) == w as nat,
{
    let s = u32_be_bytes(w);
    let x = w as int;
    lemma_div_step(x, 0x1, 0x100);
    lemma_div_step(x, 0x100, 0x1_0000);
    lemma_div_step(x, 0x1_0000, 0x100_0000);
    assert(s.subrange(0, 1) =~= seq![s[0]]);
    lemma_be_value_single(s[0]);
    assert(be_value(s.subrange(0, 2)) == x / 0x1_0000) by {
        assert(s.subrange(0, 2).drop_last() =~= s.subrange(0, 1));
    }
    assert(be_value(s.subrange(0, 3)) == x / 0x100) by {
        assert(s.subrange(0, 3).drop_last() =~= s.subrange(0, 2));
    }
    assert(be_value(s) == x) by {
        assert(s.drop_last() =~= s.subrange(0, 3));
    }
}

/// The number that the first `n` of eight words denote, most significant first.
pub open spec fn words_head(w: [u32; 8], n: nat) -> nat
    decreases n,
{
    if n == 0 || n > 8 {
        0
    } else {
        words_head(w, (n - 1) as nat) * 0x1_0000_0000 + w[n - 1] as nat
    }
}

proof fn lemma_be_value_words_upto(w: [u32; 8], n: nat)
    requires
        n <= 8,
    ensures
        be_value(words_be_bytes_upto(w, n)) == words_head(w, n),
        words_be_bytes_upto(w, n).len() == 4 * n,
    decreases n,
{
    if n == 0 {
        assert(be_value(Seq::<u8>::empty()) == 0);
    } else {
        lemma_be_value_words_upto(w, (n - 1) as nat);
        lemma_be_value_append(words_be_bytes_upto(w, (n - 1) as nat), u32_be_bytes(w[n - 1]));
        lemma_be_value_u32_bytes(w[n - 1]);
        lemma_pow256_small();
    }
}

/// The 32 bytes of eight words denote the number that the words denote.
pub proof fn lemma_be_value_words(w: [u32; 8])
    ensures
        be_value(words_be_bytes(w)) == words_be_value(w),
        words_be_value(w) == words_tail(w, 0),
{
    lemma_be_value_words_upto(w, 8);
    reveal_with_fuel(words_head, 9);
    assert(word_weight(7) == 0x1nat);
    assert(word_weight(6) == 0x1_0000_0000nat);
    assert(word_weight(5) == 0x1_0000_0000_0000_0000nat);
    assert(word_weight(4) == 0x1_0000_0000_0000_0000_0000_0000nat);
    assert(word_weight(3) == 0x1_0000_0000_0000_0000_0000_0000_0000_0000nat);
    assert(word_weight(2) == 0x1_0000_0000_0000_0000_0000_0000_0000_0000_0000_0000nat);
    assert(word_weight(1) == 0x1_0000_0000_0000_0000_0000_0000_0000_0000_0000_0000_0000_0000nat);
    assert(word_weight(0) == 0x1_0000_0000_0000_0000_0000_0000_0000_0000_0000_0000_0000_0000_0000_0000nat);
    assert(words_tail(w, 8) == 0);
    assert(words_tail(w, 7) == w[7] as nat * word_weight(7) + words_tail(w, 8));
    assert(words_tail(w, 6) == w[6] as nat * word_weight(6) + words_tail(w, 7));
    assert(words_tail(w, 5) == w[5] as nat * word_weight(5) + words_tail(w, 6));
    assert(words_tail(w, 4) == w[4] as nat * word_weight(4) + words_tail(w, 5));
    assert(words_tail(w, 3) == w[3] as nat * word_weight(3) + words_tail(w, 4));
    assert(words_tail(w, 2) == w[2] as nat * word_weight(2) + words_tail(w, 3));
    assert(words_tail(w, 1) == w[1] as nat * word_weight(1) + words_tail(w, 2));
    assert(words_tail(w, 0) == w[0] as nat * word_weight(0) + words_tail(w, 1));
}

/// The GPU accepts a digest exactly when the CPU does: the kernel's word-by-word
/// comparison of the digest words with the target words (as `difficulty_words`
/// makes them) says "below" exactly when the digest, read as a big-endian number,
/// is below the target.
pub proof fn law_gpu_and_cpu_accept_alike(digest_words: [u32; 8], target_words: [u32; 8], target: nat)
    requires
        words_be_value(target_words) == target,
    ensures
        kernel_below(digest_words, target_words, 0) <==> be_value(words_be_bytes(digest_words))
            < target,
{
    lemma_be_value_words(digest_words);
    lemma_be_value_words(target_words);
    lemma_kernel_below(digest_words, target_words, 0);
}

/// The little-endian 64-bit lane made of bytes `8k .. 8k + 8` of `s`, as Keccak
/// absorbs it.
pub open spec fn le_lane_at(s: Seq<u8>, k: int) -> nat {
    s[8 * k] as nat + s[8 * k + 1] as nat * 0x100 + s[8 * k + 2] as nat * 0x1_0000 + s[8 * k
        + 3] as nat * 0x100_0000 + s[8 * k + 4] as nat * 0x1_0000_0000 + s[8 * k + 5] as nat
        * 0x100_0000_0000 + s[8 * k + 6] as nat * 0x1_0000_0000_0000 + s[8 * k + 7] as nat
        * 0x100_0000_0000_0000
}

/// The kernel's first four state lanes, each made of two challenge words
/// (`(words[2k + 1] << 32) | words[2k]`), are the challenge's bytes as Keccak
/// absorbs them.
pub proof fn law_challenge_lanes(challenge: Seq<u8>, words: [u32; 8], k: int)
    requires
        challenge.len() == 32,
        0 <= k < 4,
        forall|i: int| 0 <= i < 8 ==> words[i] as nat == le_word_at(challenge, i),
    ensures
        words[2 * k + 1] as nat * 0x1_0000_0000 + words[2 * k] as nat == le_lane_at(challenge, k),
{
    assert(words[2 * k + 1] as nat == le_word_at(challenge, 2 * k + 1));
    assert(words[2 * k] as nat == le_word_at(challenge, 2 * k));
}

/// The 32-bit word `v` with its four bytes in reverse order (OpenCL `bswap32`).
pub open spec fn bswap32(v: nat) -> nat {
    (v % 256) * 0x100_0000 + ((v / 0x100) % 256) * 0x1_0000 + ((v / 0x1_0000) % 256) * 0x100 + (v
        / 0x100_0000) % 256
}

/// The kernel builds its first eight state lanes from the challenge words and the
/// nonce (`(words[2k + 1] << 32) | words[2k]` for lanes 0 to 3, zero for lanes 4
/// to 6, `(bswap32(lo) << 32) | bswap32(hi)` for lane 7); these are exactly the 64
/// bytes that the CPU hashes, taken as Keccak takes them: little-endian lanes.
pub proof fn law_kernel_absorbs_the_cpu_input(
    challenge: Seq<u8>,
    words: [u32; 8],
    nonce: u64,
    k: int,
)
    requires
        challenge.len() == 32,
        0 <= k < 8,
        forall|i: int| 0 <= i < 8 ==> words[i] as nat == le_word_at(challenge, i),
    ensures
        k < 4 ==> le_lane_at(challenge_nonce_input(challenge, nonce), k) == words[2 * k + 1] as nat
            * 0x1_0000_0000 + words[2 * k] as nat,
        4 <= k < 7 ==> le_lane_at(challenge_nonce_input(challenge, nonce), k) == 0,
        k == 7 ==> le_lane_at(challenge_nonce_input(challenge, nonce), k) == bswap32(
            nonce as nat % 0x1_0000_0000,
        ) * 0x1_0000_0000 + bswap32(nonce as nat / 0x1_0000_0000),
{
    let input = challenge_nonce_input(challenge, nonce);
    assert(input.len() == 64);
    if k < 4 {
        law_challenge_lanes(challenge, words, k);
    } else if k < 7 {
    } else {
        let n = nonce;
        let lo = n % 0x1_0000_0000;
        let hi = n / 0x1_0000_0000;
        assert(input[56] == ((n / 0x100_0000_0000_0000) % 256) as u8);
        assert(input[63] == (n % 256) as u8);
        assert((lo % 256) == n % 256) by (bit_vector)
            requires
                lo == n % 0x1_0000_0000,
        ;
        assert(((lo / 0x100) % 256) == (n / 0x100) % 256) by (bit_vector)
            requires
                lo == n % 0x1_0000_0000,
        ;
        assert(((lo / 0x1_0000) % 256) == (n / 0x1_0000) % 256) by (bit_vector)
            requires
                lo == n % 0x1_0000_0000,
        ;
        assert(((lo / 0x100_0000) % 256) == (n / 0x100_0000) % 256) by (bit_vector)
            requires
                lo == n % 0x1_0000_0000,
        ;
        assert((hi % 256) == (n / 0x1_0000_0000) % 256) by (bit_vector)
            requires
                hi == n / 0x1_0000_0000,
        ;
        assert(((hi / 0x100) % 256) == (n / 0x100_0000_0000) % 256) by (bit_vector)
            requires
                hi == n / 0x1_0000_0000,
        ;
        assert(((hi / 0x1_0000) % 256) == (n / 0x1_0000_0000_0000) % 256) by (bit_vector)
            requires
                hi == n / 0x1_0000_0000,
        ;
        assert(((hi / 0x100_0000) % 256) == (n / 0x100_0000_0000_0000) % 256) by (bit_vector)
            requires
                hi == n / 0x1_0000_0000,
        ;
        assert((n / 0x100_0000_0000_0000) < 256) by (bit_vector);
        assert(lo as nat == nonce as nat % 0x1_0000_0000);
        assert(hi as nat == nonce as nat / 0x1_0000_0000);
    }
}

/// Bytes `i .. i + 4` of `s` read most significant first.
pub open spec fn be4_at(s: Seq<u8>, i: int) -> nat {
    s[i] as nat * 0x100_0000 + s[i + 1] as nat * 0x1_0000 + s[i + 2] as nat * 0x100 + s[i
        + 3] as nat
}

proof fn lemma_lane_halves(b0: u64, b1: u64, b2: u64, b3: u64, b4: u64, b5: u64, b6: u64, b7: u64)
    by (bit_vector)
    requires
        b0 < 256,
        b1 < 256,
        b2 < 256,
        b3 < 256,
        b4 < 256,
        b5 < 256,
        b6 < 256,
        b7 < 256,
    ensures
        ({
            let l = b0 + b1 * 0x100 + b2 * 0x1_0000 + b3 * 0x100_0000 + b4 * 0x1_0000_0000 + b5
                * 0x100_0000_0000 + b6 * 0x1_0000_0000_0000 + b7 * 0x100_0000_0000_0000;
            let lo = l % 0x1_0000_0000;
            let hi = l / 0x1_0000_0000;
            &&& (lo % 256) * 0x100_0000 + ((lo / 0x100) % 256) * 0x1_0000 + ((lo / 0x1_0000) % 256)
                * 0x100 + (lo / 0x100_0000) % 256 == b0 * 0x100_0000 + b1 * 0x1_0000 + b2 * 0x100 + b3
            &&& (hi % 256) * 0x100_0000 + ((hi / 0x100) % 256) * 0x1_0000 + ((hi / 0x1_0000) % 256)
                * 0x100 + (hi / 0x100_0000) % 256 == b4 * 0x100_0000 + b5 * 0x1_0000 + b6 * 0x100 + b7
        }),
{
}

proof fn lemma_word_bytes(c0: u32, c1: u32, c2: u32, c3: u32, w: u32)
    by (bit_vector)
    requires
        c0 < 256,
        c1 < 256,
        c2 < 256,
        c3 < 256,
        w == c0 * 0x100_0000 + c1 * 0x1_0000 + c2 * 0x100 + c3,
    ensures
        w / 0x100_0000 == c0,
        (w / 0x1_0000) % 256 == c1,
        (w / 0x100) % 256 == c2,
        w % 256 == c3,
{
}

/// The kernel's digest words are the digest's bytes: when word `2k` is
/// `bswap32` of the low half of Keccak's output lane `k` and word `2k + 1` that of
/// its high half, the words, each most significant byte first, spell the digest.
pub proof fn law_kernel_digest_words(digest: Seq<u8>, h: [u32; 8])
    requires
        digest.len() == 32,
        forall|k: int|
            0 <= k < 4 ==> h[2 * k] as nat == bswap32(#[trigger] le_lane_at(digest, k) % 0x1_0000_0000)
                && h[2 * k + 1] as nat == bswap32(le_lane_at(digest, k) / 0x1_0000_0000),
    ensures
        words_be_bytes(h) == digest,
{
    assert forall|i: int| 0 <= i < 8 implies h[i] as nat == #[trigger] be4_at(digest, 4 * i) by {
        let k = i / 2;
        let _ = le_lane_at(digest, k);
        let d = digest;
        let j = 8 * k;
        lemma_lane_halves(
            d[j] as u64, d[j + 1] as u64, d[j + 2] as u64, d[j + 3] as u64, d[j + 4] as u64,
            d[j + 5] as u64, d[j + 6] as u64, d[j + 7] as u64,
        );
    }
    lemma_words_spell(digest, h, 8);
    assert(digest.subrange(0, 32) =~= digest);
}

proof fn lemma_words_spell(digest: Seq<u8>, h: [u32; 8], n: nat)
    requires
        digest.len() == 32,
        n <= 8,
        forall|i: int| 0 <= i < 8 ==> h[i] as nat == #[trigger] be4_at(digest, 4 * i),
    ensures
        words_be_bytes_upto(h, n) == digest.subrange(0, 4 * n as int),
    decreases n,
{
    if n == 0 {
        assert(digest.subrange(0, 0) =~= Seq::<u8>::empty());
    } else {
        lemma_words_spell(digest, h, (n - 1) as nat);
        let i = n - 1;
        let w = h[i as int];
        assert(w as nat == be4_at(digest, 4 * i));
        let c0 = digest[4 * i] as u32;
        let c1 = digest[4 * i + 1] as u32;
        let c2 = digest[4 * i + 2] as u32;
        let c3 = digest[4 * i + 3] as u32;
        lemma_word_bytes(c0, c1, c2, c3, w);
        assert(u32_be_bytes(w) =~= digest.subrange(4 * i, 4 * i + 4));
        assert(digest.subrange(0, 4 * n as int) =~= digest.subrange(0, 4 * i) + digest.subrange(
            4 * i,
            4 * i + 4,
        ));
    }
}

/// A failed read, search or submission always ends the run with its error; the
/// Telegram notice, whether it was sent or not, never does, and both outcomes
/// lead to the same next step.
pub proof fn law_only_mining_failures_end_the_run(keep_mining: bool, telegram: bool)
    ensures
        round_action(keep_mining, telegram, RoundEvent::ReadFailed) == RoundAction::EndWithError,
        round_action(keep_mining, telegram, RoundEvent::SearchFailed) == RoundAction::EndWithError,
        round_action(keep_mining, telegram, RoundEvent::SubmitFailed) == RoundAction::EndWithError,
        round_action(keep_mining, telegram, RoundEvent::NoticeFailed) != RoundAction::EndWithError,
        round_action(keep_mining, telegram, RoundEvent::NoticeFailed) == round_action(
            keep_mining,
            telegram,
            RoundEvent::NoticeSent,
        ),
{
}

/// Without `keep_mining` the loop stops after the first mined solution (and its
/// notice): no event leads to another round.
pub proof fn law_one_round_without_keep_mining(telegram: bool, event: RoundEvent)
    ensures
        round_action(false, telegram, event) != RoundAction::NextRound,
{
}

/// With `keep_mining` set, a mined solution leads to the next round, through the
/// notice when Telegram is set up.
pub proof fn law_keep_mining_goes_on(telegram: bool)
    ensures
        round_action(true, telegram, RoundEvent::Submitted) == (if telegram {
            RoundAction::SendNotice
        } else {
            RoundAction::NextRound
        }),
        round_action(true, telegram, RoundEvent::NoticeSent) == RoundAction::NextRound,
        round_action(true, telegram, RoundEvent::NoticeFailed) == RoundAction::NextRound,
{
}

/// Only `Cpu` searches on the CPU without trying OpenCL; once OpenCL has failed,
/// `Auto` falls back to the CPU and `Opencl` ends the run.
pub proof fn law_backend_order(backend: Backend)
    ensures
        search_action(backend, false) == SearchAction::RunCpu <==> backend == Backend::Cpu,
        search_action(backend, false) == SearchAction::TryOpenCl ==> (search_action(backend, true)
            == SearchAction::GiveUp <==> backend == Backend::Opencl),
        search_action(backend, false) == SearchAction::TryOpenCl ==> (search_action(backend, true)
            == SearchAction::RunCpu <==> backend == Backend::Auto),
{
}

/// The block that Keccak-256 absorbs for a message of 64 bytes: the message, the
/// byte 0x01 that opens Keccak's padding, zeros, and a last byte 0x80 that
/// closes it, 136 bytes in all (the rate of Keccak-256, 17 lanes).
pub open spec fn keccak256_padded_block(message: Seq<u8>) -> Seq<u8> {
    message + seq![1u8] + Seq::new(70, |i: int| 0u8) + seq![0x80u8]
}

/// The kernel's lanes 8 to 16 are the padding of the CPU's 64-byte input: lane 8
/// is 1, lanes 9 to 15 are 0 and lane 16 is 0x8000000000000000 (`st[8] = 1`,
/// `st[16] = 0x8000000000000000`, the rest left zero); and lanes 0 to 7 of the
/// padded block are those of the input itself, which
/// `law_kernel_absorbs_the_cpu_input` matches with the kernel's.
pub proof fn law_kernel_padding_lanes(challenge: Seq<u8>, nonce: u64, k: int)
    requires
        challenge.len() == 32,
        0 <= k < 17,
    ensures
        k < 8 ==> le_lane_at(keccak256_padded_block(challenge_nonce_input(challenge, nonce)), k)
            == le_lane_at(challenge_nonce_input(challenge, nonce), k),
        k == 8 ==> le_lane_at(keccak256_padded_block(challenge_nonce_input(challenge, nonce)), k)
            == 1,
        8 < k < 16 ==> le_lane_at(
            keccak256_padded_block(challenge_nonce_input(challenge, nonce)),
            k,
        ) == 0,
        k == 16 ==> le_lane_at(keccak256_padded_block(challenge_nonce_input(challenge, nonce)), k)
            == 0x8000_0000_0000_0000,
{
    let input = challenge_nonce_input(challenge, nonce);
    let block = keccak256_padded_block(input);
    assert(input.len() == 64);
    assert(block.len() == 136);
    assert forall|i: int| 0 <= i < 64 implies block[i] == input[i] by {}
    assert(block[64] == 1u8);
    assert forall|i: int| 65 <= i < 135 implies block[i] == 0u8 by {}
    assert(block[135] == 0x80u8);
    if k < 8 {
        assert(block[8 * k] == input[8 * k]);
        assert(block[8 * k + 1] == input[8 * k + 1]);
        assert(block[8 * k + 2] == input[8 * k + 2]);
        assert(block[8 * k + 3] == input[8 * k + 3]);
        assert(block[8 * k + 4] == input[8 * k + 4]);
        assert(block[8 * k + 5] == input[8 * k + 5]);
        assert(block[8 * k + 6] == input[8 * k + 6]);
        assert(block[8 * k + 7] == input[8 * k + 7]);
    } else if k == 8 {
        assert(block[65] == 0u8 && block[66] == 0u8 && block[67] == 0u8 && block[68] == 0u8);
        assert(block[69] == 0u8 && block[70] == 0u8 && block[71] == 0u8);
    } else if k < 16 {
        assert(block[8 * k] == 0u8 && block[8 * k + 1] == 0u8 && block[8 * k + 2] == 0u8);
        assert(block[8 * k + 3] == 0u8 && block[8 * k + 4] == 0u8 && block[8 * k + 5] == 0u8);
        assert(block[8 * k + 6] == 0u8 && block[8 * k + 7] == 0u8);
    } else {
        assert(block[128] == 0u8 && block[129] == 0u8 && block[130] == 0u8 && block[131] == 0u8);
        assert(block[132] == 0u8 && block[133] == 0u8 && block[134] == 0u8);
    }
}

/// `lines` joined by line breaks.
pub open spec fn joined_lines(lines: Seq<Seq<char>>) -> Seq<char>
    decreases lines.len(),
{
    if lines.len() == 0 {
        Seq::empty()
    } else if lines.len() == 1 {
        lines[0]
    } else {
        lines[0] + seq!['\n'] + joined_lines(lines.drop_first())
    }
}

/// The Telegram notice is nine lines: a title, an empty line, then one line for
/// each of the wallet, the backend that found the solution, the nonce, the
/// digest, the number of hashes, the transaction's link and its block, each
/// after its label.
#[verifier::spinoff_prover]
#[verifier::rlimit(100)]
pub proof fn law_notice_lines(wallet: Seq<u8>, solution: Solution, tx: TxReport)
    ensures
        success_text(wallet, solution, tx) == joined_lines(
            seq![
                "HASH256 mined successfully"@,
                Seq::<char>::empty(),
                "Wallet: 0x"@ + hex_lower(wallet),
                "Backend: "@ + backend_name(solution.backend),
                "Nonce: "@ + decimal(solution.nonce as nat),
                "Hash: "@ + solution.hash@,
                "Hashes: "@ + decimal(solution.hashes as nat),
                "TX: https://etherscan.io/tx/0x"@ + hex_lower(tx.tx_hash@),
                "Block: "@ + decimal(tx.block_number as nat),
            ],
        ),
{
    let nl = seq!['\n'];
    let title = "HASH256 mined successfully"@;
    let wallet_line = "Wallet: 0x"@ + hex_lower(wallet);
    let backend_line = "Backend: "@ + backend_name(solution.backend);
    let nonce_line = "Nonce: "@ + decimal(solution.nonce as nat);
    let hash_line = "Hash: "@ + solution.hash@;
    let hashes_line = "Hashes: "@ + decimal(solution.hashes as nat);
    let tx_line = "TX: https://etherscan.io/tx/0x"@ + hex_lower(tx.tx_hash@);
    let block_line = "Block: "@ + decimal(tx.block_number as nat);
    let lines = seq![
        title,
        Seq::<char>::empty(),
        wallet_line,
        backend_line,
        nonce_line,
        hash_line,
        hashes_line,
        tx_line,
        block_line,
    ];
    let j8 = joined_lines(lines.subrange(8, 9));
    assert(j8 == block_line);
    lemma_joined_lines_step(lines, 7);
    lemma_joined_lines_step(lines, 6);
    lemma_joined_lines_step(lines, 5);
    lemma_joined_lines_step(lines, 4);
    lemma_joined_lines_step(lines, 3);
    lemma_joined_lines_step(lines, 2);
    lemma_joined_lines_step(lines, 1);
    lemma_joined_lines_step(lines, 0);
    assert(lines.subrange(0, 9) =~= lines);
    let flat = title + nl + nl + wallet_line + nl + backend_line + nl + nonce_line + nl
        + hash_line + nl + hashes_line + nl + tx_line + nl + block_line;
    assert(joined_lines(lines) =~= flat);
    lemma_notice_labels();
    assert(success_text(wallet, solution, tx) =~= flat);
}

proof fn lemma_joined_lines_step(lines: Seq<Seq<char>>, i: int)
    requires
        0 <= i < lines.len() - 1,
    ensures
        joined_lines(lines.subrange(i, lines.len() as int)) == lines[i] + seq!['\n']
            + joined_lines(lines.subrange(i + 1, lines.len() as int)),
{
    assert(lines.subrange(i, lines.len() as int).drop_first() =~= lines.subrange(
        i + 1,
        lines.len() as int,
    ));
}

proof fn lemma_notice_labels()
    ensures
        "HASH256 mined successfully\n\nWallet: 0x"@ == "HASH256 mined successfully"@ + seq!['\n']
            + seq!['\n'] + "Wallet: 0x"@,
        "\nBackend: "@ == seq!['\n'] + "Backend: "@,
        "\nNonce: "@ == seq!['\n'] + "Nonce: "@,
        "\nHash: "@ == seq!['\n'] + "Hash: "@,
        "\nHashes: "@ == seq!['\n'] + "Hashes: "@,
        "\nTX: https://etherscan.io/tx/0x"@ == seq!['\n'] + "TX: https://etherscan.io/tx/0x"@,
        "\nBlock: "@ == seq!['\n'] + "Block: "@,
{
    reveal_strlit("HASH256 mined successfully\n\nWallet: 0x");
    reveal_strlit("HASH256 mined successfully");
    reveal_strlit("Wallet: 0x");
    assert("HASH256 mined successfully\n\nWallet: 0x"@ =~= "HASH256 mined successfully"@ + seq![
        '\n',
    ] + seq!['\n'] + "Wallet: 0x"@);
    reveal_strlit("\nBackend: ");
    reveal_strlit("Backend: ");
    assert("\nBackend: "@ =~= seq!['\n'] + "Backend: "@);
    reveal_strlit("\nNonce: ");
    reveal_strlit("Nonce: ");
    assert("\nNonce: "@ =~= seq!['\n'] + "Nonce: "@);
    reveal_strlit("\nHash: ");
    reveal_strlit("Hash: ");
    assert("\nHash: "@ =~= seq!['\n'] + "Hash: "@);
    reveal_strlit("\nHashes: ");
    reveal_strlit("Hashes: ");
    assert("\nHashes: "@ =~= seq!['\n'] + "Hashes: "@);
    reveal_strlit("\nTX: https://etherscan.io/tx/0x");
    reveal_strlit("TX: https://etherscan.io/tx/0x");
    assert("\nTX: https://etherscan.io/tx/0x"@ =~= seq!['\n'] + "TX: https://etherscan.io/tx/0x"@);
    reveal_strlit("\nBlock: ");
    reveal_strlit("Block: ");
    assert("\nBlock: "@ =~= seq!['\n'] + "Block: "@);
}

/// A backend's name tells it apart: `cpu` is the CPU and only the CPU, `opencl`
/// the OpenCL GPU and only it.
pub proof fn law_backend_names(b: MiningBackend)
    ensures
        backend_name(b) == "cpu"@ <==> b == MiningBackend::Cpu,
        backend_name(b) == "opencl"@ <==> b == MiningBackend::OpenCl,
{
    reveal_strlit("cpu");
    reveal_strlit("opencl");
    assert("cpu"@.len() != "opencl"@.len());
}

/// Whenever the latest block has a base fee `b`, the fee cap is `3 b` plus the
/// priority fee, whatever `b` is; the fallback of ten gwei applies only to a block
/// without one. The cap moves with the priority fee one for one and never goes
/// down when the base fee goes up.
pub proof fn law_max_fee_from_base_fee(b: nat, b2: nat, priority: nat, p2: nat)
    ensures
        max_fee_for(Some(b), priority) == 3 * b + priority,
        max_fee_for(None, priority) == 10_000_000_000 + priority,
        b <= b2 ==> max_fee_for(Some(b), priority) <= max_fee_for(Some(b2), priority),
        max_fee_for(Some(b), priority + p2) == max_fee_for(Some(b), priority) + p2,
        max_fee_for(None, priority + p2) == max_fee_for(None, priority) + p2,
{
}

/// The gas limit is the estimate plus half of it (rounded down), except that it
/// is raised to 200000 and capped at 450000; without an estimate it is 300000.
pub proof fn law_gas_limit_from_estimate(e: nat)
    ensures
        gas_limit_for(None) == 300_000,
        200_000 <= (3 * e) / 2 <= 450_000 ==> gas_limit_for(Some(e)) == (3 * e) / 2,
        (3 * e) / 2 < 200_000 ==> gas_limit_for(Some(e)) == 200_000,
        (3 * e) / 2 > 450_000 ==> gas_limit_for(Some(e)) == 450_000,
{
    assert(e * 3 == 3 * e);
}

/// The settings resolved for a machine with `cpus` CPUs keep what was asked for:
/// the RPC URL and private key from the environment, the backend, worker count
/// (brought into 1 ..= 64), CPU batch (at least 1) and priority fee from the
/// command line. Without a worker count the machine's CPUs less one are used (at
/// least 1, at most 64). The run keeps mining unless `--once` is given or
/// `KEEP_MINING` is `false`.
pub proof fn law_resolved_settings(c: Config, cli: Cli, env: Environment, cpus: usize)
    requires
        config_matches(c, cli, env, cpus),
    ensures
        env.rpc_url matches Some(u) ==> c.rpc_url == u,
        env.private_key matches Some(k) ==> c.private_key@ == k@,
        env.private_key is None ==> c.private_key@.len() == 0,
        c.backend == cli.backend,
        cli.workers matches Some(w) ==> (w == 0 ==> c.workers == 1) && (1 <= w <= 64 ==> c.workers
            == w) && (w > 64 ==> c.workers == 64),
        cli.workers is None ==> (cpus <= 1 ==> c.workers == 1) && (2 <= cpus <= 65 ==> c.workers
            == cpus - 1) && (cpus > 65 ==> c.workers == 64),
        cli.cpu_batch > 0 ==> c.cpu_batch == cli.cpu_batch,
        cli.cpu_batch == 0 ==> c.cpu_batch == 1,
        c.priority_fee_gwei@ == cli.priority_fee_gwei@,
        c.keep_mining <==> !cli.once && !(env.keep_mining matches Some(k) && k@ == "false"@),
{
}

/// The nonce `k` places into a batch is the start plus `k` as long as that fits in
/// 64 bits, and wraps around to the low nonces past 2^64 - 1; so the nonces of a
/// batch of up to 2^64 nonces are all different.
pub proof fn law_batch_nonce(start: u64, k: u64, j: u64)
    ensures
        start + k < 0x1_0000_0000_0000_0000 ==> batch_nonce(start, k) == start + k,
        start + k >= 0x1_0000_0000_0000_0000 ==> batch_nonce(start, k) == start + k
            - 0x1_0000_0000_0000_0000,
        j != k ==> batch_nonce(start, j) != batch_nonce(start, k),
{
}

/// A platform offers a GPU exactly when its count query succeeded and reported at
/// least one device.
pub proof fn law_offers_gpu(status: i32, devices: u32)
    ensures
        offers_gpu((status, devices)) <==> status == 0 && devices >= 1,
        CL_SUCCESS == 0,
{
}

/// Progress lines are two seconds apart: the interval is 2 * 10^9 nanoseconds.
pub proof fn law_progress_interval()
    ensures
        PROGRESS_LINE_INTERVAL_NANOS == 2 * 1_000_000_000,
{
}

/// The Bot API address carries the bot token unchanged between the fixed start
/// `https://api.telegram.org/bot` and the method `/sendMessage` at the end.
pub proof fn law_send_message_url(bot_token: Seq<char>)
    ensures
        send_message_url_text(bot_token).len() == 28 + bot_token.len() as int + 12,
        send_message_url_text(bot_token).subrange(0, 28) == "https://api.telegram.org/bot"@,
        send_message_url_text(bot_token).subrange(28, 28 + bot_token.len() as int) == bot_token,
        send_message_url_text(bot_token).subrange(
            28 + bot_token.len() as int,
            40 + bot_token.len() as int,
        ) == "/sendMessage"@,
{
    reveal_strlit("https://api.telegram.org/bot");
    reveal_strlit("/sendMessage");
    let u = send_message_url_text(bot_token);
    assert(u.subrange(0, 28) =~= "https://api.telegram.org/bot"@);
    assert(u.subrange(28, 28 + bot_token.len() as int) =~= bot_token);
    assert(u.subrange(28 + bot_token.len() as int, 40 + bot_token.len() as int) =~= "/sendMessage"@);
}

/// The decimal rendering of `n` is digits only, reads back as `n`, and has no
/// leading zero (only 0 itself starts with `0`).
pub proof fn law_decimal_reads_back(n: nat)
    ensures
        decimal(n).len() >= 1,
        all_ascii_digits(decimal(n)),
        digits_value(decimal(n)) == n,
        n > 0 ==> decimal(n)[0] != '0',
    decreases n,
{
    let d = n % 10;
    assert((digit_char_of(d) as u32) == d + 48);
    if n < 10 {
        let t = decimal(n);
        assert(t.drop_last() =~= Seq::<char>::empty());
        assert(t.last() == digit_char_of(d));
        assert(digits_value(t) == digits_value(t.drop_last()) * 10 + ((t.last() as u32) - 48));
    } else {
        law_decimal_reads_back(n / 10);
        let t = decimal(n);
        let head = decimal(n / 10);
        assert(t == head + seq![digit_char_of(n % 10)]);
        assert(t.drop_last() =~= head);
        assert(n == (n / 10) * 10 + d);
        assert(t.last() == digit_char_of(d));
        assert(digits_value(t) == digits_value(t.drop_last()) * 10 + ((t.last() as u32) - 48));
        assert forall|i: int| 0 <= i < t.len() implies #[trigger] is_ascii_digit(t[i]) by {
            if i < head.len() {
                assert(t[i] == head[i]);
            }
        }
        assert(t[0] == head[0]);
    }
}

/// `crate::text::digit_char`, named here for the proofs below.
pub open spec fn digit_char_of(d: nat) -> char {
    crate::text::digit_char(d)
}

proof fn lemma_digits_value_zero_prefix(zeros: Seq<char>, s: Seq<char>)
    requires
        forall|i: int| 0 <= i < zeros.len() ==> zeros[i] == '0',
    ensures
        digits_value(zeros + s) == digits_value(s),
        all_ascii_digits(s) ==> all_ascii_digits(zeros + s),
    decreases s.len() + zeros.len(),
{
    if s.len() > 0 {
        lemma_digits_value_zero_prefix(zeros, s.drop_last());
        assert((zeros + s).drop_last() =~= zeros + s.drop_last());
        assert((zeros + s).last() == s.last());
    } else if zeros.len() > 0 {
        assert(zeros + s =~= zeros);
        lemma_digits_value_zero_prefix(zeros.drop_last(), s);
        assert(zeros.drop_last() + s =~= zeros.drop_last());
    } else {
        assert(zeros + s =~= s);
    }
    if all_ascii_digits(s) {
        assert forall|i: int| 0 <= i < (zeros + s).len() implies #[trigger] is_ascii_digit(
            (zeros + s)[i],
        ) by {
            if i < zeros.len() {
                assert((zeros + s)[i] == zeros[i]);
            } else {
                assert((zeros + s)[i] == s[i - zeros.len()]);
            }
        }
    }
}

/// An amount shown in whole units of `decimals` places: its whole part in
/// decimal, a point, then exactly `decimals` digits that read back as the
/// remainder. So the text gives back the amount.
pub proof fn law_units_text(amount: nat, decimals: nat)
    requires
        decimals >= 1,
    ensures
        ({
            let t = units_text(amount, decimals);
            let whole = decimal(amount / pow10(decimals));
            &&& t.len() == whole.len() + 1 + decimals
            &&& t.subrange(0, whole.len() as int) == whole
            &&& t[whole.len() as int] == '.'
            &&& all_ascii_digits(t.subrange(whole.len() as int + 1, t.len() as int))
            &&& digits_value(t.subrange(whole.len() as int + 1, t.len() as int)) == amount % pow10(
                decimals,
            )
            &&& (amount / pow10(decimals)) * pow10(decimals) + amount % pow10(decimals) == amount
        }),
{
    reveal_strlit(".");
    let p = pow10(decimals);
    assert(p > 0) by {
        lemma_pow10_positive(decimals);
    }
    let whole = decimal(amount / p);
    let frac = decimal(amount % p);
    lemma_decimal_len_bound(amount % p, decimals);
    law_decimal_reads_back(amount % p);
    let zeros = Seq::new((decimals - frac.len()) as nat, |i: int| '0');
    let padded = crate::eth::zero_padded(frac, decimals);
    if frac.len() >= decimals {
        assert(padded == frac);
        assert(zeros =~= Seq::<char>::empty());
    }
    assert(padded =~= zeros + frac);
    lemma_digits_value_zero_prefix(zeros, frac);
    let t = units_text(amount, decimals);
    assert(t == whole + "."@ + padded);
    assert(t.subrange(0, whole.len() as int) =~= whole);
    assert(t.subrange(whole.len() as int + 1, t.len() as int) =~= padded);
    vstd::arithmetic::div_mod::lemma_fundamental_div_mod(amount as int, p as int);
}

proof fn lemma_pow10_positive(k: nat)
    ensures
        pow10(k) > 0,
    decreases k,
{
    if k > 0 {
        lemma_pow10_positive((k - 1) as nat);
    }
}

/// A signed number is shown with a `-` exactly when it is negative, followed by
/// the decimal digits of its magnitude.
pub proof fn law_signed_decimal(i: int)
    ensures
        i < 0 ==> signed_decimal(i)[0] == '-' && signed_decimal(i).drop_first() == decimal(
            (-i) as nat,
        ),
        i >= 0 ==> signed_decimal(i) == decimal(i as nat) && signed_decimal(i)[0] != '-',
{
    if i < 0 {
        assert(signed_decimal(i).drop_first() =~= decimal((-i) as nat));
    } else {
        law_decimal_reads_back(i as nat);
        assert(is_ascii_digit(decimal(i as nat)[0]));
    }
}

/// A shortened count keeps its first ten digits, then `...`, then its last six.
pub proof fn law_short_decimal_parts(v: nat)
    ensures
        decimal(v).len() > 18 ==> {
            let s = short_decimal_text(v);
            let t = decimal(v);
            &&& s.len() == 19
            &&& s.subrange(0, 10) == t.subrange(0, 10)
            &&& s.subrange(10, 13) == "..."@
            &&& s.subrange(13, 19) == t.subrange(t.len() - 6, t.len() as int)
        },
{
    reveal_strlit("...");
    if decimal(v).len() > 18 {
        let s = short_decimal_text(v);
        let t = decimal(v);
        assert(s.subrange(0, 10) =~= t.subrange(0, 10));
        assert(s.subrange(10, 13) =~= "..."@);
        assert(s.subrange(13, 19) =~= t.subrange(t.len() - 6, t.len() as int));
    }
}

/// The characters of `PRIVATE_KEY`, none when it is not set.
pub open spec fn key_chars(env: Environment) -> Seq<char> {
    match env.private_key {
        Some(k) => k@,
        None => Seq::empty(),
    }
}

/// `s` begins with the characters `0` and `x`.
pub open spec fn opens_with_0x(s: Seq<char>) -> bool {
    s.len() >= 2 && s[0] == '0' && s[1] == 'x'
}

/// Why settings are refused: no `RPC_URL` first of all; then, when mining (no
/// subcommand), an empty or missing `PRIVATE_KEY`, then one that does not start
/// with `0x`. Nothing else is refused.
pub proof fn law_config_errors(cli: Cli, env: Environment)
    ensures
        env.rpc_url is None ==> config_outcome(cli, env) == Err::<(), ConfigError>(
            ConfigError::MissingRpcUrl,
        ),
        env.rpc_url is Some && cli.command is None && key_chars(env).len() == 0 ==> config_outcome(
            cli,
            env,
        ) == Err::<(), ConfigError>(ConfigError::MissingPrivateKey),
        env.rpc_url is Some && cli.command is None && key_chars(env).len() > 0 && !opens_with_0x(
            key_chars(env),
        ) ==> config_outcome(cli, env) == Err::<(), ConfigError>(
            ConfigError::PrivateKeyWithoutPrefix,
        ),
        env.rpc_url is Some && (cli.command is Some || opens_with_0x(key_chars(env)))
            ==> config_outcome(cli, env) is Ok,
{
    reveal_strlit("0x");
    let k = key_chars(env);
    if opens_with_0x(k) {
        assert(k.subrange(0, 2) =~= "0x"@);
    }
    if "0x"@.is_prefix_of(k) {
        assert(k[0] == "0x"@[0]);
        assert(k[1] == "0x"@[1]);
    }
}

/// Telegram notices are sent exactly when both the bot token and the chat id are
/// given and each has a character that is not white space; they go to those.
pub proof fn law_telegram_settings(c: Config, cli: Cli, env: Environment, cpus: usize)
    requires
        config_matches(c, cli, env, cpus),
    ensures
        c.telegram is Some <==> (env.telegram_bot_token matches Some(t) && env.telegram_chat_id
            matches Some(i) && (exists|a: int| 0 <= a < t@.len() && !is_unicode_whitespace(t@[a]))
            && (exists|b: int| 0 <= b < i@.len() && !is_unicode_whitespace(i@[b]))),
        c.telegram matches Some(tc) ==> tc.bot_token == env.telegram_bot_token->0 && tc.chat_id
            == env.telegram_chat_id->0,
{
}

} // verus!
