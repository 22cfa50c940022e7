//! The host side of the OpenCL search: the words handed to the kernel, the
//! reading of what it found, and the bookkeeping between two kernel runs.

use vstd::prelude::*;
use std::time::Duration;
use std::time::Instant;
use std::time::SystemTime;
use std::time::UNIX_EPOCH;
use crate::miner::{MiningBackend, Solution};
use crate::text::{decimal, hex_lower, lemma_hex_lower_append, push_decimal, push_hex_u32, u32_be_bytes};
use crate::uint256::Uint256;

verus! {

/// The little-endian 32-bit word made of bytes `4i .. 4i + 4` of `s`.
pub open spec fn le_word_at(s: Seq<u8>, i: int) -> nat {
    s[4 * i] as nat + s[4 * i + 1] as nat * 0x100 + s[4 * i + 2] as nat * 0x1_0000
        + s[4 * i + 3] as nat * 0x100_0000
}

/// The number that eight 32-bit words denote, most significant word first.
pub open spec fn words_be_value(w: [u32; 8]) -> nat {
    w[0] as nat * 0x1_0000_0000_0000_0000_0000_0000_0000_0000_0000_0000_0000_0000_0000_0000nat
        + w[1] as nat * 0x1_0000_0000_0000_0000_0000_0000_0000_0000_0000_0000_0000_0000nat
        + w[2] as nat * 0x1_0000_0000_0000_0000_0000_0000_0000_0000_0000_0000nat
        + w[3] as nat * 0x1_0000_0000_0000_0000_0000_0000_0000_0000nat
        + w[4] as nat * 0x1_0000_0000_0000_0000_0000_0000nat
        + w[5] as nat * 0x1_0000_0000_0000_0000nat
        + w[6] as nat * 0x1_0000_0000nat
        + w[7] as nat
}

/// The bytes of the first `n` words, each word most significant byte first.
pub open spec fn words_be_bytes_upto(w: [u32; 8], n: nat) -> Seq<u8>
    decreases n,
{
    if n == 0 || n > 8 {
        Seq::empty()
    } else {
        words_be_bytes_upto(w, (n - 1) as nat) + u32_be_bytes(w[n - 1])
    }
}

/// The 32 bytes of eight words, each word most significant byte first.
pub open spec fn words_be_bytes(w: [u32; 8]) -> Seq<u8> {
    words_be_bytes_upto(w, 8)
}

/// The challenge as the kernel takes it: eight little-endian 32-bit words.
pub fn challenge_words(bytes: [u8; 32]) -> (words: [u32; 8])
    ensures
        forall|i: int| 0 <= i < 8 ==> words[i] as nat == le_word_at(bytes@, i),
{
    let mut words = [0u32; 8];
    let mut i: usize = 0;
    while i < 8
        invariant
            i <= 8,
            forall|j: int| 0 <= j < i ==> words[j] as nat == le_word_at(bytes@, j),
        decreases 8 - i,
    {
        let w = bytes[4 * i] as u32 + bytes[4 * i + 1] as u32 * 0x100 + bytes[4 * i + 2] as u32
            * 0x1_0000 + bytes[4 * i + 3] as u32 * 0x100_0000;
        words[i] = w;
        i = i + 1;
    }
    words
}

/// The difficulty target as the kernel takes it: eight 32-bit words, most
/// significant first.
pub fn difficulty_words(value: Uint256) -> (words: [u32; 8])
    ensures
        words_be_value(words) == value.value(),
{
    let l = value.limbs;
    let words: [u32; 8] = [
        (l[3] / 0x1_0000_0000) as u32,
        (l[3] % 0x1_0000_0000) as u32,
        (l[2] / 0x1_0000_0000) as u32,
        (l[2] % 0x1_0000_0000) as u32,
        (l[1] / 0x1_0000_0000) as u32,
        (l[1] % 0x1_0000_0000) as u32,
        (l[0] / 0x1_0000_0000) as u32,
        (l[0] % 0x1_0000_0000) as u32,
    ];
    proof {
        assert forall|k: int| 0 <= k < 4 implies words[6 - 2 * k] as nat * 0x1_0000_0000 + words[7 - 2
            * k] as nat == #[trigger] l[k] as nat by {
            vstd::arithmetic::div_mod::lemma_fundamental_div_mod(l[k] as int, 0x1_0000_0000);
        }
        assert(words[0] as nat * 0x1_0000_0000 + words[1] as nat == l[3]);
        assert(words[2] as nat * 0x1_0000_0000 + words[3] as nat == l[2]);
        assert(words[4] as nat * 0x1_0000_0000 + words[5] as nat == l[1]);
        assert(words[6] as nat * 0x1_0000_0000 + words[7] as nat == l[0]);
        lemma_words_limbs(words, l);
    }
    words
}

proof fn lemma_words_limbs(w: [u32; 8], l: [u64; 4])
    requires
        w[0] as nat * 0x1_0000_0000 + w[1] as nat == l[3],
        w[2] as nat * 0x1_0000_0000 + w[3] as nat == l[2],
        w[4] as nat * 0x1_0000_0000 + w[5] as nat == l[1],
        w[6] as nat * 0x1_0000_0000 + w[7] as nat == l[0],
    ensures
        words_be_value(w) == crate::uint256::limbs_value(l),
{
    let a = w[0] as int;
    let b = w[1] as int;
    let c = w[2] as int;
    let d = w[3] as int;
    let e = w[4] as int;
    let f = w[5] as int;
    let g = w[6] as int;
    let h = w[7] as int;
    let l3 = l[3] as int;
    let l2 = l[2] as int;
    let l1 = l[1] as int;
    assert(l3 * 0x1_0000_0000_0000_0000_0000_0000_0000_0000_0000_0000_0000_0000int
        == a * 0x1_0000_0000_0000_0000_0000_0000_0000_0000_0000_0000_0000_0000_0000_0000int
        + b * 0x1_0000_0000_0000_0000_0000_0000_0000_0000_0000_0000_0000_0000int) by (nonlinear_arith)
        requires
            l3 == a * 0x1_0000_0000int + b,
    ;
    assert(l2 * 0x1_0000_0000_0000_0000_0000_0000_0000_0000int
        == c * 0x1_0000_0000_0000_0000_0000_0000_0000_0000_0000_0000int
        + d * 0x1_0000_0000_0000_0000_0000_0000_0000_0000int) by (nonlinear_arith)
        requires
            l2 == c * 0x1_0000_0000int + d,
    ;
    assert(l1 * 0x1_0000_0000_0000_0000int == e * 0x1_0000_0000_0000_0000_0000_0000int + f
        * 0x1_0000_0000_0000_0000int) by (nonlinear_arith)
        requires
            l1 == e * 0x1_0000_0000int + f,
    ;
}

/// The digest as the kernel reports it, rendered as `0x` and 64 lowercase
/// hexadecimal digits (each word as `{:08x}`).
pub fn hash_words_to_hex(words: [u32; 8]) -> (r: String)
    ensures
        r@ == "0x"@ + hex_lower(words_be_bytes(words)),
{
    let mut out = String::from_str("0x");
    let mut i: usize = 0;
    proof {
        assert(words_be_bytes_upto(words, 0) =~= Seq::<u8>::empty());
        assert(hex_lower(Seq::<u8>::empty()) =~= Seq::<char>::empty());
        assert(out@ =~= "0x"@ + hex_lower(words_be_bytes_upto(words, 0)));
    }
    while i < 8
        invariant
            i <= 8,
            out@ == "0x"@ + hex_lower(words_be_bytes_upto(words, i as nat)),
        decreases 8 - i,
    {
        let ghost before = out@;
        push_hex_u32(&mut out, words[i]);
        proof {
            lemma_hex_lower_append(words_be_bytes_upto(words, i as nat), u32_be_bytes(words[i as int]));
            assert(words_be_bytes_upto(words, (i + 1) as nat) == words_be_bytes_upto(words, i as nat)
                + u32_be_bytes(words[i as int]));
            assert(out@ =~= "0x"@ + hex_lower(words_be_bytes_upto(words, (i + 1) as nat)));
        }
        i = i + 1;
    }
    out
}

/// The nonce the kernel found, from its low and high 32-bit halves.
pub fn gpu_nonce(nonce_lo: u32, nonce_hi: u32) -> (r: u64)
    ensures
        r as nat == nonce_hi as nat * 0x1_0000_0000 + nonce_lo as nat,
{
    let hi = nonce_hi as u64;
    let lo = nonce_lo as u64;
    assert(((hi << 32u64) | lo) == hi * 0x1_0000_0000 + lo) by (bit_vector)
        requires
            hi < 0x1_0000_0000,
            lo < 0x1_0000_0000,
    ;
    (hi << 32u64) | lo
}

/// The status code of a successful OpenCL call.
pub const CL_SUCCESS: i32 = 0;

/// The decimal rendering of a signed number.
pub open spec fn signed_decimal(i: int) -> Seq<char> {
    if i < 0 {
        seq!['-'] + decimal((-i) as nat)
    } else {
        decimal(i as nat)
    }
}

/// The message for a failed OpenCL call.
pub open spec fn cl_error_text(label: Seq<char>, err: i32) -> Seq<char> {
    label + ": OpenCL error "@ + signed_decimal(err as int)
}

/// `Ok` when an OpenCL call returned `CL_SUCCESS`, otherwise the message naming
/// the call and its status code.
pub fn check(err: i32, label: &str) -> (r: Result<(), String>)
    ensures
        r is Ok <==> err == CL_SUCCESS,
        r matches Err(m) ==> m@ == cl_error_text(label@, err),
{
    if err == CL_SUCCESS {
        return Ok(());
    }
    let mut message = String::from_str(label);
    message.append(": OpenCL error ");
    if err < 0 {
        proof {
            reveal_strlit("-");
        }
        message.append("-");
        let magnitude = (0i64 - err as i64) as u64;
        push_decimal(&mut message, magnitude);
        assert(message@ =~= cl_error_text(label@, err));
    } else {
        push_decimal(&mut message, err as u64);
    }
    Err(message)
}

/// Whether a platform's answer to the count query for GPU devices (its status and
/// the number of devices) offers a GPU.
pub open spec fn offers_gpu(answer: (i32, u32)) -> bool {
    answer.0 == CL_SUCCESS && answer.1 > 0
}

/// The platform whose first GPU the OpenCL search takes: the first, in the order
/// of `answers`, whose count query succeeded and found at least one GPU. `None`
/// when no platform offers one.
pub fn first_gpu_platform(answers: &Vec<(i32, u32)>) -> (r: Option<usize>)
    ensures
        r matches Some(i) ==> {
            &&& i < answers.len()
            &&& offers_gpu(answers[i as int])
            &&& forall|j: int| 0 <= j < i ==> !#[trigger] offers_gpu(answers[j])
        },
        r is None ==> forall|j: int| 0 <= j < answers.len() ==> !#[trigger] offers_gpu(answers[j]),
{
    let mut i: usize = 0;
    while i < answers.len()
        invariant
            i <= answers.len(),
            forall|j: int| 0 <= j < i ==> !#[trigger] offers_gpu(answers[j]),
        decreases answers.len() - i,
    {
        let (status, devices) = answers[i];
        if status == CL_SUCCESS && devices > 0 {
            return Some(i);
        }
        i = i + 1;
    }
    None
}

/// Why no OpenCL device could be chosen.
#[derive(Clone, Copy, Debug, PartialEq, Eq)]
pub enum GpuChoiceError {
    /// The OpenCL runtime reports no platform.
    NoPlatform,
    /// No platform offers a GPU.
    NoGpu,
}

/// The message shown for each reason.
pub open spec fn gpu_choice_error_message(e: GpuChoiceError) -> Seq<char> {
    match e {
        GpuChoiceError::NoPlatform => "OpenCL platform tidak ditemukan"@,
        GpuChoiceError::NoGpu => "OpenCL GPU tidak ditemukan. Cek ROCm/OpenCL dengan clinfo."@,
    }
}

impl GpuChoiceError {
    /// The message shown for the error.
    pub fn message(&self) -> (r: &'static str)
        ensures
            r@ == gpu_choice_error_message(*self),
    {
        match self {
            GpuChoiceError::NoPlatform => "OpenCL platform tidak ditemukan",
            GpuChoiceError::NoGpu => "OpenCL GPU tidak ditemukan. Cek ROCm/OpenCL dengan clinfo.",
        }
    }
}

/// The choice of the device's platform, once the runtime has reported
/// `platform_count` platforms and the count queries have answered `answers`: no
/// platform at all is an error of its own, and so is a list in which no platform
/// offers a GPU.
pub fn choose_gpu_platform(platform_count: u32, answers: &Vec<(i32, u32)>) -> (r: Result<
    usize,
    GpuChoiceError,
>)
    ensures
        platform_count == 0 ==> r == Err::<usize, GpuChoiceError>(GpuChoiceError::NoPlatform),
        platform_count > 0 ==> match r {
            Ok(i) => i < answers.len() && offers_gpu(answers[i as int]) && forall|j: int|
                0 <= j < i ==> !#[trigger] offers_gpu(answers[j]),
            Err(e) => e == GpuChoiceError::NoGpu && forall|j: int|
                0 <= j < answers.len() ==> !#[trigger] offers_gpu(answers[j]),
        },
{
    if platform_count == 0 {
        return Err(GpuChoiceError::NoPlatform);
    }
    match first_gpu_platform(answers) {
        Some(i) => Ok(i),
        None => Err(GpuChoiceError::NoGpu),
    }
}

/// The wall clock's reading, as std gives it.
#[verifier::external_type_specification]
#[verifier::external_body]
pub struct ExSystemTime(std::time::SystemTime);

/// A reading of the monotonic clock, as std gives it.
#[verifier::external_type_specification]
#[verifier::external_body]
pub struct ExInstant(std::time::Instant);

/// Trusted: `SystemTime::now()`. The reading depends on the clock, so nothing is
/// claimed of it.
#[verifier::external_body]
fn system_time_now() -> SystemTime {
    SystemTime::now()
}

/// Trusted: `t.duration_since(UNIX_EPOCH)`, with `None` where `t` lies before the
/// epoch. The result depends on the clock's reading, which is opaque here, so
/// nothing is claimed of it.
#[verifier::external_body]
fn duration_since_epoch(t: SystemTime) -> Option<Duration> {
    match t.duration_since(UNIX_EPOCH) {
        Ok(d) => Some(d),
        Err(_) => None,
    }
}

/// Trusted: `d.as_secs()`. A `Duration` is opaque here, so nothing is claimed of
/// the number.
#[verifier::external_body]
fn duration_whole_secs(d: Duration) -> u64 {
    d.as_secs()
}

/// Trusted: `d.as_nanos()`. A `Duration` is opaque here, so nothing is claimed of
/// the number.
#[verifier::external_body]
fn duration_nanos(d: Duration) -> u128 {
    d.as_nanos()
}

/// Trusted: `Instant::now()`. The reading depends on the clock, so nothing is
/// claimed of it.
#[verifier::external_body]
fn instant_now() -> Instant {
    Instant::now()
}

/// Trusted: `t.elapsed()`, which depends on the clock, so nothing is claimed of it.
#[verifier::external_body]
fn instant_elapsed(t: &Instant) -> Duration {
    t.elapsed()
}

/// The first nonce of the GPU search, from the clock: the seconds since the epoch
/// (0 when the clock reads before the epoch) shifted into the high half, mixed
/// with the low 64 bits of a nanosecond reading.
pub fn base_nonce_from_clock(unix_secs: Option<u64>, elapsed_nanos: u128) -> (r: u64)
    ensures
        r == (((match unix_secs {
            Some(s) => s,
            None => 0u64,
        }) << 32u64) ^ (elapsed_nanos as u64)),
{
    let secs = match unix_secs {
        Some(s) => s,
        None => 0,
    };
    (secs << 32u64) ^ (elapsed_nanos as u64)
}

/// The first nonce of the GPU search, taken from the clock: the wall clock's
/// seconds since the epoch and the nanoseconds that a fresh monotonic reading
/// has run, combined by `base_nonce_from_clock`.
pub fn initial_base_nonce() -> u64 {
    let unix_secs = match duration_since_epoch(system_time_now()) {
        Some(d) => Some(duration_whole_secs(d)),
        None => None,
    };
    let started = instant_now();
    let nanos = duration_nanos(instant_elapsed(&started));
    base_nonce_from_clock(unix_secs, nanos)
}

/// What one run of the kernel leaves in its result buffer.
#[derive(Clone, Copy, Debug, PartialEq, Eq, Default)]
pub struct RawResult {
    pub found: u32,
    pub nonce_lo: u32,
    pub nonce_hi: u32,
    pub hash: [u32; 8],
}

/// What the host does after a run of the kernel.
#[derive(Debug)]
pub enum GpuStep {
    /// A nonce solved the puzzle: report it and stop.
    Found(Solution),
    /// Report progress: this many hashes since the last report, then go on.
    Progress(u64),
    /// Go on with the next batch.
    Continue,
}

/// Half a second, in nanoseconds: the least time between two progress reports.
pub const REPORT_INTERVAL_NANOS: u128 = 500_000_000;

/// `x + y` wrapping around at 2^64.
pub open spec fn wrap_add(x: u64, y: u64) -> u64 {
    ((x + y) % 0x1_0000_0000_0000_0000int) as u64
}

/// The bookkeeping of the GPU search between two runs of the kernel.
#[derive(Clone, Copy, Debug)]
pub struct GpuSearch {
    batch: u64,
    base: u64,
    total: u64,
    window_hashes: u64,
}

impl GpuSearch {
    /// Nonces hashed per run of the kernel.
    pub closed spec fn spec_batch(&self) -> u64 {
        self.batch
    }

    /// The first nonce of the next run.
    pub closed spec fn spec_base(&self) -> u64 {
        self.base
    }

    /// Hashes computed so far, wrapping at 2^64.
    pub closed spec fn spec_total(&self) -> u64 {
        self.total
    }

    /// Hashes computed since the last progress report, wrapping at 2^64.
    pub closed spec fn spec_window(&self) -> u64 {
        self.window_hashes
    }

    pub fn new(batch_size: usize, base: u64) -> (r: GpuSearch)
        ensures
            r.spec_batch() == batch_size,
            r.spec_base() == base,
            r.spec_total() == 0,
            r.spec_window() == 0,
    {
        GpuSearch { batch: batch_size as u64, base, total: 0, window_hashes: 0 }
    }

    pub fn base(&self) -> (r: u64)
        ensures
            r == self.spec_base(),
    {
        self.base
    }

    pub fn total(&self) -> (r: u64)
        ensures
            r == self.spec_total(),
    {
        self.total
    }

    /// Accounts for one run of the kernel over `batch` nonces from `base`, given
    /// what it left in its result buffer and the time since the last report.
    pub fn batch_finished(&mut self, result: &RawResult, elapsed_nanos: u128) -> (step: GpuStep)
        ensures
            final(self).spec_batch() == old(self).spec_batch(),
            final(self).spec_total() == wrap_add(old(self).spec_total(), old(self).spec_batch()),
            match step {
                GpuStep::Found(s) => {
                    &&& result.found != 0
                    &&& s.backend == MiningBackend::OpenCl
                    &&& s.nonce as nat == result.nonce_hi as nat * 0x1_0000_0000 + result.nonce_lo as nat
                    &&& s.hash@ == "0x"@ + hex_lower(words_be_bytes(result.hash))
                    &&& s.hashes == final(self).spec_total()
                    &&& final(self).spec_window() == wrap_add(old(self).spec_window(), old(self).spec_batch())
                    &&& final(self).spec_base() == old(self).spec_base()
                },
                GpuStep::Progress(hashes) => {
                    &&& result.found == 0
                    &&& elapsed_nanos > REPORT_INTERVAL_NANOS
                    &&& hashes == wrap_add(old(self).spec_window(), old(self).spec_batch())
                    &&& final(self).spec_window() == 0
                    &&& final(self).spec_base() == wrap_add(old(self).spec_base(), old(self).spec_batch())
                },
                GpuStep::Continue => {
                    &&& result.found == 0
                    &&& elapsed_nanos <= REPORT_INTERVAL_NANOS
                    &&& final(self).spec_window() == wrap_add(old(self).spec_window(), old(self).spec_batch())
                    &&& final(self).spec_base() == wrap_add(old(self).spec_base(), old(self).spec_batch())
                },
            },
    {
        self.total = self.total.wrapping_add(self.batch);
        self.window_hashes = self.window_hashes.wrapping_add(self.batch);
        if result.found != 0 {
            let nonce = gpu_nonce(result.nonce_lo, result.nonce_hi);
            return GpuStep::Found(
                Solution {
                    backend: MiningBackend::OpenCl,
                    nonce,
                    hash: hash_words_to_hex(result.hash),
                    hashes: self.total,
                },
            );
        }
        let step = if elapsed_nanos > REPORT_INTERVAL_NANOS {
            let hashes = self.window_hashes;
            self.window_hashes = 0;
            GpuStep::Progress(hashes)
        } else {
            GpuStep::Continue
        };
        self.base = self.base.wrapping_add(self.batch);
        step
    }
}

} // verus!
