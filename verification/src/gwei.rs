//! Amounts of gwei written as decimal text, as the priority-fee setting gives
//! them, read into wei by `ethers`' `parse_units`.

use vstd::prelude::*;
use ethers::types::U256;
use ethers::utils::parse_units;
use crate::text::pow10;
use crate::uint256::{uint256_modulus, Uint256};

verus! {

/// The number of bytes that `c` takes in UTF-8.
pub open spec fn utf8_width(c: char) -> nat {
    if (c as u32) < 0x80 {
        1
    } else if (c as u32) < 0x800 {
        2
    } else if (c as u32) < 0x1_0000 {
        3
    } else {
        4
    }
}

/// The number of bytes that `s` takes in UTF-8.
pub open spec fn utf8_len(s: Seq<char>) -> nat
    decreases s.len(),
{
    if s.len() == 0 {
        0
    } else {
        utf8_len(s.drop_last()) + utf8_width(s.last())
    }
}

/// `s` with every `_` taken out.
pub open spec fn without_underscores(s: Seq<char>) -> Seq<char>
    decreases s.len(),
{
    if s.len() == 0 {
        s
    } else if s.last() == '_' {
        without_underscores(s.drop_last())
    } else {
        without_underscores(s.drop_last()).push(s.last())
    }
}

/// `i` is the position of the first `.` of `s`.
pub open spec fn is_first_dot(s: Seq<char>, i: int) -> bool {
    &&& 0 <= i < s.len()
    &&& s[i] == '.'
    &&& forall|j: int| 0 <= j < i ==> s[j] != '.'
}

pub open spec fn is_ascii_digit(c: char) -> bool {
    48 <= (c as u32) <= 57
}

pub open spec fn all_ascii_digits(s: Seq<char>) -> bool {
    forall|i: int| 0 <= i < s.len() ==> #[trigger] is_ascii_digit(s[i])
}

/// The number that the decimal digits `s` stand for, the most significant first.
pub open spec fn digits_value(s: Seq<char>) -> int
    decreases s.len(),
{
    if s.len() == 0 {
        0
    } else {
        digits_value(s.drop_last()) * 10 + ((s.last() as u32) - 48)
    }
}

/// 2^255: the largest magnitude of a negative 256-bit two's-complement number.
pub open spec fn signed_magnitude_limit() -> nat {
    0x8000_0000_0000_0000_0000_0000_0000_0000_0000_0000_0000_0000_0000_0000_0000_0000nat
}

/// Whether `parse_units` overflows when it scales an unsigned amount `digits`
/// (the text without its `.`, not starting with `-`) by 10^`scale`: the amount
/// is read when it is decimal digits of a value below 2^256, and the product
/// overflows when it reaches 2^256. `U256` multiplication then panics.
pub open spec fn unsigned_scaling_overflows(digits: Seq<char>, scale: nat) -> bool {
    &&& !(digits.len() > 0 && digits[0] == '-')
    &&& all_ascii_digits(digits)
    &&& digits_value(digits) < uint256_modulus()
    &&& digits_value(digits) * pow10(scale) >= uint256_modulus()
}

/// Whether `parse_units` overflows when it scales a signed amount `digits` (the
/// text without its `.`, starting with `-`) by 10^`scale`: the amount is read
/// when the rest is decimal digits of a magnitude of at most 2^255, and the
/// product overflows when its magnitude passes 2^255. `I256` multiplication then
/// panics in builds with debug assertions and wraps in the others.
pub open spec fn signed_scaling_overflows(digits: Seq<char>, scale: nat) -> bool {
    let magnitude = digits.drop_first();
    &&& digits.len() > 0 && digits[0] == '-'
    &&& all_ascii_digits(magnitude)
    &&& digits_value(magnitude) <= signed_magnitude_limit()
    &&& digits_value(magnitude) * pow10(scale) > signed_magnitude_limit()
}

/// `s` split at its first `.`: what stands before it and what follows it; `None`
/// when `s` has no `.`.
pub open spec fn split_at_first_dot(s: Seq<char>) -> Option<(Seq<char>, Seq<char>)> {
    if exists|i: int| is_first_dot(s, i) {
        let dot = choose|i: int| is_first_dot(s, i);
        Some((s.subrange(0, dot), s.subrange(dot + 1, s.len() as int)))
    } else {
        None
    }
}

/// The inputs on which `parse_units(text, "gwei")` panics in every build. It
/// takes out every `_`, then the first `.`, and counts the bytes after the `.`.
/// With more than nine of them it cuts the text nine bytes after the `.`, and the
/// cut panics when it falls inside a character. With at most nine it reads the
/// digits and scales them by 10 to the power of the bytes missing to nine, and
/// an unsigned product that overflows panics.
pub open spec fn gwei_parse_panics(text: Seq<char>) -> bool {
    let s = without_underscores(text);
    match split_at_first_dot(s) {
        Some((whole, fraction)) => if utf8_len(fraction) > 9 {
            !exists|k: int| 0 <= k <= fraction.len() && #[trigger] utf8_len(fraction.take(k)) == 9
        } else {
            unsigned_scaling_overflows(whole + fraction, (9 - utf8_len(fraction)) as nat)
        },
        None => unsigned_scaling_overflows(s, 9),
    }
}

/// The inputs on which `parse_units(text, "gwei")` scales a signed amount past
/// 256 bits: it panics there in builds with debug assertions and gives a wrapped
/// number in the others, so what it returns depends on the build.
pub open spec fn gwei_signed_scaling_overflows(text: Seq<char>) -> bool {
    let s = without_underscores(text);
    match split_at_first_dot(s) {
        Some((whole, fraction)) => utf8_len(fraction) <= 9 && signed_scaling_overflows(
            whole + fraction,
            (9 - utf8_len(fraction)) as nat,
        ),
        None => signed_scaling_overflows(s, 9),
    }
}

/// What `parse_units(text, "gwei")` returns, as the 256-bit number that its `U256`
/// conversion gives (a negative amount in two's complement); `None` where it
/// returns an error.
pub uninterp spec fn gwei_amount(text: Seq<char>) -> Option<nat>;

/// Trusted: `ethers::utils::parse_units(text, "gwei")`, converted to `U256` as the
/// miner does, returns the number that `gwei_amount` names, or an error where that
/// is `None`. Which texts it accepts and what it makes of them is not written out
/// here. `requires` leaves out the texts on which it panics, and those on which
/// what it returns depends on the build.
#[verifier::external_body]
pub(crate) fn parse_gwei(text: &str) -> (r: Option<Uint256>)
    requires
        !gwei_parse_panics(text@),
        !gwei_signed_scaling_overflows(text@),
    ensures
        match gwei_amount(text@) {
            Some(v) => r matches Some(u) && u.value() == v,
            None => r is None,
        },
{
    match parse_units(text, "gwei") {
        Ok(amount) => {
            let wei: U256 = amount.into();
            Some(Uint256 { limbs: wei.0 })
        },
        Err(_) => None,
    }
}

pub fn utf8_width_of(c: char) -> (r: u64)
    ensures
        r == utf8_width(c),
{
    let u = c as u32;
    if u < 0x80 {
        1
    } else if u < 0x800 {
        2
    } else if u < 0x1_0000 {
        3
    } else {
        4
    }
}

proof fn lemma_utf8_len_prefix(s: Seq<char>, a: int, b: int)
    requires
        0 <= a <= b <= s.len(),
    ensures
        utf8_len(s.take(a)) <= utf8_len(s.take(b)),
    decreases b - a,
{
    if a < b {
        lemma_utf8_len_prefix(s, a, b - 1);
        assert(s.take(b).drop_last() =~= s.take(b - 1));
    }
}

proof fn lemma_digits_value_prefix(s: Seq<char>, k: int)
    requires
        0 <= k <= s.len(),
        all_ascii_digits(s),
    ensures
        0 <= digits_value(s.take(k)) <= digits_value(s),
    decreases s.len(),
{
    if k == s.len() {
        assert(s.take(k) =~= s);
        if s.len() > 0 {
            assert(all_ascii_digits(s.drop_last()));
            lemma_digits_value_prefix(s.drop_last(), k - 1);
            assert(s.drop_last().take(k - 1) =~= s.drop_last());
            assert(is_ascii_digit(s[s.len() - 1]));
        }
    } else {
        assert(all_ascii_digits(s.drop_last()));
        lemma_digits_value_prefix(s.drop_last(), k);
        assert(s.drop_last().take(k) =~= s.take(k));
        lemma_digits_value_prefix(s.drop_last(), s.len() - 1);
        assert(s.drop_last().take(s.len() - 1) =~= s.drop_last());
        assert(is_ascii_digit(s[s.len() - 1]));
    }
}

/// The characters of `text` with every `_` taken out.
fn chars_without_underscores(text: &str) -> (r: Vec<char>)
    ensures
        r@ == without_underscores(text@),
{
    let n = text.unicode_len();
    let mut out: Vec<char> = Vec::new();
    let mut i: usize = 0;
    while i < n
        invariant
            n == text@.len(),
            i <= n,
            out@ == without_underscores(text@.take(i as int)),
        decreases n - i,
    {
        let c = text.get_char(i);
        assert(text@.take(i + 1).drop_last() =~= text@.take(i as int));
        if c != '_' {
            out.push(c);
        }
        i = i + 1;
    }
    assert(text@.take(n as int) =~= text@);
    out
}

/// `v` without the character at `skip`.
fn chars_except(v: &Vec<char>, skip: usize) -> (r: Vec<char>)
    requires
        skip < v.len(),
    ensures
        r@ == v@.subrange(0, skip as int) + v@.subrange(skip + 1, v.len() as int),
{
    let mut out: Vec<char> = Vec::new();
    let mut i: usize = 0;
    while i < skip
        invariant
            i <= skip < v.len(),
            out@ == v@.subrange(0, i as int),
        decreases skip - i,
    {
        out.push(v[i]);
        i = i + 1;
    }
    let mut j: usize = skip + 1;
    while j < v.len()
        invariant
            skip < j <= v.len(),
            out@ == v@.subrange(0, skip as int) + v@.subrange(skip + 1, j as int),
        decreases v.len() - j,
    {
        out.push(v[j]);
        j = j + 1;
    }
    out
}

/// The characters of `v` from `start` on.
fn chars_from(v: &Vec<char>, start: usize) -> (r: Vec<char>)
    requires
        start <= v.len(),
    ensures
        r@ == v@.subrange(start as int, v.len() as int),
{
    let mut out: Vec<char> = Vec::new();
    let mut j: usize = start;
    while j < v.len()
        invariant
            start <= j <= v.len(),
            out@ == v@.subrange(start as int, j as int),
        decreases v.len() - j,
    {
        out.push(v[j]);
        j = j + 1;
    }
    out
}

/// The UTF-8 length of `fraction` when it is at most nine bytes, some number
/// above nine otherwise; and, when it is above nine, whether some of its first
/// characters take exactly nine bytes.
fn fraction_bytes(fraction: &Vec<char>) -> (r: (u64, bool))
    ensures
        r.0 <= 9 ==> r.0 == utf8_len(fraction@),
        r.0 > 9 <==> utf8_len(fraction@) > 9,
        utf8_len(fraction@) > 9 ==> (r.1 <==> exists|k: int|
            0 <= k <= fraction@.len() && #[trigger] utf8_len(fraction@.take(k)) == 9),
{
    let n = fraction.len();
    let mut k: usize = 0;
    let mut total: u64 = 0;
    let mut reaches_nine = false;
    assert(fraction@.take(0) =~= Seq::<char>::empty());
    while k < n && total <= 9
        invariant
            n == fraction.len(),
            k <= n,
            total == utf8_len(fraction@.take(k as int)),
            total <= 13,
            reaches_nine <==> exists|j: int|
                0 <= j <= k && #[trigger] utf8_len(fraction@.take(j)) == 9,
        decreases n - k,
    {
        let w = utf8_width_of(fraction[k]);
        assert(fraction@.take(k + 1).drop_last() =~= fraction@.take(k as int));
        total = total + w;
        k = k + 1;
        assert(total == utf8_len(fraction@.take(k as int)));
        if total == 9 {
            reaches_nine = true;
        }
        assert(reaches_nine <==> exists|j: int|
            0 <= j <= k && #[trigger] utf8_len(fraction@.take(j)) == 9) by {
            if !reaches_nine {
                assert forall|j: int| 0 <= j <= k implies #[trigger] utf8_len(fraction@.take(j))
                    != 9 by {
                    if j < k {
                    }
                }
            }
        }
    }
    proof {
        lemma_utf8_len_prefix(fraction@, k as int, n as int);
        assert(fraction@.take(n as int) =~= fraction@);
        if total > 9 {
            assert forall|j: int| k < j <= n implies #[trigger] utf8_len(fraction@.take(j)) != 9 by {
                lemma_utf8_len_prefix(fraction@, k as int, j);
            }
        }
    }
    (total, reaches_nine)
}

/// 10^`k`.
fn pow10_u64(k: u64) -> (r: u64)
    requires
        k <= 9,
    ensures
        r == pow10(k as nat),
{
    let mut r: u64 = 1;
    let mut i: u64 = 0;
    while i < k
        invariant
            i <= k <= 9,
            r == pow10(i as nat),
            r <= 1_000_000_000,
        decreases k - i,
    {
        proof {
            reveal_with_fuel(pow10, 10);
        }
        assert(pow10((i + 1) as nat) == 10 * pow10(i as nat));
        assert(r * 10 <= 1_000_000_000) by {
            reveal_with_fuel(pow10, 10);
        }
        r = r * 10;
        i = i + 1;
    }
    r
}

/// The value of the decimal digits `digits[from..]`, or `None` when it is not
/// below 2^256.
fn digits_to_uint(digits: &Vec<char>, from: usize) -> (r: Option<Uint256>)
    requires
        from <= digits.len(),
        all_ascii_digits(digits@.subrange(from as int, digits.len() as int)),
    ensures
        r is Some <==> digits_value(digits@.subrange(from as int, digits.len() as int))
            < uint256_modulus(),
        r matches Some(u) ==> u.value() == digits_value(
            digits@.subrange(from as int, digits.len() as int),
        ),
{
    let ghost body = digits@.subrange(from as int, digits.len() as int);
    let mut acc = Uint256::from_u64(0);
    let mut i: usize = from;
    assert(body.take(0) =~= Seq::<char>::empty());
    while i < digits.len()
        invariant
            from <= i <= digits.len(),
            body == digits@.subrange(from as int, digits.len() as int),
            all_ascii_digits(body),
            acc.value() == digits_value(body.take(i - from)),
        decreases digits.len() - i,
    {
        let c = digits[i];
        assert(c == body[i - from]);
        assert(is_ascii_digit(body[i - from]));
        let d = (c as u32 - 48) as u64;
        assert(body.take(i - from + 1).drop_last() =~= body.take(i - from));
        assert(digits_value(body.take(i - from + 1)) == digits_value(body.take(i - from)) * 10 + d);
        let tens = match acc.checked_mul_u64(10) {
            Some(t) => t,
            None => {
                proof {
                    lemma_digits_value_prefix(body, i - from + 1);
                }
                return None;
            },
        };
        match tens.checked_add(&Uint256::from_u64(d)) {
            Some(next) => {
                acc = next;
            },
            None => {
                proof {
                    lemma_digits_value_prefix(body, i - from + 1);
                }
                return None;
            },
        }
        i = i + 1;
    }
    assert(body.take(i - from) =~= body);
    Some(acc)
}

/// Whether every character of `digits[from..]` is a decimal digit.
fn all_digits_from(digits: &Vec<char>, from: usize) -> (r: bool)
    requires
        from <= digits.len(),
    ensures
        r == all_ascii_digits(digits@.subrange(from as int, digits.len() as int)),
{
    let mut i: usize = from;
    while i < digits.len()
        invariant
            from <= i <= digits.len(),
            forall|j: int| from <= j < i ==> #[trigger] is_ascii_digit(digits@[j]),
        decreases digits.len() - i,
    {
        let u = digits[i] as u32;
        if u < 48 || u > 57 {
            assert(!is_ascii_digit(digits@.subrange(from as int, digits.len() as int)[i - from]));
            return false;
        }
        i = i + 1;
    }
    assert forall|j: int| 0 <= j < digits.len() - from implies #[trigger] is_ascii_digit(
        digits@.subrange(from as int, digits.len() as int)[j],
    ) by {
        assert(is_ascii_digit(digits@[from + j]));
    }
    true
}

/// Whether scaling `digits` by 10^`scale` overflows, as an unsigned amount and as
/// a signed one.
fn scaling_check(digits: &Vec<char>, scale: u64) -> (r: (bool, bool))
    requires
        scale <= 9,
    ensures
        r.0 == unsigned_scaling_overflows(digits@, scale as nat),
        r.1 == signed_scaling_overflows(digits@, scale as nat),
{
    let negative = digits.len() > 0 && digits[0] == '-';
    let from: usize = if negative {
        1
    } else {
        0
    };
    let ghost body = digits@.subrange(from as int, digits.len() as int);
    assert(negative ==> body =~= digits@.drop_first());
    assert(!negative ==> body =~= digits@);
    if !all_digits_from(digits, from) {
        return (false, false);
    }
    let factor = pow10_u64(scale);
    let value = match digits_to_uint(digits, from) {
        Some(v) => v,
        None => {
            return (false, false);
        },
    };
    if !negative {
        return (value.checked_mul_u64(factor).is_none(), false);
    }
    let limit = Uint256 { limbs: [0, 0, 0, 0x8000_0000_0000_0000] };
    assert(limit.value() == signed_magnitude_limit());
    if limit.is_less_than(&value) {
        return (false, false);
    }
    match value.checked_mul_u64(factor) {
        None => {
            assert(value.value() * factor >= uint256_modulus());
            (false, true)
        },
        Some(product) => (false, limit.is_less_than(&product)),
    }
}

/// The position of the first `.` of `v`, or its length when it has none.
fn first_dot(v: &Vec<char>) -> (r: usize)
    ensures
        r <= v.len(),
        forall|j: int| 0 <= j < r ==> v@[j] != '.',
        r < v.len() ==> v@[r as int] == '.',
{
    let mut i: usize = 0;
    while i < v.len()
        invariant
            i <= v.len(),
            forall|j: int| 0 <= j < i ==> v@[j] != '.',
        decreases v.len() - i,
    {
        if v[i] == '.' {
            return i;
        }
        i = i + 1;
    }
    i
}

/// What a caller must know of a text before `parse_units(text, "gwei")` is called
/// on it.
#[derive(Clone, Copy, Debug, PartialEq, Eq)]
pub enum GweiParseRisk {
    /// The call returns a value or an error that depends on the text alone.
    Safe,
    /// The call panics.
    Panics,
    /// The call scales a signed amount past 256 bits: it panics in builds with
    /// debug assertions and wraps in the others.
    SignedOverflow,
}

/// Which of the three cases `text` falls under: the test to make before the
/// priority fee is read from a setting.
pub fn gwei_parse_risk(text: &str) -> (r: GweiParseRisk)
    ensures
        r is Panics <==> gwei_parse_panics(text@),
        r is SignedOverflow <==> gwei_signed_scaling_overflows(text@),
{
    let s = chars_without_underscores(text);
    let n = s.len();
    let dot = first_dot(&s);
    let (unsigned_over, signed_over) = if dot == n {
        assert(!exists|i: int| is_first_dot(s@, i));
        scaling_check(&s, 9)
    } else {
        assert(is_first_dot(s@, dot as int));
        assert forall|i: int| is_first_dot(s@, i) implies i == dot by {
            if i < dot {
            } else if i > dot {
                assert(s@[dot as int] == '.');
            }
        }
        let fraction = chars_from(&s, dot + 1);
        let (bytes, reaches_nine) = fraction_bytes(&fraction);
        if bytes > 9 {
            (!reaches_nine, false)
        } else {
            let digits = chars_except(&s, dot);
            assert(digits@ =~= s@.subrange(0, dot as int) + fraction@);
            scaling_check(&digits, 9 - bytes)
        }
    };
    if unsigned_over {
        GweiParseRisk::Panics
    } else if signed_over {
        GweiParseRisk::SignedOverflow
    } else {
        GweiParseRisk::Safe
    }
}

} // verus!
