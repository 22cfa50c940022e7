//! Decimal and hexadecimal renderings of numbers and byte strings.

use vstd::prelude::*;

verus! {

/// The lowercase hexadecimal digit for `d` (0 to 15).
pub open spec fn hex_char(d: nat) -> char {
    if d < 10 {
        (d + 48) as char
    } else {
        (d + 87) as char
    }
}

/// The decimal digit for `d` (0 to 9).
pub open spec fn digit_char(d: nat) -> char {
    (d + 48) as char
}

/// Two lowercase hexadecimal digits for each byte, in order.
pub open spec fn hex_lower(bytes: Seq<u8>) -> Seq<char>
    decreases bytes.len(),
{
    if bytes.len() == 0 {
        Seq::empty()
    } else {
        hex_lower(bytes.drop_last()) + seq![
            hex_char(bytes.last() as nat / 16),
            hex_char(bytes.last() as nat % 16),
        ]
    }
}

/// The decimal rendering of `n`, without leading zeros ("0" for zero).
pub open spec fn decimal(n: nat) -> Seq<char>
    decreases n,
{
    if n < 10 {
        seq![digit_char(n)]
    } else {
        decimal(n / 10) + seq![digit_char(n % 10)]
    }
}

/// The characters of a sequence of decimal digits.
pub open spec fn digit_chars(d: Seq<u8>) -> Seq<char> {
    d.map_values(|x: u8| digit_char(x as nat))
}

/// The four bytes of `w`, most significant first.
pub open spec fn u32_be_bytes(w: u32) -> Seq<u8> {
    seq![
        (w / 0x100_0000) as u8,
        ((w / 0x1_0000) % 256) as u8,
        ((w / 0x100) % 256) as u8,
        (w % 256) as u8,
    ]
}

pub proof fn lemma_hex_lower_append(a: Seq<u8>, b: Seq<u8>)
    ensures
        hex_lower(a + b) == hex_lower(a) + hex_lower(b),
    decreases b.len(),
{
    if b.len() == 0 {
        assert(a + b =~= a);
        assert(hex_lower(a) + hex_lower(b) =~= hex_lower(a));
    } else {
        let b2 = b.drop_last();
        lemma_hex_lower_append(a, b2);
        assert((a + b).drop_last() =~= a + b2);
        assert((a + b).last() == b.last());
        let t = seq![hex_char(b.last() as nat / 16), hex_char(b.last() as nat % 16)];
        assert(hex_lower(a + b) == hex_lower(a + b2) + t);
        assert(hex_lower(b) == hex_lower(b2) + t);
        assert(hex_lower(a) + hex_lower(b2) + t =~= hex_lower(a) + (hex_lower(b2) + t));
    }
}

pub proof fn lemma_hex_lower_len(a: Seq<u8>)
    ensures
        hex_lower(a).len() == 2 * a.len(),
    decreases a.len(),
{
    if a.len() > 0 {
        lemma_hex_lower_len(a.drop_last());
    }
}

pub proof fn lemma_hex_lower_single(b: u8)
    ensures
        hex_lower(seq![b]) == seq![hex_char(b as nat / 16), hex_char(b as nat % 16)],
{
    assert(seq![b].drop_last() =~= Seq::<u8>::empty());
    assert(hex_lower(Seq::<u8>::empty()) =~= Seq::<char>::empty());
    assert(Seq::<char>::empty() + seq![hex_char(b as nat / 16), hex_char(b as nat % 16)]
        =~= seq![hex_char(b as nat / 16), hex_char(b as nat % 16)]);
}

/// Trusted: `hex::encode` renders each byte of `data` as two lowercase hexadecimal
/// digits, in order (its documentation and its table `0123456789abcdef` say so).
#[verifier::external_body]
pub(crate) fn hex_encode(data: &[u8]) -> (r: String)
    ensures
        r@ == hex_lower(data@),
{
    hex::encode(data)
}

/// `0x` and the lowercase hexadecimal digits of `data`.
pub fn prefixed_hex(data: &[u8]) -> (r: String)
    ensures
        r@ == "0x"@ + hex_lower(data@),
{
    let mut text = String::from_str("0x");
    let digits = hex_encode(data);
    text.append(digits.as_str());
    text
}

/// The one-character string for the hexadecimal digit `d`.
pub fn hex_digit_str(d: u8) -> (r: &'static str)
    requires
        d < 16,
    ensures
        r@ == seq![hex_char(d as nat)],
{
    proof {
        reveal_strlit("0");
        reveal_strlit("1");
        reveal_strlit("2");
        reveal_strlit("3");
        reveal_strlit("4");
        reveal_strlit("5");
        reveal_strlit("6");
        reveal_strlit("7");
        reveal_strlit("8");
        reveal_strlit("9");
        reveal_strlit("a");
        reveal_strlit("b");
        reveal_strlit("c");
        reveal_strlit("d");
        reveal_strlit("e");
        reveal_strlit("f");
    }
    let r = if d == 0 {
        "0"
    } else if d == 1 {
        "1"
    } else if d == 2 {
        "2"
    } else if d == 3 {
        "3"
    } else if d == 4 {
        "4"
    } else if d == 5 {
        "5"
    } else if d == 6 {
        "6"
    } else if d == 7 {
        "7"
    } else if d == 8 {
        "8"
    } else if d == 9 {
        "9"
    } else if d == 10 {
        "a"
    } else if d == 11 {
        "b"
    } else if d == 12 {
        "c"
    } else if d == 13 {
        "d"
    } else if d == 14 {
        "e"
    } else {
        "f"
    };
    r
}

/// Appends the two lowercase hexadecimal digits of `b`.
pub fn push_hex_byte(s: &mut String, b: u8)
    ensures
        final(s)@ == old(s)@ + hex_lower(seq![b]),
{
    proof {
        lemma_hex_lower_single(b);
    }
    s.append(hex_digit_str(b / 16));
    s.append(hex_digit_str(b % 16));
    assert(s@ =~= old(s)@ + hex_lower(seq![b]));
}

/// Appends the eight lowercase hexadecimal digits of `w`, zero padded, as
/// `format!("{:08x}", w)` renders it.
pub fn push_hex_u32(s: &mut String, w: u32)
    ensures
        final(s)@ == old(s)@ + hex_lower(u32_be_bytes(w)),
{
    let b0 = (w / 0x100_0000) as u8;
    let b1 = ((w / 0x1_0000) % 256) as u8;
    let b2 = ((w / 0x100) % 256) as u8;
    let b3 = (w % 256) as u8;
    let ghost s0 = s@;
    push_hex_byte(s, b0);
    push_hex_byte(s, b1);
    push_hex_byte(s, b2);
    push_hex_byte(s, b3);
    proof {
        let bs = u32_be_bytes(w);
        assert(bs =~= seq![b0] + seq![b1] + seq![b2] + seq![b3]);
        lemma_hex_lower_append(seq![b0] + seq![b1] + seq![b2], seq![b3]);
        lemma_hex_lower_append(seq![b0] + seq![b1], seq![b2]);
        lemma_hex_lower_append(seq![b0], seq![b1]);
        assert(s@ =~= s0 + hex_lower(bs));
    }
}

/// The one-character string for the decimal digit `d`.
pub fn digit_str(d: u8) -> (r: &'static str)
    requires
        d < 10,
    ensures
        r@ == seq![digit_char(d as nat)],
{
    hex_digit_str(d)
}

/// The decimal digits of `n`, most significant first.
pub fn decimal_digits(n: u64) -> (d: Vec<u8>)
    ensures
        digit_chars(d@) == decimal(n as nat),
        1 <= d.len() <= 20,
        forall|i: int| 0 <= i < d.len() ==> d[i] < 10,
{
    // Collect the digits least significant first.
    let mut rev: Vec<u8> = Vec::new();
    let mut x: u64 = n;
    proof {
        lemma_decimal_len_u64(n);
        assert(digit_chars(rev@).reverse() =~= Seq::<char>::empty());
        assert(decimal(n as nat) + Seq::<char>::empty() =~= decimal(n as nat));
    }
    while x >= 10
        invariant
            decimal(n as nat) == decimal(x as nat) + digit_chars(rev@).reverse(),
            forall|i: int| 0 <= i < rev.len() ==> rev[i] < 10,
            rev.len() + decimal(x as nat).len() == decimal(n as nat).len(),
            decimal(n as nat).len() <= 20,
        decreases x,
    {
        let ghost old_rev = rev@;
        proof {
            lemma_decimal_len_u64(x);
        }
        rev.push((x % 10) as u8);
        proof {
            let t = digit_chars(old_rev).reverse();
            assert(digit_chars(rev@) =~= digit_chars(old_rev).push(digit_char((x % 10) as nat)));
            assert(digit_chars(rev@).reverse() =~= seq![digit_char((x % 10) as nat)] + t);
            assert(decimal(x as nat) == decimal((x / 10) as nat) + seq![digit_char((x % 10) as nat)]);
            assert(decimal(x as nat) + t =~= decimal((x / 10) as nat) + (seq![digit_char((x % 10) as nat)] + t));
        }
        x = x / 10;
    }
    let ghost old_rev = rev@;
    rev.push(x as u8);
    proof {
        assert(digit_chars(rev@) =~= digit_chars(old_rev).push(digit_char(x as nat)));
        assert(digit_chars(rev@).reverse() =~= seq![digit_char(x as nat)] + digit_chars(old_rev).reverse());
        assert(decimal(n as nat) =~= digit_chars(rev@).reverse());
    }
    // Reverse into most significant first.
    let len = rev.len();
    let mut d: Vec<u8> = Vec::new();
    let mut k: usize = len;
    while k > 0
        invariant
            k <= len,
            len == rev.len(),
            d.len() == len - k,
            forall|i: int| 0 <= i < d.len() ==> d[i] == rev[len - 1 - i],
            forall|i: int| 0 <= i < rev.len() ==> rev[i] < 10,
        decreases k,
    {
        k = k - 1;
        d.push(rev[k]);
    }
    proof {
        assert(digit_chars(d@) =~= digit_chars(rev@).reverse());
        lemma_decimal_len_u64(n);
    }
    d
}

/// `n` has at most 20 decimal digits.
pub proof fn lemma_decimal_len_u64(n: u64)
    ensures
        1 <= decimal(n as nat).len() <= 20,
{
    reveal_with_fuel(pow10, 21);
    assert(pow10(20) == 100_000_000_000_000_000_000nat);
    lemma_decimal_len_bound(n as nat, 20);
}

/// 10 raised to the power `k`.
pub open spec fn pow10(k: nat) -> nat
    decreases k,
{
    if k == 0 {
        1
    } else {
        10 * pow10((k - 1) as nat)
    }
}

pub proof fn lemma_decimal_len_bound(n: nat, k: nat)
    requires
        n < pow10(k),
        k >= 1,
    ensures
        1 <= decimal(n).len() <= k,
    decreases n,
{
    if n >= 10 {
        assert(k >= 2) by {
            if k == 1 {
                assert(pow10(1) == 10 * pow10(0));
            }
        }
        assert(n / 10 < pow10((k - 1) as nat));
        lemma_decimal_len_bound(n / 10, (k - 1) as nat);
    }
}

/// Appends the digits `d[from..to]`.
pub fn push_digits(s: &mut String, d: &Vec<u8>, from: usize, to: usize)
    requires
        from <= to <= d.len(),
        forall|i: int| 0 <= i < d.len() ==> d[i] < 10,
    ensures
        final(s)@ == old(s)@ + digit_chars(d@.subrange(from as int, to as int)),
{
    let mut k = from;
    while k < to
        invariant
            from <= k <= to <= d.len(),
            forall|i: int| 0 <= i < d.len() ==> d[i] < 10,
            s@ == old(s)@ + digit_chars(d@.subrange(from as int, k as int)),
        decreases to - k,
    {
        s.append(digit_str(d[k]));
        assert(digit_chars(d@.subrange(from as int, k + 1)) =~= digit_chars(
            d@.subrange(from as int, k as int),
        ).push(digit_char(d[k as int] as nat)));
        k = k + 1;
    }
}

/// Appends the decimal rendering of `n`.
pub fn push_decimal(s: &mut String, n: u64)
    ensures
        final(s)@ == old(s)@ + decimal(n as nat),
{
    let d = decimal_digits(n);
    push_digits(s, &d, 0, d.len());
    assert(d@.subrange(0, d.len() as int) =~= d@);
}

} // verus!
