//! A 256-bit unsigned integer held as four 64-bit limbs, least significant first,
//! the layout that the chain client hands over.

use vstd::prelude::*;
use crate::encoding::{be_u64_at, be_value, lemma_be_value_append, lemma_pow256_small};

verus! {

/// 2^256, one more than the largest value of a `Uint256`.
pub open spec fn uint256_modulus() -> nat {
    0x1_0000_0000_0000_0000_0000_0000_0000_0000_0000_0000_0000_0000_0000_0000_0000_0000nat
}

/// The value of four little-endian 64-bit limbs.
pub open spec fn limbs_value(l: [u64; 4]) -> nat {
    l[0] as nat + l[1] as nat * 0x1_0000_0000_0000_0000nat + l[2] as nat
        * 0x1_0000_0000_0000_0000_0000_0000_0000_0000nat + l[3] as nat
        * 0x1_0000_0000_0000_0000_0000_0000_0000_0000_0000_0000_0000_0000nat
}

/// An unsigned 256-bit integer, stored as four 64-bit limbs with the least
/// significant limb first.
#[derive(Clone, Copy, Debug, PartialEq, Eq)]
pub struct Uint256 {
    pub limbs: [u64; 4],
}

pub proof fn lemma_limbs_value_bound(l: [u64; 4])
    ensures
        limbs_value(l) < uint256_modulus(),
{
}

proof fn lemma_limb_split(s: u128)
    ensures
        s == (s % 0x1_0000_0000_0000_0000) + (s / 0x1_0000_0000_0000_0000)
            * 0x1_0000_0000_0000_0000,
        s % 0x1_0000_0000_0000_0000 < 0x1_0000_0000_0000_0000,
{
    vstd::arithmetic::div_mod::lemma_fundamental_div_mod(s as int, 0x1_0000_0000_0000_0000);
}

proof fn lemma_limb_product(x: u64, k: u64)
    ensures
        x as int * k as int <= 0xffff_ffff_ffff_fffe_0000_0000_0000_0001,
        x as int * k as int >= 0,
{
    assert(x as int * k as int <= 0xffff_ffff_ffff_ffff * 0xffff_ffff_ffff_ffffint) by (nonlinear_arith)
        requires
            0 <= x <= 0xffff_ffff_ffff_ffff,
            0 <= k <= 0xffff_ffff_ffff_ffff,
    ;
    assert(x as int * k as int >= 0) by (nonlinear_arith)
        requires
            0 <= x,
            0 <= k,
    ;
}

/// Four column sums `p0 .. p3` with carries propagated give the limbs of `r` and
/// the carry out `c3`.
proof fn lemma_carry_chain(
    p0: int,
    p1: int,
    p2: int,
    p3: int,
    r: Uint256,
    c0: int,
    c1: int,
    c2: int,
    c3: int,
)
    requires
        p0 == r.limbs[0] + c0 * 0x1_0000_0000_0000_0000int,
        p1 + c0 == r.limbs[1] + c1 * 0x1_0000_0000_0000_0000int,
        p2 + c1 == r.limbs[2] + c2 * 0x1_0000_0000_0000_0000int,
        p3 + c2 == r.limbs[3] + c3 * 0x1_0000_0000_0000_0000int,
    ensures
        p0 + p1 * 0x1_0000_0000_0000_0000int + p2 * 0x1_0000_0000_0000_0000_0000_0000_0000_0000int
            + p3 * 0x1_0000_0000_0000_0000_0000_0000_0000_0000_0000_0000_0000_0000int == r.value()
            + c3 * uint256_modulus(),
{
}

/// Multiplying the limbs one by one multiplies the value.
proof fn lemma_limbs_times(a: [u64; 4], k: u64)
    ensures
        limbs_value(a) * k == a[0] as int * k as int + (a[1] as int * k as int)
            * 0x1_0000_0000_0000_0000int + (a[2] as int * k as int)
            * 0x1_0000_0000_0000_0000_0000_0000_0000_0000int + (a[3] as int * k as int)
            * 0x1_0000_0000_0000_0000_0000_0000_0000_0000_0000_0000_0000_0000int,
{
    let x0 = a[0] as int;
    let x1 = a[1] as int;
    let x2 = a[2] as int;
    let x3 = a[3] as int;
    let kk = k as int;
    let b1 = 0x1_0000_0000_0000_0000int;
    let b2 = 0x1_0000_0000_0000_0000_0000_0000_0000_0000int;
    let b3 = 0x1_0000_0000_0000_0000_0000_0000_0000_0000_0000_0000_0000_0000int;
    let y1 = x1 * b1;
    let y2 = x2 * b2;
    let y3 = x3 * b3;
    assert((x0 + y1 + y2 + y3) * kk == x0 * kk + y1 * kk + y2 * kk + y3 * kk) by (nonlinear_arith);
    assert(y1 * kk == (x1 * kk) * b1) by (nonlinear_arith)
        requires
            y1 == x1 * b1,
    ;
    assert(y2 * kk == (x2 * kk) * b2) by (nonlinear_arith)
        requires
            y2 == x2 * b2,
    ;
    assert(y3 * kk == (x3 * kk) * b3) by (nonlinear_arith)
        requires
            y3 == x3 * b3,
    ;
}

impl Uint256 {
    /// The number this value stands for.
    pub open spec fn value(self) -> nat {
        limbs_value(self.limbs)
    }

    /// The value `v`.
    pub fn from_u64(v: u64) -> (r: Uint256)
        ensures
            r.value() == v,
    {
        Uint256 { limbs: [v, 0, 0, 0] }
    }

    /// The number that 32 bytes denote, most significant byte first.
    pub fn from_be_bytes(bytes: &[u8; 32]) -> (r: Uint256)
        ensures
            r.value() == be_value(bytes@),
    {
        let l3 = be_u64_at(bytes, 0);
        let l2 = be_u64_at(bytes, 8);
        let l1 = be_u64_at(bytes, 16);
        let l0 = be_u64_at(bytes, 24);
        proof {
            let s = bytes@;
            let s0 = s.subrange(0, 8);
            let s1 = s.subrange(8, 16);
            let s2 = s.subrange(16, 24);
            let s3 = s.subrange(24, 32);
            assert(s =~= ((s0 + s1) + s2) + s3);
            lemma_be_value_append((s0 + s1) + s2, s3);
            lemma_be_value_append(s0 + s1, s2);
            lemma_be_value_append(s0, s1);
            lemma_pow256_small();
            let v0 = be_value(s0);
            let v1 = be_value(s1);
            let v2 = be_value(s2);
            let v3 = be_value(s3);
            assert(be_value(s0 + s1) == v0 * 0x1_0000_0000_0000_0000 + v1);
            assert(be_value((s0 + s1) + s2) == (v0 * 0x1_0000_0000_0000_0000 + v1)
                * 0x1_0000_0000_0000_0000 + v2);
            assert(be_value(s) == ((v0 * 0x1_0000_0000_0000_0000 + v1) * 0x1_0000_0000_0000_0000
                + v2) * 0x1_0000_0000_0000_0000 + v3);
            assert(((v0 * 0x1_0000_0000_0000_0000 + v1) * 0x1_0000_0000_0000_0000 + v2)
                * 0x1_0000_0000_0000_0000 + v3 == v3 + v2 * 0x1_0000_0000_0000_0000int + v1
                * 0x1_0000_0000_0000_0000_0000_0000_0000_0000int + v0
                * 0x1_0000_0000_0000_0000_0000_0000_0000_0000_0000_0000_0000_0000int)
                by (nonlinear_arith);
        }
        Uint256 { limbs: [l0, l1, l2, l3] }
    }

    /// The sum, or `None` when it does not fit in 256 bits.
    pub fn checked_add(&self, other: &Uint256) -> (r: Option<Uint256>)
        ensures
            r is Some <==> self.value() + other.value() < uint256_modulus(),
            r matches Some(v) ==> v.value() == self.value() + other.value(),
    {
        let a = self.limbs;
        let b = other.limbs;
        let s0 = a[0] as u128 + b[0] as u128;
        let r0 = (s0 % 0x1_0000_0000_0000_0000) as u64;
        let c0 = s0 / 0x1_0000_0000_0000_0000;
        let s1 = a[1] as u128 + b[1] as u128 + c0;
        let r1 = (s1 % 0x1_0000_0000_0000_0000) as u64;
        let c1 = s1 / 0x1_0000_0000_0000_0000;
        let s2 = a[2] as u128 + b[2] as u128 + c1;
        let r2 = (s2 % 0x1_0000_0000_0000_0000) as u64;
        let c2 = s2 / 0x1_0000_0000_0000_0000;
        let s3 = a[3] as u128 + b[3] as u128 + c2;
        let r3 = (s3 % 0x1_0000_0000_0000_0000) as u64;
        let c3 = s3 / 0x1_0000_0000_0000_0000;
        let r = Uint256 { limbs: [r0, r1, r2, r3] };
        proof {
            lemma_limb_split(s0);
            lemma_limb_split(s1);
            lemma_limb_split(s2);
            lemma_limb_split(s3);
            lemma_carry_chain(
                a[0] as int + b[0] as int, a[1] as int + b[1] as int, a[2] as int + b[2] as int,
                a[3] as int + b[3] as int, r, c0 as int, c1 as int, c2 as int, c3 as int,
            );
            assert(limbs_value(a) + limbs_value(b) == (a[0] as int + b[0] as int) + (a[1] as int
                + b[1] as int) * 0x1_0000_0000_0000_0000int + (a[2] as int + b[2] as int)
                * 0x1_0000_0000_0000_0000_0000_0000_0000_0000int + (a[3] as int + b[3] as int)
                * 0x1_0000_0000_0000_0000_0000_0000_0000_0000_0000_0000_0000_0000int);
            lemma_limbs_value_bound(r.limbs);
        }
        if c3 != 0 {
            None
        } else {
            Some(r)
        }
    }

    /// The product with `k`, or `None` when it does not fit in 256 bits.
    pub fn checked_mul_u64(&self, k: u64) -> (r: Option<Uint256>)
        ensures
            r is Some <==> self.value() * k < uint256_modulus(),
            r matches Some(v) ==> v.value() == self.value() * k,
    {
        let a = self.limbs;
        proof {
            lemma_limb_product(a[0], k);
            lemma_limb_product(a[1], k);
            lemma_limb_product(a[2], k);
            lemma_limb_product(a[3], k);
        }
        let s0 = a[0] as u128 * k as u128;
        let r0 = (s0 % 0x1_0000_0000_0000_0000) as u64;
        let c0 = s0 / 0x1_0000_0000_0000_0000;
        let s1 = a[1] as u128 * k as u128 + c0;
        let r1 = (s1 % 0x1_0000_0000_0000_0000) as u64;
        let c1 = s1 / 0x1_0000_0000_0000_0000;
        let s2 = a[2] as u128 * k as u128 + c1;
        let r2 = (s2 % 0x1_0000_0000_0000_0000) as u64;
        let c2 = s2 / 0x1_0000_0000_0000_0000;
        let s3 = a[3] as u128 * k as u128 + c2;
        let r3 = (s3 % 0x1_0000_0000_0000_0000) as u64;
        let c3 = s3 / 0x1_0000_0000_0000_0000;
        let r = Uint256 { limbs: [r0, r1, r2, r3] };
        proof {
            lemma_limb_split(s0);
            lemma_limb_split(s1);
            lemma_limb_split(s2);
            lemma_limb_split(s3);
            lemma_carry_chain(
                a[0] as int * k as int, a[1] as int * k as int, a[2] as int * k as int, a[3] as int
                * k as int, r, c0 as int, c1 as int, c2 as int, c3 as int,
            );
            lemma_limbs_times(a, k);
            lemma_limbs_value_bound(r.limbs);
        }
        if c3 != 0 {
            None
        } else {
            Some(r)
        }
    }

    /// Whether `self` is below `other`.
    pub fn is_less_than(&self, other: &Uint256) -> (r: bool)
        ensures
            r == (self.value() < other.value()),
    {
        let a = self.limbs;
        let b = other.limbs;
        if a[3] != b[3] {
            a[3] < b[3]
        } else if a[2] != b[2] {
            a[2] < b[2]
        } else if a[1] != b[1] {
            a[1] < b[1]
        } else {
            a[0] < b[0]
        }
    }
}

} // verus!
