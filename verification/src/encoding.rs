//! Big-endian byte values and the lemmas that relate them to machine words.

use vstd::prelude::*;

verus! {

/// 256 raised to the power `n`.
pub open spec fn pow256(n: nat) -> nat
    decreases n,
{
    if n == 0 {
        1
    } else {
        256 * pow256((n - 1) as nat)
    }
}

/// The number that a sequence of bytes denotes when read most significant byte first.
pub open spec fn be_value(s: Seq<u8>) -> nat
    decreases s.len(),
{
    if s.len() == 0 {
        0
    } else {
        be_value(s.drop_last()) * 256 + s.last() as nat
    }
}

pub proof fn lemma_pow256_small()
    ensures
        pow256(0) == 1,
        pow256(1) == 0x100,
        pow256(2) == 0x1_0000,
        pow256(3) == 0x100_0000,
        pow256(4) == 0x1_0000_0000,
        pow256(5) == 0x100_0000_0000,
        pow256(6) == 0x1_0000_0000_0000,
        pow256(7) == 0x100_0000_0000_0000,
        pow256(8) == 0x1_0000_0000_0000_0000,
{
    reveal_with_fuel(pow256, 9);
}

pub proof fn lemma_pow256_positive(n: nat)
    ensures
        pow256(n) >= 1,
    decreases n,
{
    if n > 0 {
        lemma_pow256_positive((n - 1) as nat);
    }
}

pub proof fn lemma_pow256_monotone(i: nat, j: nat)
    requires
        i <= j,
    ensures
        pow256(i) <= pow256(j),
    decreases j,
{
    if i < j {
        lemma_pow256_monotone(i, (j - 1) as nat);
        lemma_pow256_positive((j - 1) as nat);
    }
}

/// Reading the concatenation of two byte strings.
pub proof fn lemma_be_value_append(a: Seq<u8>, b: Seq<u8>)
    ensures
        be_value(a + b) == be_value(a) * pow256(b.len()) + be_value(b),
    decreases b.len(),
{
    if b.len() == 0 {
        assert(a + b =~= a);
        assert(pow256(0) == 1);
        assert(be_value(b) == 0);
    } else {
        let b2 = b.drop_last();
        lemma_be_value_append(a, b2);
        assert((a + b).drop_last() =~= a + b2);
        assert((a + b).last() == b.last());
        let x = be_value(a);
        let p = pow256(b2.len());
        assert(pow256(b.len()) == 256 * p);
        assert(be_value(a + b) == be_value(a + b2) * 256 + b.last() as nat);
        assert(be_value(b) == be_value(b2) * 256 + b.last() as nat);
        assert((x * p + be_value(b2)) * 256 + b.last() as nat == x * (256 * p) + (be_value(b2)
            * 256 + b.last() as nat)) by (nonlinear_arith);
    }
}

/// Reading a single byte.
pub proof fn lemma_be_value_single(b: u8)
    ensures
        be_value(seq![b]) == b as nat,
{
    assert(seq![b].drop_last() =~= Seq::<u8>::empty());
    assert(be_value(Seq::<u8>::empty()) == 0);
}

/// Reads eight bytes, most significant first, starting at `start`.
pub fn be_u64_at(bytes: &[u8; 32], start: usize) -> (r: u64)
    requires
        start + 8 <= 32,
    ensures
        r as nat == be_value(bytes@.subrange(start as int, start + 8)),
{
    let mut v: u64 = 0;
    let mut k: usize = 0;
    proof {
        lemma_pow256_small();
        assert(bytes@.subrange(start as int, start as int) =~= Seq::<u8>::empty());
    }
    while k < 8
        invariant
            start + 8 <= 32,
            k <= 8,
            v as nat == be_value(bytes@.subrange(start as int, start + k)),
            v < pow256(k as nat),
        decreases 8 - k,
    {
        let b = bytes[start + k];
        proof {
            let s = bytes@.subrange(start as int, start + k + 1);
            assert(s.drop_last() =~= bytes@.subrange(start as int, start + k));
            assert(s.last() == b);
            lemma_pow256_monotone((k + 1) as nat, 8);
            lemma_pow256_small();
            assert(pow256((k + 1) as nat) == 256 * pow256(k as nat));
        }
        v = v * 256 + b as u64;
        k = k + 1;
    }
    v
}

} // verus!
