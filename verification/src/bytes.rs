//! Little-endian interpretation of byte strings as unsigned integers.

use vstd::prelude::*;

verus! {

/// The value of a byte string read as a little-endian unsigned integer.
pub open spec fn le_val(s: Seq<u8>) -> nat
    decreases s.len(),
{
    if s.len() == 0 {
        0
    } else {
        (s[0] + 256 * le_val(s.subrange(1, s.len() as int))) as nat
    }
}

/// `256^n`: the number of distinct values of an `n`-byte string.
pub open spec fn pow256(n: nat) -> nat
    decreases n,
{
    if n == 0 {
        1
    } else {
        256 * pow256((n - 1) as nat)
    }
}

/// A little-endian value is bounded by `256^len`.
pub proof fn lemma_le_val_bound(s: Seq<u8>)
    ensures
        le_val(s) < pow256(s.len()),
    decreases s.len(),
{
    if s.len() == 0 {
    } else {
        let tail = s.subrange(1, s.len() as int);
        lemma_le_val_bound(tail);
        assert(256 * le_val(tail) <= 256 * (pow256(tail.len()) - 1)) by (nonlinear_arith)
            requires
                le_val(tail) < pow256(tail.len()),
        ;
        assert(pow256(s.len()) == 256 * pow256(tail.len()));
    }
}

/// `256^n` grows with `n`.
pub proof fn lemma_pow256_increases(a: nat, b: nat)
    requires
        a <= b,
    ensures
        pow256(a) <= pow256(b),
    decreases b,
{
    if a < b {
        lemma_pow256_increases(a, (b - 1) as nat);
        assert(pow256(b) == 256 * pow256((b - 1) as nat));
        assert(pow256((b - 1) as nat) <= 256 * pow256((b - 1) as nat)) by (nonlinear_arith)
            requires
                pow256((b - 1) as nat) >= 0,
        ;
    }
}

/// `256^8` is one past the largest `u64`.
pub proof fn lemma_pow256_8()
    ensures
        pow256(8) == 0x1_0000_0000_0000_0000,
{
    reveal_with_fuel(pow256, 9);
}

/// `256^16` is one past the largest `u128`.
pub proof fn lemma_pow256_16()
    ensures
        pow256(16) == 0x1_0000_0000_0000_0000_0000_0000_0000_0000,
{
    reveal_with_fuel(pow256, 17);
}

/// Peel one byte off the front of a little-endian string.
proof fn lemma_le_val_step(s: Seq<u8>, i: int)
    requires
        0 <= i < s.len(),
    ensures
        le_val(s.subrange(i, s.len() as int)) == s[i] + 256 * le_val(
            s.subrange(i + 1, s.len() as int),
        ),
{
    let t = s.subrange(i, s.len() as int);
    assert(t.subrange(1, t.len() as int) =~= s.subrange(i + 1, s.len() as int));
}

/// Read exactly eight bytes as a little-endian 64-bit value.
pub fn le_u64(s: &[u8]) -> (r: u64)
    requires
        s@.len() == 8,
    ensures
        r == le_val(s@),
{
    let mut r: u64 = 0;
    let mut i: usize = 8;
    while i > 0
        invariant
            i <= 8,
            s@.len() == 8,
            r == le_val(s@.subrange(i as int, 8)),
            r < pow256((8 - i) as nat),
        decreases i,
    {
        proof {
            lemma_le_val_step(s@, i - 1);
            lemma_pow256_increases((8 - i) as nat, 7);
            lemma_pow256_8();
            reveal_with_fuel(pow256, 9);
            assert(pow256((8 - i + 1) as nat) == 256 * pow256((8 - i) as nat));
        }
        i = i - 1;
        r = r * 256 + (s[i] as u64);
    }
    proof {
        assert(s@.subrange(0, 8) =~= s@);
    }
    r
}

/// Read exactly sixteen bytes as a little-endian 128-bit value.
pub fn le_u128(s: &[u8]) -> (r: u128)
    requires
        s@.len() == 16,
    ensures
        r == le_val(s@),
{
    let mut r: u128 = 0;
    let mut i: usize = 16;
    while i > 0
        invariant
            i <= 16,
            s@.len() == 16,
            r == le_val(s@.subrange(i as int, 16)),
            r < pow256((16 - i) as nat),
        decreases i,
    {
        proof {
            lemma_le_val_step(s@, i - 1);
            lemma_pow256_increases((16 - i) as nat, 15);
            lemma_pow256_16();
            reveal_with_fuel(pow256, 17);
            assert(pow256((16 - i + 1) as nat) == 256 * pow256((16 - i) as nat));
        }
        i = i - 1;
        r = r * 256 + (s[i] as u128);
    }
    proof {
        assert(s@.subrange(0, 16) =~= s@);
    }
    r
}

} // verus!
