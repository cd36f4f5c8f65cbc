use vstd::prelude::*;

use super::CHUNK_SIZE;

verus! {

pub open spec fn pow2(k: nat) -> nat
    decreases k,
{
    if k == 0 {
        1
    } else {
        2 * pow2((k - 1) as nat)
    }
}

/// The level of detail as the 32-bit value the halving count is taken from.
pub open spec fn lod_bits(lod: usize) -> nat {
    ((lod as int) % 4294967296) as nat
}

/// The chunk resolution at level of detail `lod`: the chunk size halved once
/// for every two levels, but never below 2 nor above the chunk size.
pub open spec fn spec_chunk_size(lod: usize) -> int {
    let divided = 128int / (pow2(lod_bits(lod) / 2) as int);
    if divided < 2 {
        2
    } else if divided > 128 {
        128
    } else {
        divided
    }
}

proof fn lemma_halvings(k: nat)
    ensures
        k <= 7 ==> pow2(k) * pow2((7 - k) as nat) == 128,
        pow2(k) >= 1,
        k >= 7 ==> pow2(k) >= 128,
    decreases k,
{
    reveal_with_fuel(pow2, 8);
    if k > 0 {
        lemma_halvings((k - 1) as nat);
        let a = pow2((k - 1) as nat) as int;
        if k <= 7 {
            let b = pow2((7 - k) as nat) as int;
            assert(pow2((8 - k) as nat) == 2 * b);
            assert(2 * a * b == 128) by (nonlinear_arith)
                requires
                    a * (2 * b) == 128,
            ;
        }
    }
}

proof fn lemma_pow2_monotone(a: nat, b: nat)
    requires
        a <= b,
    ensures
        pow2(a) <= pow2(b),
    decreases b - a,
{
    if a < b {
        lemma_pow2_monotone(a, (b - 1) as nat);
    }
}

/// The resolution of a dual-contouring chunk at level of detail `lod`.
/// Requires that the halving count stays below 64, as the power of two it
/// divides by would overflow beyond.
pub fn calculate_chunk_size(lod: usize) -> (size: usize)
    requires
        lod_bits(lod) / 2 < 64,
    ensures
        size == spec_chunk_size(lod),
        2 <= size <= CHUNK_SIZE,
{
    let bits: u64 = (lod as u64) % 4294967296;
    let halvings: u64 = bits / 2;
    assert(halvings == lod_bits(lod) / 2);
    let ghost h = halvings as nat;
    proof {
        lemma_halvings(h);
    }
    if halvings >= 6 {
        proof {
            lemma_pow2_monotone(6, h);
            reveal_with_fuel(pow2, 7);
            let p = pow2(h) as int;
            assert(128int / p <= 2) by (nonlinear_arith)
                requires
                    p >= 64,
            ;
        }
        2
    } else {
        let mut size: usize = CHUNK_SIZE;
        let mut i: u64 = 0;
        proof {
            reveal_with_fuel(pow2, 8);
        }
        while i < halvings
            invariant
                i <= halvings < 6,
                size == pow2((7 - i) as nat),
            decreases halvings - i,
        {
            proof {
                assert(pow2((7 - i) as nat) == 2 * pow2((7 - i - 1) as nat));
            }
            size = size / 2;
            i = i + 1;
        }
        proof {
            let p = pow2(h) as int;
            let q = pow2((7 - h) as nat) as int;
            assert(128int / p == q) by (nonlinear_arith)
                requires
                    p * q == 128,
                    p > 0,
            ;
            lemma_pow2_monotone(2, (7 - h) as nat);
            lemma_pow2_monotone((7 - h) as nat, 7);
            reveal_with_fuel(pow2, 8);
        }
        size
    }
}

} // verus!
