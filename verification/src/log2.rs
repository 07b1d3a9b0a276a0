//! Integer base-2 logarithms.
//!
//! The chunkers derive their hash-judgment masks from the base-2 logarithm of
//! the desired average chunk size: the `ronomon` variant uses the floor of
//! the logarithm, while the `v2016` and `v2020` variants use the logarithm
//! rounded to the nearest integer.

use vstd::arithmetic::power2::*;
use vstd::prelude::*;

verus! {

/// The floor of the base-2 logarithm of `v`, with `log2_floor(0) == 0`.
pub open spec fn log2_floor(v: nat) -> nat
    decreases v,
{
    if v < 2 {
        0
    } else {
        1 + log2_floor(v / 2)
    }
}

/// The base-2 logarithm of `v` rounded to the nearest integer, with
/// `log2_round(0) == 0`. Rounding compares `v` against `2^(f + 1/2)`,
/// which squared is `2^(2f + 1)`.
pub open spec fn log2_round(v: nat) -> nat {
    if v <= 1 {
        0
    } else {
        let f = log2_floor(v);
        if v * v > pow2(2 * f + 1) {
            f + 1
        } else {
            f
        }
    }
}

/// `log2_floor` names the unique exponent `f` with `2^f <= v < 2^(f+1)`.
pub proof fn lemma_log2_floor_bounds(v: nat)
    requires
        v >= 1,
    ensures
        pow2(log2_floor(v)) <= v < pow2(log2_floor(v) + 1),
    decreases v,
{
    lemma2_to64();
    if v < 2 {
    } else {
        lemma_log2_floor_bounds(v / 2);
        let f = log2_floor(v / 2);
        lemma_pow2_adds(f, 1);
        lemma_pow2_adds(f + 1, 1);
    }
}

/// `log2_floor(v) <= b` whenever `v < 2^(b+1)`.
pub proof fn lemma_log2_floor_upper(v: nat, b: nat)
    requires
        v >= 1,
        v < pow2(b + 1),
    ensures
        log2_floor(v) <= b,
{
    lemma_log2_floor_bounds(v);
    let f = log2_floor(v);
    if f > b {
        if b + 1 < f {
            lemma_pow2_strictly_increases(b + 1, f);
        }
    }
}

/// `log2_floor(v) >= b` whenever `v >= 2^b`.
pub proof fn lemma_log2_floor_lower(v: nat, b: nat)
    requires
        v >= pow2(b),
    ensures
        log2_floor(v) >= b,
{
    lemma_pow2_pos(b);
    lemma_log2_floor_bounds(v);
    let f = log2_floor(v);
    if f < b {
        if f + 1 < b {
            lemma_pow2_strictly_increases(f + 1, b);
        }
    }
}

/// For average chunk sizes within the gear-hash variants' bounds, the
/// rounded logarithm stays within the populated region of the mask table,
/// even after shifting by up to three levels of normalization.
pub proof fn lemma_log2_round_range(v: nat)
    requires
        256 <= v <= 4194304,
    ensures
        8 <= log2_round(v) <= 22,
{
    lemma2_to64();
    lemma2_to64_rest();
    lemma_log2_floor_lower(v, 8);
    lemma_log2_floor_upper(v, 22);
    let f = log2_floor(v);
    if f == 22 {
        lemma_log2_floor_bounds(v);
        assert(pow2(22) <= v);
        assert(v == pow2(22));
        lemma_pow2_adds(22, 22);
        assert(v * v == pow2(44)) by (nonlinear_arith)
            requires
                v == pow2(22),
                pow2(22) * pow2(22) == pow2(44),
        ;
    }
}

/// The floor of the base-2 logarithm of a positive 32-bit value.
pub fn floor_ilog2(value: u32) -> (r: u32)
    requires
        value >= 1,
    ensures
        r == log2_floor(value as nat),
        r <= 31,
{
    proof {
        lemma2_to64();
        lemma_log2_floor_upper(value as nat, 31);
    }
    let mut x = value;
    let mut r: u32 = 0;
    while x >= 2
        invariant
            x >= 1,
            r + log2_floor(x as nat) == log2_floor(value as nat),
            log2_floor(value as nat) <= 31,
        decreases x,
    {
        assert(log2_floor(x as nat) == 1 + log2_floor((x / 2) as nat));
        x = x / 2;
        r = r + 1;
    }
    r
}

/// The base-2 logarithm of `value` rounded to the nearest integer.
///
/// The `v2016` and `v2020` chunkers use this to select hash-judgment masks
/// from the mask table by the number of significant bits of the average
/// chunk size.
pub fn logarithm2(value: u32) -> (r: u32)
    ensures
        r == log2_round(value as nat),
{
    if value <= 1 {
        return 0;
    }
    let f = floor_ilog2(value);
    assert((value as u64) * (value as u64) <= 0xffff_fffe_0000_0001u64) by (nonlinear_arith)
        requires
            value <= 0xffff_ffffu32,
    ;
    let sq: u64 = (value as u64) * (value as u64);
    proof {
        lemma2_to64();
        lemma2_to64_rest();
        if 2 * f + 1 < 63 {
            lemma_pow2_strictly_increases((2 * f + 1) as nat, 63);
        }
        vstd::bits::lemma_u64_shl_is_mul(1u64, (2 * f + 1) as u64);
    }
    let threshold: u64 = 1u64 << (2 * f + 1);
    if sq > threshold {
        f + 1
    } else {
        f
    }
}

} // verus!
