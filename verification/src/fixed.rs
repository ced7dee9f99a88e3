//! Fixed-point arithmetic for the simulation: coordinates are carried
//! as `i64` multiples of `1/SCALE` pixels, and the helpers here give
//! truncating division, an integer square root and a range-mapping
//! helper for uniform samples, each with an exact contract.

use vstd::prelude::*;
use vstd::arithmetic::div_mod::{
    lemma_div_is_ordered, lemma_div_pos_is_pos, lemma_fundamental_div_mod,
    lemma_fundamental_div_mod_converse, lemma_mod_bound,
};

verus! {

/// Number of fixed-point units per pixel.
pub const SCALE: i64 = 1024;

/// Division rounding toward zero (the rounding executable Rust uses),
/// for a positive divisor.
pub open spec fn div_trunc(a: int, b: int) -> int {
    if a >= 0 {
        a / b
    } else {
        -((-a) / b)
    }
}

/// Quotient of `a` by `b` rounded toward zero.
pub fn div_toward_zero(a: i64, b: i64) -> (q: i64)
    requires
        b > 0,
        a > i64::MIN,
    ensures
        q == div_trunc(a as int, b as int),
        a >= 0 ==> 0 <= q <= a,
        a <= 0 ==> a <= q <= 0,
{
    proof {
        lemma_quotient_within(if a >= 0 { a as int } else { -(a as int) }, b as int);
    }
    if a >= 0 {
        (((a as u64) / (b as u64)) as i64)
    } else {
        let neg: i64 = -a;
        let m: i64 = (((neg as u64) / (b as u64)) as i64);
        -m
    }
}

proof fn lemma_quotient_within(a: int, b: int)
    requires
        a >= 0,
        b >= 1,
    ensures
        0 <= a / b <= a,
{
    lemma_div_pos_is_pos(a, b);
    lemma_fundamental_div_mod(a, b);
    lemma_mod_bound(a, b);
    assert(b * (a / b) >= a / b) by (nonlinear_arith)
        requires
            a / b >= 0,
            b >= 1,
    ;
}

/// `v` clamped to the closed interval `[lo, hi]`.
pub open spec fn clamp_spec(v: int, lo: int, hi: int) -> int {
    if v < lo {
        lo
    } else if v > hi {
        hi
    } else {
        v
    }
}

/// `v` clamped to the closed interval `[lo, hi]`.
pub fn clamp(v: i64, lo: i64, hi: i64) -> (r: i64)
    requires
        lo <= hi,
    ensures
        r == clamp_spec(v as int, lo as int, hi as int),
{
    if v < lo {
        lo
    } else if v > hi {
        hi
    } else {
        v
    }
}

/// Largest `r` with `r * r <= n`.
pub open spec fn sqrt_floor(n: nat) -> nat
    decreases n,
{
    if n == 0 {
        0
    } else {
        let r = sqrt_floor((n - 1) as nat);
        if (r + 1) * (r + 1) <= n {
            r + 1
        } else {
            r
        }
    }
}

pub proof fn lemma_sqrt_floor_bounds(n: nat)
    ensures
        sqrt_floor(n) * sqrt_floor(n) <= n,
        n < (sqrt_floor(n) + 1) * (sqrt_floor(n) + 1),
    decreases n,
{
    if n == 0 {
        assert((sqrt_floor(n) + 1) * (sqrt_floor(n) + 1) == 1) by (nonlinear_arith)
            requires
                sqrt_floor(n) == 0,
        ;
    } else {
        lemma_sqrt_floor_bounds((n - 1) as nat);
        let r = sqrt_floor((n - 1) as nat);
        if (r + 1) * (r + 1) <= n {
            assert(sqrt_floor(n) == r + 1);
            assert((r + 1 + 1) * (r + 1 + 1) > (r + 1) * (r + 1)) by (nonlinear_arith);
            assert(n < (r + 1) * (r + 1) + 1);
            assert(n < (r + 1 + 1) * (r + 1 + 1));
        } else {
            assert(sqrt_floor(n) == r);
            assert(r * r <= n - 1);
            assert(n < (r + 1) * (r + 1));
        }
    }
}

pub proof fn lemma_sqrt_floor_is(n: nat, r: nat)
    requires
        r * r <= n,
        n < (r + 1) * (r + 1),
    ensures
        r == sqrt_floor(n),
{
    lemma_sqrt_floor_bounds(n);
    let s = sqrt_floor(n);
    if r < s {
        assert((r + 1) * (r + 1) <= s * s) by (nonlinear_arith)
            requires
                r + 1 <= s,
        ;
    }
    if s < r {
        assert((s + 1) * (s + 1) <= r * r) by (nonlinear_arith)
            requires
                s + 1 <= r,
        ;
    }
}

/// Integer square root, rounded down.
pub fn isqrt(n: u64) -> (r: u64)
    ensures
        r == sqrt_floor(n as nat),
        r * r <= n,
{
    let mut lo: u64 = 0;
    let mut hi: u64 = 0x1_0000_0000;
    while lo + 1 < hi
        invariant
            lo < hi <= 0x1_0000_0000,
            (lo as int) * (lo as int) <= n as int,
            (n as int) < (hi as int) * (hi as int),
        decreases hi - lo,
    {
        let mid: u64 = lo + (hi - lo) / 2;
        proof {
            assert((mid as int) * (mid as int) <= 0xFFFF_FFFF * 0xFFFF_FFFF) by (nonlinear_arith)
                requires
                    0 <= mid <= 0xFFFF_FFFF,
            ;
        }
        if mid * mid <= n {
            lo = mid;
        } else {
            hi = mid;
        }
    }
    proof {
        lemma_sqrt_floor_is(n as nat, lo as nat);
    }
    lo
}

/// Where a uniform sample `u` drawn from `[0, SCALE)` lands in `[lo, hi)`.
pub open spec fn range_map_spec(u: int, lo: int, hi: int) -> int {
    lo + (u * (hi - lo)) / (SCALE as int)
}

/// A uniform sample mapped through `range_map_spec` lands in `[lo, hi)`.
pub proof fn lemma_range_map_in_range(u: int, lo: int, hi: int)
    requires
        0 <= u < SCALE,
        lo < hi,
    ensures
        lo <= range_map_spec(u, lo, hi) < hi,
{
    let s = SCALE as int;
    let d = hi - lo;
    assert(0 <= u * d <= (s - 1) * d) by (nonlinear_arith)
        requires
            0 <= u <= s - 1 && d >= 1,
    ;
    lemma_div_is_ordered(0, u * d, s);
    lemma_div_is_ordered(u * d, s * d - 1, s);
    lemma_fundamental_div_mod_converse(s * d - 1, s, d - 1, s - 1);
}

/// Map a uniform sample `u` from `[0, SCALE)` into the half-open range
/// `[lo, hi)`.
pub fn range_map(u: i64, lo: i64, hi: i64) -> (r: i64)
    requires
        0 <= u < SCALE,
        lo < hi,
        -0x10_0000 <= lo,
        hi <= 0x10_0000,
    ensures
        r == range_map_spec(u as int, lo as int, hi as int),
        lo <= r < hi,
{
    proof {
        lemma_range_map_in_range(u as int, lo as int, hi as int);
    }
    let span: i64 = hi - lo;
    let step: i64 = div_toward_zero(u * span, SCALE);
    lo + step
}

} // verus!
