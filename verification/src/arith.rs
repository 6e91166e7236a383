//! Integer arithmetic helpers for the update rules.
//!
//! The update rules express fractional coefficients as integer rationals
//! and round every quotient toward zero, the rounding of machine integer
//! division.  `sqrt_floor` is the rounded-down integer square root used by
//! the adaptive-moment update.

use vstd::prelude::*;
use vstd::arithmetic::power::pow;
use vstd::arithmetic::power::lemma_pow_increases;

verus! {

/// `x` fits in a 64-bit signed machine word.
pub open spec fn in_i64(x: int) -> bool {
    i64::MIN <= x <= i64::MAX
}

/// The quotient of `a` by `b`, rounded toward zero: the value of machine
/// integer division.
pub open spec fn div_trunc(a: int, b: int) -> int {
    if a >= 0 {
        a / b
    } else {
        -((-a) / b)
    }
}

/// Rounding toward zero never grows the magnitude of the dividend, so the
/// quotient of an in-range dividend by a positive divisor stays in range.
pub proof fn lemma_div_trunc_bounds(a: int, b: int)
    requires
        b >= 1,
    ensures
        a >= 0 ==> 0 <= div_trunc(a, b) <= a,
        a < 0 ==> a <= div_trunc(a, b) <= 0,
{
    if a >= 0 {
        vstd::arithmetic::div_mod::lemma_div_basics_5(a, b);
        vstd::arithmetic::div_mod::lemma_div_pos_is_pos(a, b);
    } else {
        vstd::arithmetic::div_mod::lemma_div_basics_5(-a, b);
        vstd::arithmetic::div_mod::lemma_div_pos_is_pos(-a, b);
    }
}

/// Divides two machine integers; the result is the truncated quotient.
pub fn div_i64(a: i64, b: i64) -> (r: i64)
    requires
        b >= 1,
    ensures
        r == div_trunc(a as int, b as int),
{
    proof {
        lemma_div_trunc_bounds(a as int, b as int);
    }
    a / b
}

/// `r` is the integer square root of `x`, rounded down.
pub open spec fn is_sqrt_floor(x: int, r: int) -> bool {
    r >= 0 && r * r <= x && x < (r + 1) * (r + 1)
}

/// The integer square root of `x`, rounded down.
pub open spec fn sqrt_floor(x: int) -> int {
    choose|r: int| is_sqrt_floor(x, r)
}

/// The rounded-down square root is unique.
pub proof fn lemma_sqrt_floor_unique(x: int, r1: int, r2: int)
    requires
        is_sqrt_floor(x, r1),
        is_sqrt_floor(x, r2),
    ensures
        r1 == r2,
{
    if r1 < r2 {
        assert((r1 + 1) * (r1 + 1) <= r2 * r2) by (nonlinear_arith)
            requires
                0 <= r1,
                r1 + 1 <= r2,
        ;
    }
    if r2 < r1 {
        assert((r2 + 1) * (r2 + 1) <= r1 * r1) by (nonlinear_arith)
            requires
                0 <= r2,
                r2 + 1 <= r1,
        ;
    }
}

/// Computes the rounded-down integer square root of a nonnegative machine
/// integer.
pub fn isqrt_i64(x: i64) -> (r: i64)
    requires
        x >= 0,
    ensures
        is_sqrt_floor(x as int, r as int),
        r == sqrt_floor(x as int),
        0 <= r <= x,
{
    let mut lo: i64 = 0;
    // 3037000500 squared exceeds every 64-bit signed value.
    let mut hi: i64 = if x < 3037000499 {
        x + 1
    } else {
        3037000500
    };
    proof {
        assert(x < 3037000499 ==> (x as int + 1) * (x as int + 1) > x) by (nonlinear_arith);
        assert(3037000500i64 as int * 3037000500i64 as int > i64::MAX);
    }
    while lo + 1 < hi
        invariant
            0 <= lo < hi <= 3037000500,
            lo * lo <= x,
            x < hi * hi,
            x >= 0,
        decreases hi - lo,
    {
        let mid: i64 = lo + (hi - lo) / 2;
        proof {
            assert(lo < mid < hi);
            assert(mid * mid <= 3037000499i64 * 3037000499i64) by (nonlinear_arith)
                requires
                    0 <= mid <= 3037000499i64,
            ;
        }
        if mid * mid <= x {
            lo = mid;
        } else {
            hi = mid;
        }
    }
    proof {
        lemma_sqrt_floor_unique(x as int, lo as int, sqrt_floor(x as int));
        assert(lo <= lo * lo) by (nonlinear_arith)
            requires
                lo == 0 || lo >= 1,
        ;
    }
    lo
}

/// Powers grow with the base.
pub proof fn lemma_pow_base_le(a: int, b: int, e: nat)
    requires
        0 <= a <= b,
    ensures
        0 <= pow(a, e) <= pow(b, e),
    decreases e,
{
    reveal(pow);
    if e > 0 {
        lemma_pow_base_le(a, b, (e - 1) as nat);
        assert(pow(a, e) == a * pow(a, (e - 1) as nat));
        assert(pow(b, e) == b * pow(b, (e - 1) as nat));
        assert(0 <= a * pow(a, (e - 1) as nat) <= b * pow(b, (e - 1) as nat)) by (nonlinear_arith)
            requires
                0 <= a <= b,
                0 <= pow(a, (e - 1) as nat) <= pow(b, (e - 1) as nat),
        ;
    }
}

/// Powers grow strictly with the base once the exponent is positive.
pub proof fn lemma_pow_base_lt(a: int, b: int, e: nat)
    requires
        0 <= a < b,
        e >= 1,
    ensures
        pow(a, e) < pow(b, e),
    decreases e,
{
    reveal(pow);
    lemma_pow_base_le(a, b, (e - 1) as nat);
    vstd::arithmetic::power::lemma_pow_positive(b, (e - 1) as nat);
    assert(pow(a, e) == a * pow(a, (e - 1) as nat));
    assert(pow(b, e) == b * pow(b, (e - 1) as nat));
    assert(a * pow(a, (e - 1) as nat) < b * pow(b, (e - 1) as nat)) by (nonlinear_arith)
        requires
            0 <= a < b,
            0 <= pow(a, (e - 1) as nat) <= pow(b, (e - 1) as nat),
            pow(b, (e - 1) as nat) >= 1,
    ;
}

/// Computes `base` to the power `exp`.  The result must fit in a machine
/// word, which bounds every intermediate power as well.
pub fn pow_i64(base: i64, exp: u32) -> (r: i64)
    requires
        base >= 1,
        pow(base as int, exp as nat) <= i64::MAX,
    ensures
        r == pow(base as int, exp as nat),
        r >= 1,
{
    let mut r: i64 = 1;
    let mut k: u32 = 0;
    proof {
        vstd::arithmetic::power::lemma_pow0(base as int);
    }
    while k < exp
        invariant
            0 <= k <= exp,
            base >= 1,
            pow(base as int, exp as nat) <= i64::MAX,
            r == pow(base as int, k as nat),
            r >= 1,
        decreases exp - k,
    {
        proof {
            lemma_pow_increases(base as nat, (k + 1) as nat, exp as nat);
            assert(pow(base as int, (k + 1) as nat) == pow(base as int, k as nat) * (base as int))
                by {
                vstd::arithmetic::power::lemma_pow_adds(base as int, k as nat, 1nat);
                vstd::arithmetic::power::lemma_pow1(base as int);
            }
            assert(pow(base as int, (k + 1) as nat) >= 1) by {
                vstd::arithmetic::power::lemma_pow_positive(base as int, (k + 1) as nat);
            }
        }
        r = r * base;
        k = k + 1;
    }
    r
}

/// Computes `base` to the power `exp` for a nonnegative base and a
/// positive exponent.
pub fn pow_nonneg_i64(base: i64, exp: u32) -> (r: i64)
    requires
        base >= 0,
        exp >= 1,
        pow(base as int, exp as nat) <= i64::MAX,
    ensures
        r == pow(base as int, exp as nat),
        r >= 0,
{
    if base == 0 {
        proof {
            vstd::arithmetic::power::lemma0_pow(exp as nat);
        }
        0
    } else {
        pow_i64(base, exp)
    }
}

} // verus!
