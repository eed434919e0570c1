//! Saturating fixed-point arithmetic with six decimal places.

use vstd::prelude::*;

verus! {

/// The number of units in one world unit.
pub const SCALE: i64 = 1_000_000;

/// The largest representable value, standing for "unbounded above".
pub const FX_MAX: i64 = 0x7fff_ffff_ffff_ffff;

/// The smallest representable value, standing for "unbounded below".
pub const FX_MIN: i64 = -0x8000_0000_0000_0000;

/// `v` clamped to the range of `i64`.
pub open spec fn sat(v: int) -> int {
    if v < FX_MIN {
        FX_MIN as int
    } else if v > FX_MAX {
        FX_MAX as int
    } else {
        v
    }
}

/// The quotient of `n` by `d` rounded toward zero, and 0 when `d` is 0.
pub open spec fn tdiv(n: int, d: int) -> int {
    if d > 0 {
        if n >= 0 {
            n / d
        } else {
            -((-n) / d)
        }
    } else if d < 0 {
        if n >= 0 {
            -(n / (-d))
        } else {
            (-n) / (-d)
        }
    } else {
        0
    }
}

/// The saturating sum.
pub open spec fn add_spec(a: int, b: int) -> int {
    sat(a + b)
}

/// The saturating difference.
pub open spec fn sub_spec(a: int, b: int) -> int {
    sat(a - b)
}

/// The saturating fixed-point product: `a * b / SCALE`, rounded toward zero.
pub open spec fn mul_spec(a: int, b: int) -> int {
    sat(tdiv(a * b, SCALE as int))
}

/// The saturating fixed-point quotient: `a * SCALE / b`, rounded toward zero.
/// Division by zero saturates in the direction of the sign of `a`.
pub open spec fn div_spec(a: int, b: int) -> int {
    if b == 0 {
        if a > 0 {
            FX_MAX as int
        } else if a < 0 {
            FX_MIN as int
        } else {
            0
        }
    } else {
        sat(tdiv(a * SCALE, b))
    }
}

/// The absolute value, saturating at `FX_MAX`.
pub open spec fn abs_spec(a: int) -> int {
    if a < 0 {
        sat(-a)
    } else {
        a
    }
}

/// The smaller of two values.
pub open spec fn min_spec(a: int, b: int) -> int {
    if a <= b {
        a
    } else {
        b
    }
}

/// The larger of two values.
pub open spec fn max_spec(a: int, b: int) -> int {
    if a >= b {
        a
    } else {
        b
    }
}

/// `v` limited to the interval from `lo` to `hi`.
pub open spec fn clamp_spec(v: int, lo: int, hi: int) -> int {
    if v < lo {
        lo
    } else if v > hi {
        hi
    } else {
        v
    }
}

/// A quotient rounded toward zero is no larger in size than its numerator.
pub proof fn lemma_tdiv_bounds(n: int, d: int)
    requires
        d != 0,
    ensures
        -abs_int(n) <= tdiv(n, d) <= abs_int(n),
{
    let m = abs_int(n);
    let e = abs_int(d);
    assert(0 <= m / e <= m) by (nonlinear_arith)
        requires
            m >= 0,
            e > 0,
    ;
}

/// The mathematical absolute value.
pub open spec fn abs_int(n: int) -> int {
    if n < 0 {
        -n
    } else {
        n
    }
}

fn clamp_wide(v: i128) -> (r: i64)
    ensures
        r == sat(v as int),
{
    if v < -0x8000_0000_0000_0000 {
        FX_MIN
    } else if v > 0x7fff_ffff_ffff_ffff {
        FX_MAX
    } else {
        v as i64
    }
}

fn tdiv_wide(n: i128, d: i128) -> (r: i128)
    requires
        d != 0,
        -0x4000_0000_0000_0000_0000_0000_0000_0000 <= n <= 0x4000_0000_0000_0000_0000_0000_0000_0000,
        -0x4000_0000_0000_0000_0000_0000_0000_0000 <= d <= 0x4000_0000_0000_0000_0000_0000_0000_0000,
    ensures
        r == tdiv(n as int, d as int),
{
    proof {
        lemma_tdiv_bounds(n as int, d as int);
    }
    if d > 0 {
        n / d
    } else {
        let e: i128 = -d;
        let q: i128 = n / e;
        -q
    }
}

/// Adds two fixed-point values, saturating.
pub fn fx_add(a: i64, b: i64) -> (r: i64)
    ensures
        r == add_spec(a as int, b as int),
{
    clamp_wide(a as i128 + b as i128)
}

/// Subtracts `b` from `a`, saturating.
pub fn fx_sub(a: i64, b: i64) -> (r: i64)
    ensures
        r == sub_spec(a as int, b as int),
{
    clamp_wide(a as i128 - b as i128)
}

/// Negates a value, saturating.
pub fn fx_neg(a: i64) -> (r: i64)
    ensures
        r == sat(-(a as int)),
{
    clamp_wide(-(a as i128))
}

/// Multiplies two fixed-point values, rounding toward zero and saturating.
pub fn fx_mul(a: i64, b: i64) -> (r: i64)
    ensures
        r == mul_spec(a as int, b as int),
{
    let x: i128 = a as i128;
    let y: i128 = b as i128;
    assert(-0x4000_0000_0000_0000_0000_0000_0000_0000 <= x * y
        <= 0x4000_0000_0000_0000_0000_0000_0000_0000) by (nonlinear_arith)
        requires
            -0x8000_0000_0000_0000 <= x <= 0x8000_0000_0000_0000,
            -0x8000_0000_0000_0000 <= y <= 0x8000_0000_0000_0000,
    ;
    clamp_wide(tdiv_wide(x * y, SCALE as i128))
}

/// Divides `a` by `b`, rounding toward zero and saturating. A zero divisor
/// gives the saturated value on the side of the sign of `a`.
pub fn fx_div(a: i64, b: i64) -> (r: i64)
    ensures
        r == div_spec(a as int, b as int),
{
    if b == 0 {
        if a > 0 {
            FX_MAX
        } else if a < 0 {
            FX_MIN
        } else {
            0
        }
    } else {
        let x: i128 = a as i128;
        let n: i128 = x * 1_000_000;
        clamp_wide(tdiv_wide(n, b as i128))
    }
}

/// The absolute value, saturating at `FX_MAX`.
pub fn fx_abs(a: i64) -> (r: i64)
    ensures
        r == abs_spec(a as int),
        r >= 0,
{
    if a < 0 {
        fx_neg(a)
    } else {
        a
    }
}

/// The smaller of two values.
pub fn fx_min(a: i64, b: i64) -> (r: i64)
    ensures
        r == min_spec(a as int, b as int),
{
    if a <= b {
        a
    } else {
        b
    }
}

/// The larger of two values.
pub fn fx_max(a: i64, b: i64) -> (r: i64)
    ensures
        r == max_spec(a as int, b as int),
{
    if a >= b {
        a
    } else {
        b
    }
}

/// Limits `v` to the interval from `lo` to `hi`.
pub fn fx_clamp(v: i64, lo: i64, hi: i64) -> (r: i64)
    ensures
        r == clamp_spec(v as int, lo as int, hi as int),
{
    if v < lo {
        lo
    } else if v > hi {
        hi
    } else {
        v
    }
}

/// `r` is the fixed-point square root of `a`, rounded down: the largest `r`
/// with `r * r <= a * SCALE`.
pub open spec fn is_sqrt(a: int, r: int) -> bool {
    0 <= r && r * r <= a * SCALE && a * SCALE < (r + 1) * (r + 1)
}

/// The fixed-point square root of `a` rounded down, and 0 for a negative `a`.
pub open spec fn sqrt_spec(a: int) -> int {
    if a < 0 {
        0
    } else {
        choose|r: int| is_sqrt(a, r)
    }
}

/// A number has at most one rounded-down square root.
pub proof fn lemma_sqrt_unique(a: int, r: int, s: int)
    requires
        is_sqrt(a, r),
        is_sqrt(a, s),
    ensures
        r == s,
{
    let n = a * SCALE;
    assert(r == s) by (nonlinear_arith)
        requires
            0 <= r,
            0 <= s,
            r * r <= n,
            n < (r + 1) * (r + 1),
            s * s <= n,
            n < (s + 1) * (s + 1),
    ;
}

/// The square root of a fixed-point value, rounded down; 0 for a negative value.
pub fn fx_sqrt(a: i64) -> (r: i64)
    ensures
        r == sqrt_spec(a as int),
        a >= 0 ==> is_sqrt(a as int, r as int),
        0 <= r <= 4_000_000_000_000,
{
    if a < 0 {
        return 0;
    }
    let n: i128 = (a as i128) * 1_000_000;
    let mut lo: i128 = 0;
    let mut hi: i128 = 4_000_000_000_000;
    assert(n < hi * hi) by (nonlinear_arith)
        requires
            n <= 0x7fff_ffff_ffff_ffff * 1_000_000,
            hi == 4_000_000_000_000,
    ;
    while hi - lo > 1
        invariant
            0 <= lo < hi <= 4_000_000_000_000,
            lo * lo <= n,
            n < hi * hi,
        decreases hi - lo,
    {
        let mid: i128 = lo + (hi - lo) / 2;
        assert(0 <= mid * mid <= 16_000_000_000_000_000_000_000_000) by (nonlinear_arith)
            requires
                0 <= mid <= 4_000_000_000_000,
        ;
        if mid * mid <= n {
            lo = mid;
        } else {
            hi = mid;
        }
    }
    proof {
        assert(is_sqrt(a as int, lo as int));
        let c = choose|r: int| is_sqrt(a as int, r);
        lemma_sqrt_unique(a as int, lo as int, c);
    }
    lo as i64
}

/// Rounding toward zero keeps the order of numerators over a positive divisor.
pub proof fn lemma_tdiv_grows(a: int, b: int, d: int)
    requires
        a <= b,
        d > 0,
    ensures
        tdiv(a, d) <= tdiv(b, d),
{
    if a >= 0 {
        vstd::arithmetic::div_mod::lemma_div_is_ordered(a, b, d);
    } else if b >= 0 {
        vstd::arithmetic::div_mod::lemma_div_is_ordered(0, -a, d);
        vstd::arithmetic::div_mod::lemma_div_is_ordered(0, b, d);
    } else {
        vstd::arithmetic::div_mod::lemma_div_is_ordered(-b, -a, d);
    }
}

/// Dividing by the opposite divisor gives the opposite quotient.
pub proof fn lemma_tdiv_neg(n: int, d: int)
    ensures
        tdiv(n, -d) == -tdiv(n, d),
{
}

/// The fixed-point quotient grows with its numerator over a positive
/// divisor and falls with it over a negative one.
pub proof fn lemma_div_grows(a: int, b: int, d: int)
    requires
        a <= b,
    ensures
        d > 0 ==> div_spec(a, d) <= div_spec(b, d),
        d < 0 ==> div_spec(a, d) >= div_spec(b, d),
{
    if d > 0 {
        lemma_tdiv_grows(a * SCALE, b * SCALE, d);
    }
    if d < 0 {
        lemma_tdiv_grows(a * SCALE, b * SCALE, -d);
        lemma_tdiv_neg(a * SCALE, -d);
        lemma_tdiv_neg(b * SCALE, -d);
    }
}

/// The fixed-point product with one is the other factor.
pub proof fn lemma_mul_one(x: int)
    requires
        FX_MIN <= x <= FX_MAX,
    ensures
        mul_spec(SCALE as int, x) == x,
{
    vstd::arithmetic::div_mod::lemma_div_multiples_vanish(x, SCALE as int);
    vstd::arithmetic::div_mod::lemma_div_multiples_vanish(-x, SCALE as int);
    assert(SCALE * (-x) == -(SCALE * x)) by (nonlinear_arith);
    assert(x >= 0 ==> SCALE * x >= 0) by (nonlinear_arith);
    assert(x < 0 ==> SCALE * x < 0) by (nonlinear_arith);
}

/// The fixed-point product with minus one is the opposite of the other factor.
pub proof fn lemma_mul_minus_one(x: int)
    requires
        FX_MIN < x <= FX_MAX,
    ensures
        mul_spec(-SCALE, x) == -x,
        mul_spec(x, -SCALE) == -x,
{
    vstd::arithmetic::div_mod::lemma_div_multiples_vanish(x, SCALE as int);
    vstd::arithmetic::div_mod::lemma_div_multiples_vanish(-x, SCALE as int);
    assert((-SCALE) * x == SCALE * (-x) && x * (-SCALE) == SCALE * (-x) && -(SCALE * (-x)) == SCALE
        * x) by (nonlinear_arith);
    assert(x >= 0 ==> SCALE * (-x) <= 0 && SCALE * x >= 0) by (nonlinear_arith);
    assert(x < 0 ==> SCALE * (-x) > 0) by (nonlinear_arith);
}

/// The fixed-point product with zero is zero.
pub proof fn lemma_mul_zero(b: int)
    ensures
        mul_spec(0, b) == 0,
{
    assert(0 * b == 0) by (nonlinear_arith);
    assert(SCALE == 1_000_000);
    assert(tdiv(0, SCALE as int) == 0);
}

} // verus!
