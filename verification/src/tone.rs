//! Gamma and tone mapping between 8-bit display values and linear light.

use vstd::prelude::*;
use crate::color::Color;
use crate::fixed::{
    add_spec, clamp_spec, div_spec, fx_add, fx_clamp, fx_div, fx_mul, lemma_mul_zero, mul_spec,
    SCALE,
};
use crate::vec3::Vec3;

verus! {

/// The fifth power.
pub open spec fn pow5(r: int) -> int {
    (r * r) * (r * r) * r
}

/// The largest `r` from 0 to `k` whose fifth power does not exceed `n`;
/// 0 if there is none.
pub open spec fn root5_upto(n: int, k: nat) -> int
    decreases k,
{
    if k == 0 {
        0
    } else if pow5(k as int) <= n {
        k as int
    } else {
        root5_upto(n, (k - 1) as nat)
    }
}

/// `x` limited to the interval from 0 to 1.
pub open spec fn unit(x: int) -> int {
    clamp_spec(x, 0, SCALE as int)
}

/// The fifth root of a fixed-point value between 0 and 1, rounded down.
pub open spec fn root5_spec(x: int) -> int {
    root5_upto(
        unit(x) * (SCALE as int * SCALE as int * SCALE as int * SCALE as int),
        SCALE as nat,
    )
}

/// The display value `x`, between 0 and 1, as linear light: `x` to the
/// power 2.2, taken as the square times the fifth root.
pub open spec fn decode_spec(x: int) -> int {
    mul_spec(mul_spec(unit(x), unit(x)), root5_spec(x))
}

/// The fixed-point value of the byte `b`: `b / 255`.
pub open spec fn byte_level(b: int) -> int {
    (b * SCALE) / 255
}

/// The linear light of the byte `b`.
pub open spec fn decode_byte(b: int) -> int {
    decode_spec(byte_level(b))
}

/// `b` is the display byte of the linear value `x`: the largest byte whose
/// linear light does not exceed `x`.
pub open spec fn is_encoded(x: int, b: int) -> bool {
    &&& 0 <= b <= 255
    &&& decode_byte(b) <= unit(x)
    &&& b == 255 || unit(x) < decode_byte(b + 1)
}

/// The display byte of the linear value `x`, limited to the interval from 0 to 1.
pub open spec fn encode_spec(x: int) -> int {
    choose|b: int| is_encoded(x, b)
}

/// The tone curve `x / (1 + x)`.
pub open spec fn reinhard(x: int) -> int {
    div_spec(x, add_spec(SCALE as int, x))
}

/// The display byte of the linear value `x` under the tone curve.
pub open spec fn tone_byte(x: int) -> int {
    encode_spec(reinhard(x))
}

/// The three channels of a colour as linear light.
pub open spec fn linear_of(c: Color) -> Vec3 {
    Vec3 {
        x: decode_byte(c.r as int) as i64,
        y: decode_byte(c.g as int) as i64,
        z: decode_byte(c.b as int) as i64,
    }
}

/// The three channels of a colour as fractions of full scale, gamma kept.
pub open spec fn levels_of(c: Color) -> Vec3 {
    Vec3 {
        x: byte_level(c.r as int) as i64,
        y: byte_level(c.g as int) as i64,
        z: byte_level(c.b as int) as i64,
    }
}

/// The opaque display colour of a linear colour under the tone curve.
pub open spec fn tone_map_spec(c: Vec3) -> Color {
    Color {
        r: tone_byte(c.x as int) as u8,
        g: tone_byte(c.y as int) as u8,
        b: tone_byte(c.z as int) as u8,
        a: 255,
    }
}

/// Products of non-negative numbers grow with their factors.
pub proof fn lemma_product_grows(a: int, b: int, c: int, d: int)
    by (nonlinear_arith)
    requires
        0 <= a <= b,
        0 <= c <= d,
    ensures
        0 <= a * c <= b * d,
{
}

/// The fifth power grows with its base.
pub proof fn lemma_pow5_grows(a: int, b: int)
    requires
        0 <= a <= b,
    ensures
        0 <= pow5(a) <= pow5(b),
{
    lemma_product_grows(a, b, a, b);
    lemma_product_grows(a * a, b * b, a * a, b * b);
    lemma_product_grows((a * a) * (a * a), (b * b) * (b * b), a, b);
}

/// What `root5_upto` returns: a value in range, whose fifth power does not
/// exceed `n` if `n` is not negative, and above which no fifth power up to
/// that of `k` does.
pub proof fn lemma_root5_upto(n: int, k: nat)
    requires
        0 <= n,
    ensures
        0 <= root5_upto(n, k) <= k,
        pow5(root5_upto(n, k)) <= n,
        root5_upto(n, k) < k ==> n < pow5(root5_upto(n, k) + 1),
    decreases k,
{
    if k == 0 {
        assert(pow5(0) == 0) by (nonlinear_arith);
    } else if pow5(k as int) <= n {
    } else {
        lemma_root5_upto(n, (k - 1) as nat);
    }
}

/// A value in range whose fifth power does not exceed `n`, while that of
/// its successor does, is the root.
pub proof fn lemma_root5_is(n: int, k: nat, r: int)
    requires
        0 <= n,
        0 <= r <= k,
        pow5(r) <= n,
        r < k ==> n < pow5(r + 1),
    ensures
        root5_upto(n, k) == r,
    decreases k,
{
    if k == 0 {
    } else if r == k {
    } else {
        lemma_pow5_grows(r + 1, k as int);
        lemma_root5_is(n, (k - 1) as nat, r);
    }
}

/// The root grows with its argument.
pub proof fn lemma_root5_grows(n1: int, n2: int, k: nat)
    requires
        0 <= n1 <= n2,
    ensures
        root5_upto(n1, k) <= root5_upto(n2, k),
    decreases k,
{
    if k == 0 {
    } else if pow5(k as int) <= n1 {
    } else if pow5(k as int) <= n2 {
        lemma_root5_upto(n1, (k - 1) as nat);
    } else {
        lemma_root5_grows(n1, n2, (k - 1) as nat);
    }
}

/// The fixed-point product of non-negative values grows with its factors.
pub proof fn lemma_mul_grows(a: int, b: int, c: int, d: int)
    requires
        0 <= a <= b,
        0 <= c <= d,
    ensures
        0 <= mul_spec(a, c) <= mul_spec(b, d),
{
    lemma_product_grows(a, b, c, d);
}

/// Linear light grows with the display value.
pub proof fn lemma_decode_grows(x: int, y: int)
    requires
        x <= y,
    ensures
        0 <= decode_spec(x) <= decode_spec(y),
{
    let s4 = SCALE as int * SCALE as int * SCALE as int * SCALE as int;
    let a = unit(x);
    let b = unit(y);
    assert(s4 == 1_000_000_000_000_000_000_000_000) by (nonlinear_arith)
        requires
            s4 == SCALE as int * SCALE as int * SCALE as int * SCALE as int,
            SCALE == 1_000_000,
    ;
    lemma_mul_grows(a, b, a, b);
    lemma_product_grows(a, b, s4, s4);
    lemma_root5_grows(a * s4, b * s4, SCALE as nat);
    lemma_root5_upto(a * s4, SCALE as nat);
    lemma_mul_grows(mul_spec(a, a), mul_spec(b, b), root5_spec(x), root5_spec(y));
}

/// A linear value has one display byte.
pub proof fn lemma_encoded_unique(x: int, b1: int, b2: int)
    requires
        is_encoded(x, b1),
        is_encoded(x, b2),
    ensures
        b1 == b2,
{
    if b1 < b2 {
        lemma_decode_grows(byte_level(b1 + 1), byte_level(b2));
    }
    if b2 < b1 {
        lemma_decode_grows(byte_level(b2 + 1), byte_level(b1));
    }
}

/// Every linear value has a display byte at or above any byte whose linear
/// light it reaches.
pub proof fn lemma_encoded_exists(x: int, b: int)
    requires
        0 <= b <= 255,
        decode_byte(b) <= unit(x),
    ensures
        exists|c: int| is_encoded(x, c),
    decreases 255 - b,
{
    if b == 255 || unit(x) < decode_byte(b + 1) {
        assert(is_encoded(x, b));
    } else {
        lemma_encoded_exists(x, b + 1);
    }
}

/// The darkest byte has no light.
pub proof fn lemma_decode_zero()
    ensures
        decode_byte(0) == 0,
{
    lemma_mul_zero(0);
    lemma_mul_zero(root5_spec(0));
}

/// A tone-mapped channel is a byte whatever the linear value: the largest
/// whose linear light the compressed value reaches.
pub proof fn lemma_tone_byte_in_range(x: int)
    ensures
        0 <= tone_byte(x) <= 255,
        is_encoded(reinhard(x), tone_byte(x)),
{
    lemma_decode_zero();
    lemma_encoded_exists(reinhard(x), 0);
}

/// The fifth root of a value between 0 and 1, rounded down; values outside
/// are limited to that interval first.
pub fn fx_root5(x: i64) -> (r: i64)
    ensures
        r == root5_spec(x as int),
        0 <= r <= SCALE,
{
    let u: i128 = fx_clamp(x, 0, SCALE) as i128;
    let n: i128 = u * 1_000_000_000_000_000_000_000_000;
    let mut lo: i128 = 0;
    let mut hi: i128 = 1_000_001;
    proof {
        assert(pow5(0) == 0) by (nonlinear_arith);
        assert(pow5(1_000_001) > 1_000_000 * 1_000_000_000_000_000_000_000_000) by (nonlinear_arith);
    }
    while hi - lo > 1
        invariant
            0 <= lo < hi <= 1_000_001,
            0 <= n <= 1_000_000 * 1_000_000_000_000_000_000_000_000,
            pow5(lo as int) <= n,
            n < pow5(hi as int),
        decreases hi - lo,
    {
        let mid: i128 = lo + (hi - lo) / 2;
        assert(0 <= mid * mid <= 1_000_002_000_001) by (nonlinear_arith)
            requires
                0 <= mid <= 1_000_001,
        ;
        let sq: i128 = mid * mid;
        assert(0 <= sq * sq <= 1_000_002_000_001 * 1_000_002_000_001) by (nonlinear_arith)
            requires
                0 <= sq <= 1_000_002_000_001,
        ;
        let qu: i128 = sq * sq;
        assert(0 <= qu * mid <= 1_000_002_000_001 * 1_000_002_000_001 * 1_000_001)
            by (nonlinear_arith)
            requires
                0 <= qu <= 1_000_002_000_001 * 1_000_002_000_001,
                0 <= mid <= 1_000_001,
        ;
        let p: i128 = qu * mid;
        assert(p == pow5(mid as int));
        if p <= n {
            lo = mid;
        } else {
            hi = mid;
        }
    }
    proof {
        assert(SCALE as int * SCALE as int * SCALE as int * SCALE as int
            == 1_000_000_000_000_000_000_000_000) by (nonlinear_arith)
            requires
                SCALE == 1_000_000,
        ;
        if lo > 1_000_000 {
            lemma_pow5_grows(1_000_001, lo as int);
        }
        lemma_root5_is(n as int, SCALE as nat, lo as int);
    }
    lo as i64
}

/// The linear light of a display value between 0 and 1.
pub fn fx_decode(x: i64) -> (r: i64)
    ensures
        r == decode_spec(x as int),
{
    let u = fx_clamp(x, 0, SCALE);
    fx_mul(fx_mul(u, u), fx_root5(x))
}

fn level_of(b: u8) -> (r: i64)
    ensures
        r == byte_level(b as int),
        0 <= r <= SCALE,
{
    ((b as i64) * 1_000_000) / 255
}

fn decode_level(b: u8) -> (r: i64)
    ensures
        r == decode_byte(b as int),
{
    fx_decode(level_of(b))
}

/// The display byte of a linear value: the largest byte whose linear light
/// does not exceed the value, which is limited to 0 to 1 first.
pub fn fx_encode(x: i64) -> (b: u8)
    ensures
        b == encode_spec(x as int),
        is_encoded(x as int, b as int),
{
    let u = fx_clamp(x, 0, SCALE);
    let mut lo: u16 = 0;
    let mut hi: u16 = 256;
    proof {
        lemma_decode_grows(0, 0);
        assert(byte_level(0) == 0);
        assert(pow5(0) == 0) by (nonlinear_arith);
        assert(decode_byte(0) == 0) by {
            let r = root5_spec(0);
            lemma_mul_zero(0);
            lemma_mul_zero(r);
        }
    }
    while hi - lo > 1
        invariant
            0 <= lo < hi <= 256,
            u == unit(x as int),
            decode_byte(lo as int) <= u,
            hi == 256 || u < decode_byte(hi as int),
        decreases hi - lo,
    {
        let mid: u16 = lo + (hi - lo) / 2;
        let level = decode_level(mid as u8);
        if level <= u {
            lo = mid;
        } else {
            hi = mid;
        }
    }
    proof {
        assert(is_encoded(x as int, lo as int));
        let c = choose|c: int| is_encoded(x as int, c);
        lemma_encoded_unique(x as int, lo as int, c);
    }
    lo as u8
}

/// The colour's channels as linear light.
pub fn srgb_to_linear(c: Color) -> (r: Vec3)
    ensures
        r == linear_of(c),
{
    Vec3 { x: decode_level(c.r), y: decode_level(c.g), z: decode_level(c.b) }
}

/// The colour's channels as fractions of full scale.
pub fn color_levels(c: Color) -> (r: Vec3)
    ensures
        r == levels_of(c),
{
    Vec3 { x: level_of(c.r), y: level_of(c.g), z: level_of(c.b) }
}

fn tone_channel(x: i64) -> (b: u8)
    ensures
        b == tone_byte(x as int),
{
    fx_encode(fx_div(x, fx_add(SCALE, x)))
}

/// Maps a linear colour to the display: the tone curve `x / (1 + x)`, the
/// limit to 0 to 1, the gamma encoding and the scale to 8 bits, with full
/// alpha.
pub fn tone_map(c: &Vec3) -> (r: Color)
    ensures
        r == tone_map_spec(*c),
{
    Color { r: tone_channel(c.x), g: tone_channel(c.y), b: tone_channel(c.z), a: 255 }
}

} // verus!
