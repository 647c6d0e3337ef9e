//! 16.16 fixed-point scalars and integer 2-vectors.
//!
//! A fixed-point value is an `i32` whose low 16 bits are the fraction. The
//! conversions are the two shifts that define the format: [`itof`] scales an
//! integer pixel up by 2^16 and [`ftoi`] drops the fraction, rounding toward
//! negative infinity.

use vstd::prelude::*;

verus! {

/// A 16.16 fixed-point value.
pub type Fixed = i32;

/// One pixel in 16.16 fixed point.
pub const FIXED_ONE: i32 = 65536;

/// The integer pixel of a fixed-point value: `floor(x / 2^16)`.
pub open spec fn spec_ftoi(x: i32) -> int {
    x as int / 65536
}

/// Integer part of a fixed-point value (arithmetic shift right by 16).
pub fn ftoi(x: Fixed) -> (r: i32)
    ensures
        r == spec_ftoi(x),
        -32768 <= r <= 32767,
{
    let r = x >> 16u32;
    assert(r == x as int / 65536 && -32768 <= r <= 32767) by (bit_vector)
        requires
            r == x >> 16u32;
    r
}

/// The fixed-point value of the integer pixel `x` (shift left by 16).
pub fn itof(x: i32) -> (r: Fixed)
    requires
        -32768 <= x <= 32767,
    ensures
        r == x * 65536,
{
    x * 65536
}

/// The integer part of a fixed-point value lies in `[-32768, 32767]`.
pub proof fn lemma_ftoi_range(v: i32)
    ensures
        -32768 <= spec_ftoi(v) <= 32767,
{
}

/// Dropping the fraction of a whole pixel gives the pixel back.
pub proof fn lemma_ftoi_itof(v: int)
    requires
        -32768 <= v <= 32767,
    ensures
        spec_ftoi((v * 65536) as i32) == v,
{
    assert(-2147483648 <= v * 65536 <= 2147418112) by (nonlinear_arith)
        requires -32768 <= v <= 32767;
    assert((v * 65536) / 65536 == v) by (nonlinear_arith);
}

/// An integer 2-vector: a fixed-point position or velocity, or a pixel pair.
#[derive(Clone, Copy, PartialEq, Eq, Debug, Default)]
pub struct Vec2 {
    pub x: i32,
    pub y: i32,
}

impl Vec2 {
    /// The vector `(x, y)`.
    pub fn new(x: i32, y: i32) -> (r: Vec2)
        ensures
            r.x == x,
            r.y == y,
    {
        Vec2 { x, y }
    }

    /// The zero vector.
    pub fn zero() -> (r: Vec2)
        ensures
            r.x == 0,
            r.y == 0,
    {
        Vec2 { x: 0, y: 0 }
    }

    /// Componentwise sum with two's-complement wrap-around.
    pub fn add(self, o: Vec2) -> (r: Vec2)
        ensures
            r.x == vstd::wrapping::i32_specs::wrapping_add(self.x, o.x),
            r.y == vstd::wrapping::i32_specs::wrapping_add(self.y, o.y),
    {
        Vec2 { x: self.x.wrapping_add(o.x), y: self.y.wrapping_add(o.y) }
    }

    /// Componentwise difference with two's-complement wrap-around.
    pub fn sub(self, o: Vec2) -> (r: Vec2)
        ensures
            r.x == vstd::wrapping::i32_specs::wrapping_sub(self.x, o.x),
            r.y == vstd::wrapping::i32_specs::wrapping_sub(self.y, o.y),
    {
        Vec2 { x: self.x.wrapping_sub(o.x), y: self.y.wrapping_sub(o.y) }
    }

    /// Scaling by `k` with two's-complement wrap-around.
    pub fn mul(self, k: i32) -> (r: Vec2)
        ensures
            r.x == vstd::wrapping::i32_specs::wrapping_mul(self.x, k),
            r.y == vstd::wrapping::i32_specs::wrapping_mul(self.y, k),
    {
        Vec2 { x: self.x.wrapping_mul(k), y: self.y.wrapping_mul(k) }
    }

    /// Componentwise division by `d`, truncating toward zero.
    pub fn div(self, d: i32) -> (r: Vec2)
        requires
            d != 0,
        ensures
            r.x == spec_wrapping_div(self.x, d),
            r.y == spec_wrapping_div(self.y, d),
    {
        Vec2 { x: wrapping_div_i32(self.x, d), y: wrapping_div_i32(self.y, d) }
    }
}

/// `v` scaled by `k`, then divided by `d` truncating toward zero, then `o` added.
pub open spec fn scaled_add(v: Vec2, k: i32, d: i32, o: Vec2) -> Vec2 {
    Vec2 {
        x: vstd::wrapping::i32_specs::wrapping_add(
            spec_wrapping_div(vstd::wrapping::i32_specs::wrapping_mul(v.x, k), d), o.x),
        y: vstd::wrapping::i32_specs::wrapping_add(
            spec_wrapping_div(vstd::wrapping::i32_specs::wrapping_mul(v.y, k), d), o.y),
    }
}

/// `v` divided by `d` componentwise, truncating toward zero.
pub open spec fn vec_div(v: Vec2, d: i32) -> Vec2 {
    Vec2 { x: spec_wrapping_div(v.x, d), y: spec_wrapping_div(v.y, d) }
}

/// The componentwise wrapping sum.
pub open spec fn vec_add(a: Vec2, b: Vec2) -> Vec2 {
    Vec2 {
        x: vstd::wrapping::i32_specs::wrapping_add(a.x, b.x),
        y: vstd::wrapping::i32_specs::wrapping_add(a.y, b.y),
    }
}

// ---------------------------------------------------------------------------
// i32 helpers with two's-complement semantics
// ---------------------------------------------------------------------------

/// `|v|` for a value whose magnitude fits `i32`.
pub fn abs_i32(v: i32) -> (r: i32)
    requires
        v != i32::MIN,
    ensures
        r == if v < 0 { -v } else { v as int },
{
    if v < 0 { -v } else { v }
}

/// `-v`, with `i32::MIN` mapping to itself.
pub open spec fn spec_wrapping_neg(v: i32) -> i32 {
    if v == i32::MIN { i32::MIN } else { (-v) as i32 }
}

/// Two's-complement negation.
pub fn wrapping_neg_i32(v: i32) -> (r: i32)
    ensures
        r == spec_wrapping_neg(v),
{
    if v == i32::MIN { i32::MIN } else { -v }
}

/// `|v|`, with `i32::MIN` mapping to itself.
pub open spec fn spec_wrapping_abs(v: i32) -> i32 {
    if v == i32::MIN { i32::MIN } else if v < 0 { (-v) as i32 } else { v }
}

/// Two's-complement absolute value.
pub fn wrapping_abs_i32(v: i32) -> (r: i32)
    ensures
        r == spec_wrapping_abs(v),
{
    if v == i32::MIN { i32::MIN } else if v < 0 { -v } else { v }
}

/// Division truncating toward zero: the quotient of the magnitudes, negated
/// when the signs differ.
pub open spec fn trunc_div(x: int, d: int) -> int {
    if x == 0 {
        0
    } else if x > 0 && d > 0 {
        x / d
    } else if x < 0 && d < 0 {
        (-x) / (-d)
    } else if x < 0 {
        -((-x) / d)
    } else {
        -(x / (-d))
    }
}

/// A truncated quotient never exceeds the dividend in magnitude, and reaches
/// 2^31 from an `i32` dividend only for `i32::MIN / -1`.
pub proof fn lemma_trunc_div_range(x: int, d: int)
    requires
        d != 0,
        i32::MIN <= x <= i32::MAX,
        i32::MIN <= d <= i32::MAX,
    ensures
        i32::MIN <= trunc_div(x, d),
        trunc_div(x, d) <= i32::MAX || (x == i32::MIN && d == -1),
{
    if x > 0 && d > 0 {
        assert(x / d <= x) by (nonlinear_arith) requires x > 0, d > 0;
        assert(x / d >= 0) by (nonlinear_arith) requires x > 0, d > 0;
    } else if x < 0 && d < 0 {
        assert((-x) / (-d) <= -x) by (nonlinear_arith) requires x < 0, d < 0;
        assert((-x) / (-d) >= 0) by (nonlinear_arith) requires x < 0, d < 0;
        if d < -1 {
            assert((-x) / (-d) <= (-x) / 2) by (nonlinear_arith) requires x < 0, d < -1;
        }
    } else if x < 0 {
        assert((-x) / d <= -x) by (nonlinear_arith) requires x < 0, d > 0;
        assert((-x) / d >= 0) by (nonlinear_arith) requires x < 0, d > 0;
    } else if x > 0 {
        assert(x / (-d) <= x) by (nonlinear_arith) requires x > 0, d < 0;
        assert(x / (-d) >= 0) by (nonlinear_arith) requires x > 0, d < 0;
    }
}

/// `a / b` truncating toward zero, with `i32::MIN / -1` wrapping to `i32::MIN`.
pub open spec fn spec_wrapping_div(a: i32, b: i32) -> i32 {
    if a == i32::MIN && b == -1 { i32::MIN } else { trunc_div(a as int, b as int) as i32 }
}

/// Two's-complement division truncating toward zero; `i32::MIN / -1` wraps to
/// `i32::MIN`.
pub fn wrapping_div_i32(a: i32, b: i32) -> (r: i32)
    requires
        b != 0,
    ensures
        r == spec_wrapping_div(a, b),
{
    proof {
        lemma_trunc_div_range(a as int, b as int);
    }
    if a == i32::MIN && b == -1 {
        assert(trunc_div(a as int, b as int) == 0x8000_0000) by {
            assert((0x8000_0000int) / 1 == 0x8000_0000) by (nonlinear_arith);
        }
    }
    match a.checked_div(b) {
        Some(q) => {
            assert(q == trunc_div(a as int, b as int));
            q
        },
        None => i32::MIN,
    }
}

/// A wrapping product that fits `i32` is the plain product.
pub proof fn lemma_wrapping_mul_exact(a: i32, b: i32)
    requires
        i32::MIN <= a * b <= i32::MAX,
    ensures
        vstd::wrapping::i32_specs::wrapping_mul(a, b) == a * b,
{
    let x = a * b;
    if x >= 0 {
        assert(x % 0x1_0000_0000int == x) by (nonlinear_arith)
            requires 0 <= x < 0x1_0000_0000int;
    } else {
        assert(x % 0x1_0000_0000int == x + 0x1_0000_0000int) by (nonlinear_arith)
            requires -0x8000_0000int <= x < 0;
    }
}

} // verus!
