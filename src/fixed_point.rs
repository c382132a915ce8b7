//! Fixed-point numbers for world and pixel space.
//!
//! World lengths and positions are held in thousandths of a world unit,
//! positions and lengths on the offscreen target in millionths of a pixel.
//! A product of two world quantities (a length times a pixels-per-unit
//! factor) is then exactly a pixel quantity, with no rounding.
use vstd::arithmetic::div_mod::{lemma_fundamental_div_mod, lemma_fundamental_div_mod_converse};
use vstd::prelude::*;

verus! {

/// Subdivisions of one world unit.
pub const UNIT: i64 = 1000;

/// Subdivisions of one pixel of the offscreen target.
pub const PIXEL: i64 = 1_000_000;

/// `v / d` rounded to the nearest integer, halves away from zero.
pub open spec fn round_div(v: int, d: int) -> int {
    if v >= 0 {
        v / d + if 2 * (v % d) >= d { 1int } else { 0int }
    } else {
        -((-v) / d + if 2 * ((-v) % d) >= d { 1int } else { 0int })
    }
}

pub open spec fn abs(v: int) -> int {
    if v >= 0 { v } else { -v }
}

/// Rounding is off by at most half the divisor.
pub proof fn lemma_round_div_close(v: int, d: int)
    requires
        d > 0,
    ensures
        2 * abs(v - round_div(v, d) * d) <= d,
{
    let a = abs(v);
    lemma_fundamental_div_mod(a, d);
    let q = a / d;
    let r = a % d;
    assert(0 <= r < d);
    assert(d * q == q * d) by (nonlinear_arith);
    assert((q + 1) * d == q * d + d) by (nonlinear_arith);
    if v >= 0 {
        assert(a == q * d + r);
    } else {
        assert(-v == q * d + r);
        assert((-(q + 1)) * d == -((q + 1) * d)) by (nonlinear_arith);
        assert((-q) * d == -(q * d)) by (nonlinear_arith);
    }
}

/// An integer within less than half the divisor of `v` is the rounded quotient.
pub proof fn lemma_round_div_near(v: int, d: int, k: int)
    requires
        d > 0,
        2 * abs(v - k * d) < d,
    ensures
        round_div(v, d) == k,
{
    let a = abs(v);
    let ka = if v >= 0 { k } else { -k };
    assert((-k) * d == -(k * d)) by (nonlinear_arith);
    assert(2 * abs(a - ka * d) < d);
    let e = a - ka * d;
    if e >= 0 {
        lemma_fundamental_div_mod_converse(a, d, ka, e);
    } else {
        assert((ka - 1) * d == ka * d - d) by (nonlinear_arith);
        lemma_fundamental_div_mod_converse(a, d, ka - 1, d + e);
    }
}

/// Rounds `v / d` to the nearest integer, halves away from zero.
pub fn round_div_exec(v: i64, d: i64) -> (r: i64)
    requires
        d > 0,
        v > i64::MIN,
    ensures
        r == round_div(v as int, d as int),
{
    let a: i64 = if v >= 0 { v } else { -v };
    let q = a / d;
    let m = a % d;
    proof {
        lemma_fundamental_div_mod(a as int, d as int);
        assert(q <= d * q) by (nonlinear_arith)
            requires
                q >= 0,
                d >= 1,
        ;
    }
    let n: i64 = if m >= d - m { q + 1 } else { q };
    if v >= 0 { n } else { -n }
}

/// `v / d` with the fraction dropped, towards zero.
pub open spec fn trunc_div(v: int, d: int) -> int {
    if v >= 0 { v / d } else { -((-v) / d) }
}

/// Truncation never overshoots: the product keeps the sign of `v`, is no
/// larger in size, and what is left over is less than the divisor.
pub proof fn lemma_trunc_div(v: int, d: int)
    requires
        d > 0,
    ensures
        abs(trunc_div(v, d)) <= abs(v),
        abs(trunc_div(v, d) * d) <= abs(v),
        v >= 0 ==> 0 <= v - trunc_div(v, d) * d < d,
        v < 0 ==> -d < v - trunc_div(v, d) * d <= 0,
        trunc_div(v, d) != 0 ==> abs(trunc_div(v, d) * d) >= d,
{
    let a = abs(v);
    lemma_fundamental_div_mod(a, d);
    let q = a / d;
    assert(d * q == q * d) by (nonlinear_arith);
    assert(0 <= q <= q * d) by (nonlinear_arith)
        requires
            a == q * d + a % d,
            0 <= a % d < d,
            d >= 1,
            a >= 0,
    ;
    assert(q != 0 ==> q * d >= d) by (nonlinear_arith)
        requires
            q >= 0,
            d >= 1,
    ;
    assert((-q) * d == -(q * d)) by (nonlinear_arith);
}

/// Divides `v` by `d`, dropping the fraction towards zero.
pub fn trunc_div_exec(v: i64, d: i64) -> (r: i64)
    requires
        d > 0,
        v > i64::MIN,
    ensures
        r == trunc_div(v as int, d as int),
{
    if v >= 0 {
        v / d
    } else {
        let a = -v;
        -(a / d)
    }
}

/// How far a world coordinate `t`, scaled by `pixels_per_unit` (both in
/// thousandths), lies from the nearest whole pixel, in millionths of a pixel.
pub open spec fn pixel_fraction(t: int, pixels_per_unit: int) -> int {
    t * pixels_per_unit - round_div(t * pixels_per_unit, PIXEL as int) * PIXEL
}

/// The distance of a scaled world coordinate from its nearest whole pixel.
pub fn pixel_fraction_exec(t: i32, pixels_per_unit: u32) -> (r: i64)
    ensures
        r == pixel_fraction(t as int, pixels_per_unit as int),
        -PIXEL / 2 <= r <= PIXEL / 2,
{
    let ghost v = t * pixels_per_unit;
    proof {
        assert(-0x8000_0000 * 0xffff_ffff <= t * pixels_per_unit <= 0x7fff_ffff * 0xffff_ffff)
            by (nonlinear_arith)
            requires
                -0x8000_0000 <= t <= 0x7fff_ffff,
                0 <= pixels_per_unit <= 0xffff_ffff,
        ;
        lemma_round_div_close(v, PIXEL as int);
    }
    let scaled = (t as i64) * (pixels_per_unit as i64);
    let whole = round_div_exec(scaled, PIXEL);
    scaled - whole * PIXEL
}

/// A vector in world space, in thousandths of a unit.
#[derive(Clone, Copy, Debug, PartialEq, Eq, Structural)]
pub struct WorldVec2 {
    pub x: i32,
    pub y: i32,
}

/// A size in world space, in thousandths of a unit.
#[derive(Clone, Copy, Debug, PartialEq, Eq, Structural)]
pub struct WorldSize {
    pub width: u32,
    pub height: u32,
}

/// A vector on the offscreen target, in millionths of a pixel.
#[derive(Clone, Copy, Debug, PartialEq, Eq, Structural)]
pub struct PixelVec2 {
    pub x: i64,
    pub y: i64,
}

/// An axis-aligned rectangle on the offscreen target.
#[derive(Clone, Copy, Debug, PartialEq, Eq, Structural)]
pub struct PixelRect {
    pub min: PixelVec2,
    pub max: PixelVec2,
}

/// The size of an offscreen target, in whole pixels.
#[derive(Clone, Copy, Debug, PartialEq, Eq, Structural)]
pub struct TargetExtent {
    pub width: u32,
    pub height: u32,
}

} // verus!
