//! Fixed-point trigonometry over milli-degree angles.
//!
//! Sine and cosine use a rational approximation on the half turn, scaled by
//! `TRIG_SCALE`; the inverse tangent uses an octant reduction with a
//! polynomial approximation. Every function's contract gives its result
//! exactly as the spec mirror of its own integer formula, so callers reason
//! about one fixed formula rather than about real-valued trigonometry.

use vstd::prelude::*;
use vstd::arithmetic::div_mod::{
    lemma_add_mod_noop, lemma_div_is_ordered, lemma_div_multiples_vanish, lemma_div_pos_is_pos,
    lemma_small_mod,
};
use vstd::arithmetic::mul::lemma_mul_inequality;
use crate::math::{cdiv128, cl64, emod128, emod64, iabs, tdiv, uabs64};
use crate::vec2::{v2, Vec2i};
use crate::{FULL_TURN_MDEG, HALF_TURN_MDEG, QUARTER_TURN_MDEG, TRIG_SCALE};

verus! {

/// Sine on the first half turn (`0 <= a <= 180000` milli-degrees), scaled
/// by `TRIG_SCALE`: the rational approximation `4u / (40500e6 - u)` with
/// `u = a * (180000 - a)`, evaluated in integers.
pub open spec fn spec_sin_half(a: int) -> int {
    let u = a * (HALF_TURN_MDEG - a);
    (4 * u * (TRIG_SCALE as int)) / (40_500_000_000 - u)
}

/// Sine of any milli-degree angle, scaled by `TRIG_SCALE`.
pub open spec fn spec_sin(a: int) -> int {
    let n = a % (FULL_TURN_MDEG as int);
    if n <= HALF_TURN_MDEG as int {
        spec_sin_half(n)
    } else {
        -spec_sin_half(n - HALF_TURN_MDEG as int)
    }
}

/// Cosine of any milli-degree angle, scaled by `TRIG_SCALE`.
pub open spec fn spec_cos(a: int) -> int {
    spec_sin(a + QUARTER_TURN_MDEG as int)
}

/// Bounds of the half-turn sine formula.
proof fn lemma_sin_half_bounds(a: int)
    requires
        0 <= a <= HALF_TURN_MDEG as int,
    ensures
        0 <= spec_sin_half(a) <= TRIG_SCALE as int,
{
    let u = a * (HALF_TURN_MDEG - a);
    assert(0 <= u <= 8_100_000_000) by (nonlinear_arith)
        requires
            0 <= a <= 180_000,
            u == a * (180_000 - a),
    ;
    let num = 4 * u * (TRIG_SCALE as int);
    let den = 40_500_000_000 - u;
    assert(num <= den * (TRIG_SCALE as int)) by (nonlinear_arith)
        requires
            0 <= u <= 8_100_000_000,
            num == 4 * u * 1_000_000int,
            den == 40_500_000_000 - u,
    ;
    lemma_div_pos_is_pos(num, den);
    lemma_div_is_ordered(num, den * (TRIG_SCALE as int), den);
    lemma_div_multiples_vanish(TRIG_SCALE as int, den);
}

/// Sine of a milli-degree angle, scaled by `TRIG_SCALE`.
pub fn sin_mdeg(a: i64) -> (r: i64)
    ensures
        r as int == spec_sin(a as int),
        -(TRIG_SCALE as int) <= r as int <= TRIG_SCALE as int,
{
    let n: i64 = emod64(a, FULL_TURN_MDEG);
    if n <= HALF_TURN_MDEG {
        sin_half(n)
    } else {
        let s: i64 = sin_half(n - HALF_TURN_MDEG);
        -s
    }
}

/// Cosine of a milli-degree angle, scaled by `TRIG_SCALE`.
pub fn cos_mdeg(a: i64) -> (r: i64)
    ensures
        r as int == spec_cos(a as int),
        -(TRIG_SCALE as int) <= r as int <= TRIG_SCALE as int,
{
    let n: i64 = emod64(a, FULL_TURN_MDEG);
    proof {
        lemma_add_mod_noop(a as int, QUARTER_TURN_MDEG as int, FULL_TURN_MDEG as int);
        lemma_add_mod_noop(n as int, QUARTER_TURN_MDEG as int, FULL_TURN_MDEG as int);
        lemma_small_mod(n as nat, FULL_TURN_MDEG as nat);
        lemma_small_mod(QUARTER_TURN_MDEG as nat, FULL_TURN_MDEG as nat);
    }
    sin_mdeg(n + QUARTER_TURN_MDEG)
}

/// Sine on the first half turn.
fn sin_half(a: i64) -> (r: i64)
    requires
        0 <= a <= HALF_TURN_MDEG,
    ensures
        r as int == spec_sin_half(a as int),
        0 <= r as int <= TRIG_SCALE as int,
{
    proof {
        lemma_sin_half_bounds(a as int);
        assert(a as int * (HALF_TURN_MDEG - a) as int <= 8_100_000_000int) by (nonlinear_arith)
            requires
                0 <= a as int <= 180_000,
        ;
        assert(a as int * (HALF_TURN_MDEG - a) as int >= 0) by (nonlinear_arith)
            requires
                0 <= a as int <= 180_000,
        ;
    }
    let u: u64 = (a as u64) * ((HALF_TURN_MDEG - a) as u64);
    let num: u64 = 4 * u * (TRIG_SCALE as u64);
    let den: u64 = 40_500_000_000u64 - u;
    let q: u64 = num / den;
    q as i64
}

/// The vector `v` rotated by `a` milli-degrees, componentwise clamped.
pub open spec fn spec_rotate(v: Vec2i, a: int) -> Vec2i {
    let c = spec_cos(a);
    let s = spec_sin(a);
    v2(
        cl64(tdiv(c * v.x - s * v.y, TRIG_SCALE as int)),
        cl64(tdiv(s * v.x + c * v.y, TRIG_SCALE as int)),
    )
}

/// Rotate a vector by an angle in milli-degrees.
pub fn rotate_vec2(v: &Vec2i, a: i64) -> (r: Vec2i)
    ensures
        r == spec_rotate(*v, a as int),
{
    let c: i64 = cos_mdeg(a);
    let s: i64 = sin_mdeg(a);
    proof {
        lemma_trig_product_fits(c as int, v.x as int);
        lemma_trig_product_fits(s as int, v.y as int);
        lemma_trig_product_fits(s as int, v.x as int);
        lemma_trig_product_fits(c as int, v.y as int);
    }
    let xn: i128 = (c as i128) * (v.x as i128) - (s as i128) * (v.y as i128);
    let yn: i128 = (s as i128) * (v.x as i128) + (c as i128) * (v.y as i128);
    Vec2i { x: cdiv128(xn, TRIG_SCALE as i128), y: cdiv128(yn, TRIG_SCALE as i128) }
}

/// A scaled trig value times an `i64` stays well inside the `i128` range.
proof fn lemma_trig_product_fits(c: int, x: int)
    requires
        -1_000_000 <= c <= 1_000_000,
        i64::MIN as int <= x <= i64::MAX as int,
    ensures
        -0x40000000000000000000000000 <= c * x <= 0x40000000000000000000000000,
{
    assert(-0x40000000000000000000000000 <= c * x <= 0x40000000000000000000000000)
        by (nonlinear_arith)
        requires
            -1_000_000 <= c <= 1_000_000,
            -0x8000000000000000 <= x <= 0x7FFFFFFFFFFFFFFF,
    ;
}

/// Inverse tangent of `n / d` for `0 <= n <= d`, in milli-degrees: the
/// polynomial approximation `45000 z + 15640 z (1 - z)` on the scaled ratio
/// `z`, evaluated in integers. Zero when `d` is zero.
pub open spec fn spec_atan_frac(n: int, d: int) -> int {
    if d <= 0 {
        0
    } else {
        let z = (n * 1_000_000) / d;
        (45_000 * z) / 1_000_000 + (15_640 * z * (1_000_000 - z)) / 1_000_000_000_000
    }
}

/// The milli-degree angle of the vector `(x, y)`, in `(-180000, 180000]`,
/// by octant reduction; zero for the zero vector.
pub open spec fn spec_atan2(y: int, x: int) -> int {
    let ax = iabs(x);
    let ay = iabs(y);
    let base = if ax >= ay {
        spec_atan_frac(ay, ax)
    } else {
        (QUARTER_TURN_MDEG as int) - spec_atan_frac(ax, ay)
    };
    if x >= 0 && y >= 0 {
        base
    } else if x < 0 && y >= 0 {
        (HALF_TURN_MDEG as int) - base
    } else if x < 0 {
        -(HALF_TURN_MDEG as int) + base
    } else {
        -base
    }
}

/// First-octant inverse tangent: `0 <= n <= d`.
fn atan_frac(n: u64, d: u64) -> (r: i64)
    requires
        n <= d,
    ensures
        r as int == spec_atan_frac(n as int, d as int),
        0 <= r as int <= 50_000,
{
    if d == 0 {
        return 0;
    }
    let z: u128 = (n as u128) * 1_000_000 / (d as u128);
    proof {
        assert(n as int * 1_000_000 >= 0) by (nonlinear_arith)
            requires
                n as int >= 0,
        ;
        lemma_mul_inequality_comm(n as int, d as int, 1_000_000);
        lemma_div_is_ordered(n as int * 1_000_000, d as int * 1_000_000, d as int);
        lemma_div_multiples_vanish(1_000_000, d as int);
        lemma_div_pos_is_pos(n as int * 1_000_000, d as int);
        assert(0 <= z as int <= 1_000_000);
    }
    let t1: u128 = 45_000 * z / 1_000_000;
    proof {
        assert(15_640 * (z as int) * (1_000_000 - z as int) <= 3_910_000_000_000_000)
            by (nonlinear_arith)
            requires
                0 <= z as int <= 1_000_000,
        ;
    }
    let t2: u128 = 15_640 * z * (1_000_000 - z) / 1_000_000_000_000;
    proof {
        lemma_div_is_ordered(45_000 * z as int, 45_000_000_000, 1_000_000);
        lemma_div_pos_is_pos(45_000 * z as int, 1_000_000);
        assert(15_640 * z as int * (1_000_000 - z as int) <= 3_910_000_000_000_000)
            by (nonlinear_arith)
            requires
                0 <= z as int <= 1_000_000,
        ;
        assert(15_640 * z as int * (1_000_000 - z as int) >= 0) by (nonlinear_arith)
            requires
                0 <= z as int <= 1_000_000,
        ;
        lemma_div_is_ordered(
            15_640 * z as int * (1_000_000 - z as int),
            3_910_000_000_000_000,
            1_000_000_000_000,
        );
        lemma_div_pos_is_pos(15_640 * z as int * (1_000_000 - z as int), 1_000_000_000_000);
    }
    (t1 as i64) + (t2 as i64)
}

/// Multiplication preserves order in the left argument.
proof fn lemma_mul_inequality_comm(x: int, y: int, z: int)
    requires
        x <= y,
        z >= 0,
    ensures
        z * x <= z * y,
        x * z <= y * z,
{
    lemma_mul_inequality(x, y, z);
    assert(z * x == x * z && z * y == y * z) by (nonlinear_arith);
}

/// The milli-degree angle of the vector `(x, y)`.
pub fn atan2_mdeg(y: i64, x: i64) -> (r: i64)
    ensures
        r as int == spec_atan2(y as int, x as int),
        -(HALF_TURN_MDEG as int) <= r as int <= HALF_TURN_MDEG as int,
{
    let ax: u64 = uabs64(x);
    let ay: u64 = uabs64(y);
    let base: i64 = if ax >= ay {
        atan_frac(ay, ax)
    } else {
        QUARTER_TURN_MDEG - atan_frac(ax, ay)
    };
    if x >= 0 && y >= 0 {
        base
    } else if x < 0 && y >= 0 {
        HALF_TURN_MDEG - base
    } else if x < 0 {
        -HALF_TURN_MDEG + base
    } else {
        -base
    }
}

/// The wrap-aware absolute difference of two milli-degree angles, in
/// `[0, 180000]`.
pub open spec fn spec_angle_diff(a: int, b: int) -> int {
    let d = (a - b) % (FULL_TURN_MDEG as int);
    if d <= HALF_TURN_MDEG as int {
        d
    } else {
        (FULL_TURN_MDEG as int) - d
    }
}

/// How far apart two milli-degree angles are, going the short way round.
pub fn angle_diff_mdeg(a: i64, b: i64) -> (r: i64)
    ensures
        r as int == spec_angle_diff(a as int, b as int),
        0 <= r as int <= HALF_TURN_MDEG as int,
{
    let d: i64 = emod128((a as i128) - (b as i128), FULL_TURN_MDEG);
    if d <= HALF_TURN_MDEG {
        d
    } else {
        FULL_TURN_MDEG - d
    }
}

} // verus!
