//! Total fixed-point integer arithmetic.
//!
//! Every executable operation here is defined for all inputs: wide
//! intermediates are computed in 128 bits and saturate at the `u128` range,
//! and results clamp to the `i64` range. Each function's contract states its
//! result exactly in terms of the spec-level mirrors below, so callers can
//! reason about the physics formulas as plain integer arithmetic.

use vstd::prelude::*;
use vstd::arithmetic::div_mod::{
    lemma_fundamental_div_mod, lemma_fundamental_div_mod_converse,
    lemma_mod_division_less_than_divisor,
};
use vstd::arithmetic::mul::lemma_mul_inequality;

verus! {

/// Clamp an unbounded integer into the `i64` range.
pub open spec fn cl64(x: int) -> int {
    if x < i64::MIN as int {
        i64::MIN as int
    } else if x > i64::MAX as int {
        i64::MAX as int
    } else {
        x
    }
}

/// Saturate a nonnegative unbounded integer at the `u128` range.
pub open spec fn sat_u(x: int) -> int {
    if x > u128::MAX as int {
        u128::MAX as int
    } else {
        x
    }
}

/// Division that truncates toward zero (the machine convention), for a
/// positive divisor. Spec-level `/` is Euclidean, so negative dividends are
/// handled through their magnitude.
pub open spec fn tdiv(a: int, b: int) -> int {
    if a >= 0 {
        a / b
    } else {
        -((-a) / b)
    }
}

/// The absolute value of an unbounded integer.
pub open spec fn iabs(a: int) -> int {
    if a >= 0 {
        a
    } else {
        -a
    }
}

/// Integer square root, rounded down.
pub open spec fn sqrt_floor(x: nat) -> nat
    decreases x,
{
    if x == 0 {
        0
    } else {
        let p = sqrt_floor((x - 1) as nat);
        if (p + 1) * (p + 1) <= x {
            (p + 1) as nat
        } else {
            p
        }
    }
}

/// Integer cube root, rounded down.
pub open spec fn cbrt_floor(x: nat) -> nat
    decreases x,
{
    if x == 0 {
        0
    } else {
        let p = cbrt_floor((x - 1) as nat);
        if (p + 1) * (p + 1) * (p + 1) <= x {
            (p + 1) as nat
        } else {
            p
        }
    }
}

/// `sqrt_floor` is exactly the rounded-down square root.
pub proof fn lemma_sqrt_floor_bounds(x: nat)
    ensures
        sqrt_floor(x) * sqrt_floor(x) <= x,
        x < (sqrt_floor(x) + 1) * (sqrt_floor(x) + 1),
    decreases x,
{
    if x == 0 {
        assert(sqrt_floor(x) * sqrt_floor(x) <= x && x < (sqrt_floor(x) + 1) * (sqrt_floor(x)
            + 1)) by (nonlinear_arith)
            requires
                x == 0nat,
                sqrt_floor(x) == 0nat,
        ;
    } else {
        let p = sqrt_floor((x - 1) as nat);
        lemma_sqrt_floor_bounds((x - 1) as nat);
        assert(p * p <= x - 1);
        assert(x - 1 < (p + 1) * (p + 1));
        if (p + 1) * (p + 1) <= x {
            assert(sqrt_floor(x) == p + 1) by {
                reveal_with_fuel(sqrt_floor, 2);
            }
            // here x - 1 < (p+1)^2 <= x, so x == (p+1)^2
            assert(x == (p + 1) * (p + 1));
            assert((p + 1) * (p + 1) < (p + 2) * (p + 2)) by (nonlinear_arith)
                requires
                    p >= 0,
            ;
            assert(sqrt_floor(x) * sqrt_floor(x) <= x);
            assert(x < (sqrt_floor(x) + 1) * (sqrt_floor(x) + 1));
        } else {
            assert(sqrt_floor(x) == p) by {
                reveal_with_fuel(sqrt_floor, 2);
            }
            assert(sqrt_floor(x) * sqrt_floor(x) <= x);
            assert(x < (sqrt_floor(x) + 1) * (sqrt_floor(x) + 1));
        }
    }
}

/// `cbrt_floor` is exactly the rounded-down cube root.
pub proof fn lemma_cbrt_floor_bounds(x: nat)
    ensures
        cbrt_floor(x) * cbrt_floor(x) * cbrt_floor(x) <= x,
        x < (cbrt_floor(x) + 1) * (cbrt_floor(x) + 1) * (cbrt_floor(x) + 1),
    decreases x,
{
    if x == 0 {
        assert(cbrt_floor(x) * cbrt_floor(x) * cbrt_floor(x) <= x && x < (cbrt_floor(x) + 1) * (
        cbrt_floor(x) + 1) * (cbrt_floor(x) + 1)) by (nonlinear_arith)
            requires
                x == 0nat,
                cbrt_floor(x) == 0nat,
        ;
    } else {
        let p = cbrt_floor((x - 1) as nat);
        lemma_cbrt_floor_bounds((x - 1) as nat);
        assert(p * p * p <= x - 1);
        assert(x - 1 < (p + 1) * (p + 1) * (p + 1));
        if (p + 1) * (p + 1) * (p + 1) <= x {
            assert(cbrt_floor(x) == p + 1) by {
                reveal_with_fuel(cbrt_floor, 2);
            }
            assert(x == (p + 1) * (p + 1) * (p + 1));
            assert((p + 1) * (p + 1) * (p + 1) < (p + 2) * (p + 2) * (p + 2)) by (nonlinear_arith)
                requires
                    p >= 0,
            ;
            assert(cbrt_floor(x) * cbrt_floor(x) * cbrt_floor(x) <= x);
            assert(x < (cbrt_floor(x) + 1) * (cbrt_floor(x) + 1) * (cbrt_floor(x) + 1));
        } else {
            assert(cbrt_floor(x) == p) by {
                reveal_with_fuel(cbrt_floor, 2);
            }
            assert(cbrt_floor(x) * cbrt_floor(x) * cbrt_floor(x) <= x);
            assert(x < (cbrt_floor(x) + 1) * (cbrt_floor(x) + 1) * (cbrt_floor(x) + 1));
        }
    }
}

/// Any `r` with `r^2 <= x < (r+1)^2` is `sqrt_floor(x)`.
pub proof fn lemma_sqrt_floor_unique(x: nat, r: nat)
    requires
        r * r <= x,
        x < (r + 1) * (r + 1),
    ensures
        r == sqrt_floor(x),
{
    let s = sqrt_floor(x);
    lemma_sqrt_floor_bounds(x);
    if r < s {
        assert((r + 1) * (r + 1) <= s * s) by (nonlinear_arith)
            requires
                r + 1 <= s,
                r >= 0,
        ;
    }
    if s < r {
        assert((s + 1) * (s + 1) <= r * r) by (nonlinear_arith)
            requires
                s + 1 <= r,
                s >= 0,
        ;
    }
}

/// Any `r` with `r^3 <= x < (r+1)^3` is `cbrt_floor(x)`.
pub proof fn lemma_cbrt_floor_unique(x: nat, r: nat)
    requires
        r * r * r <= x,
        x < (r + 1) * (r + 1) * (r + 1),
    ensures
        r == cbrt_floor(x),
{
    let s = cbrt_floor(x);
    lemma_cbrt_floor_bounds(x);
    if r < s {
        lemma_cube_le(r + 1, s);
    }
    if s < r {
        lemma_cube_le(s + 1, r);
    }
}

/// Monotonicity of cubing over the naturals.
pub proof fn lemma_cube_le(a: nat, b: nat)
    requires
        a <= b,
    ensures
        a * a * a <= b * b * b,
{
    assert(a * a * a <= b * b * b) by (nonlinear_arith)
        requires
            a <= b,
            a >= 0,
    ;
}

/// Clamped addition of two `i64` values.
pub fn cadd64(a: i64, b: i64) -> (r: i64)
    ensures
        r as int == cl64(a + b),
{
    let s: i128 = a as i128 + b as i128;
    if s > i64::MAX as i128 {
        i64::MAX
    } else if s < i64::MIN as i128 {
        i64::MIN
    } else {
        s as i64
    }
}

/// Clamped subtraction of two `i64` values.
pub fn csub64(a: i64, b: i64) -> (r: i64)
    ensures
        r as int == cl64(a - b),
{
    let s: i128 = a as i128 - b as i128;
    if s > i64::MAX as i128 {
        i64::MAX
    } else if s < i64::MIN as i128 {
        i64::MIN
    } else {
        s as i64
    }
}

/// The magnitude of an `i64`, as a `u64`.
pub fn uabs64(a: i64) -> (r: u64)
    ensures
        r as int == iabs(a as int),
{
    if a >= 0 {
        a as u64
    } else {
        ((-(a + 1)) as u64) + 1
    }
}

/// The magnitude of an `i128`, as a `u128`.
pub fn uabs128(a: i128) -> (r: u128)
    ensures
        r as int == iabs(a as int),
{
    if a >= 0 {
        a as u128
    } else {
        ((-(a + 1)) as u128) + 1
    }
}

/// Saturating multiplication of nonnegative 128-bit quantities.
pub fn sat_mul_u(a: u128, b: u128) -> (r: u128)
    ensures
        r as int == sat_u(a as int * b as int),
{
    if a == 0 {
        proof {
            assert(0int * b as int == 0) by (nonlinear_arith);
        }
        0
    } else if b <= u128::MAX / a {
        proof {
            let ai = a as int;
            let bi = b as int;
            let m = u128::MAX as int;
            lemma_fundamental_div_mod(m, ai);
            lemma_mod_division_less_than_divisor(m, ai);
            lemma_mul_inequality(bi, m / ai, ai);
            assert(bi * ai == ai * bi) by (nonlinear_arith);
            assert((m / ai) * ai == ai * (m / ai)) by (nonlinear_arith);
        }
        a * b
    } else {
        proof {
            let ai = a as int;
            let bi = b as int;
            let m = u128::MAX as int;
            lemma_fundamental_div_mod(m, ai);
            lemma_mod_division_less_than_divisor(m, ai);
            lemma_mul_inequality(m / ai + 1, bi, ai);
            assert((m / ai + 1) * ai == ai * (m / ai) + ai) by (nonlinear_arith);
            assert(bi * ai == ai * bi) by (nonlinear_arith);
        }
        u128::MAX
    }
}

/// Saturating addition of nonnegative 128-bit quantities.
pub fn sat_add_u(a: u128, b: u128) -> (r: u128)
    ensures
        r as int == sat_u(a as int + b as int),
{
    if b <= u128::MAX - a {
        a + b
    } else {
        u128::MAX
    }
}

/// Rounded-down square root of a `u128`.
pub fn isqrt(x: u128) -> (r: u128)
    ensures
        r as nat == sqrt_floor(x as nat),
{
    if x == 0 {
        return 0;
    }
    let mut lo: u128 = 0;
    let mut hi: u128 = u64::MAX as u128;
    proof {
        assert((hi + 1) * (hi + 1) > x as int) by (nonlinear_arith)
            requires
                hi == u64::MAX as u128,
                x <= u128::MAX,
        ;
    }
    while lo < hi
        invariant
            lo <= hi,
            hi <= u64::MAX as u128,
            lo * lo <= x,
            x < (hi + 1) * (hi + 1),
        decreases hi - lo,
    {
        let mid: u128 = lo + (hi - lo + 1) / 2;
        // mid * mid <= x  iff  mid <= x / mid, checked without overflow
        if mid <= x / mid {
            proof {
                let mi = mid as int;
                let xi = x as int;
                lemma_fundamental_div_mod(xi, mi);
                lemma_mod_division_less_than_divisor(xi, mi);
                lemma_mul_inequality(mi, xi / mi, mi);
                assert((xi / mi) * mi == mi * (xi / mi)) by (nonlinear_arith);
            }
            lo = mid;
        } else {
            proof {
                let mi = mid as int;
                let xi = x as int;
                lemma_fundamental_div_mod(xi, mi);
                lemma_mod_division_less_than_divisor(xi, mi);
                lemma_mul_inequality(xi / mi + 1, mi, mi);
                assert((xi / mi + 1) * mi == mi * (xi / mi) + mi) by (nonlinear_arith);
            }
            hi = mid - 1;
        }
    }
    proof {
        lemma_sqrt_floor_unique(x as nat, lo as nat);
    }
    lo
}

/// Rounded-down cube root of a `u128`.
pub fn icbrt(x: u128) -> (r: u128)
    ensures
        r as nat == cbrt_floor(x as nat),
{
    if x == 0 {
        return 0;
    }
    let mut lo: u128 = 0;
    // 2^43 cubed is 2^129, above the u128 range, so the root is below 2^43
    let mut hi: u128 = 0x7FFFFFFFFFF;
    proof {
        assert((hi + 1) * (hi + 1) * (hi + 1) > x as int) by (nonlinear_arith)
            requires
                hi == 0x7FFFFFFFFFFu128,
                x <= u128::MAX,
        ;
    }
    while lo < hi
        invariant
            lo <= hi,
            hi <= 0x7FFFFFFFFFFu128,
            lo * lo * lo <= x,
            x < (hi + 1) * (hi + 1) * (hi + 1),
        decreases hi - lo,
    {
        let mid: u128 = lo + (hi - lo + 1) / 2;
        proof {
            assert(mid * mid <= 0x7FFFFFFFFFFu128 * 0x7FFFFFFFFFFu128 && mid * mid >= mid)
                by (nonlinear_arith)
                requires
                    1 <= mid <= 0x7FFFFFFFFFFu128,
            ;
        }
        let sq: u128 = mid * mid;
        // mid^3 <= x  iff  mid <= x / mid^2, checked without overflow
        if mid <= x / sq {
            proof {
                let mi = mid as int;
                let si = sq as int;
                let xi = x as int;
                lemma_fundamental_div_mod(xi, si);
                lemma_mod_division_less_than_divisor(xi, si);
                lemma_mul_inequality(mi, xi / si, si);
                assert((xi / si) * si == si * (xi / si)) by (nonlinear_arith);
                assert(mi * si == mi * mi * mi) by (nonlinear_arith)
                    requires
                        si == mi * mi,
                ;
            }
            lo = mid;
        } else {
            proof {
                let mi = mid as int;
                let si = sq as int;
                let xi = x as int;
                lemma_fundamental_div_mod(xi, si);
                lemma_mod_division_less_than_divisor(xi, si);
                lemma_mul_inequality(xi / si + 1, mi, si);
                assert((xi / si + 1) * si == si * (xi / si) + si) by (nonlinear_arith);
                assert(mi * si == mi * mi * mi) by (nonlinear_arith)
                    requires
                        si == mi * mi,
                ;
            }
            hi = mid - 1;
        }
    }
    proof {
        lemma_cbrt_floor_unique(x as nat, lo as nat);
    }
    lo
}

/// Turn a magnitude and a sign into a clamped `i64`.
pub fn signed_clamped(neg: bool, q: u128) -> (r: i64)
    ensures
        r as int == cl64(if neg { -(q as int) } else { q as int }),
{
    if neg {
        if q >= 9223372036854775808u128 {
            i64::MIN
        } else {
            -(q as i64)
        }
    } else {
        if q > i64::MAX as u128 {
            i64::MAX
        } else {
            q as i64
        }
    }
}

/// Clamped product-quotient `a * b / d`, truncating toward zero.
pub fn muldiv(a: i64, b: i64, d: i64) -> (r: i64)
    requires
        d >= 1,
    ensures
        r as int == cl64(tdiv(a as int * b as int, d as int)),
{
    proof {
        assert(i128::MIN as int <= a as int * b as int <= i128::MAX as int) by (nonlinear_arith)
            requires
                i64::MIN as int <= a as int <= i64::MAX as int,
                i64::MIN as int <= b as int <= i64::MAX as int,
        ;
    }
    let p: i128 = (a as i128) * (b as i128);
    let up: u128 = uabs128(p);
    let q: u128 = up / (d as u128);
    signed_clamped(p < 0, q)
}

/// Clamped truncating division of a wide intermediate by a positive divisor.
pub fn cdiv128(n: i128, d: i128) -> (r: i64)
    requires
        d >= 1,
    ensures
        r as int == cl64(tdiv(n as int, d as int)),
{
    let un: u128 = uabs128(n);
    let q: u128 = un / (d as u128);
    signed_clamped(n < 0, q)
}

/// Euclidean remainder of a wide intermediate, with a positive `i64`
/// modulus.
pub fn emod128(a: i128, m: i64) -> (r: i64)
    requires
        m >= 1,
    ensures
        r as int == (a as int) % (m as int),
        0 <= r < m,
{
    proof {
        lemma_mod_division_less_than_divisor(a as int, m as int);
    }
    let ua: u128 = uabs128(a);
    let um: u128 = m as u128;
    let rem: u128 = ua % um;
    if a >= 0 {
        rem as i64
    } else {
        proof {
            if a < 0 {
                lemma_mod_of_negation(a as int, m as int);
            }
        }
        if rem == 0 {
            0
        } else {
            m - (rem as i64)
        }
    }
}

/// Euclidean remainder with a positive modulus, on `i64` values.
pub fn emod64(a: i64, m: i64) -> (r: i64)
    requires
        m >= 1,
    ensures
        r as int == (a as int) % (m as int),
        0 <= r < m,
{
    proof {
        lemma_mod_division_less_than_divisor(a as int, m as int);
    }
    let ua: u64 = uabs64(a);
    let um: u64 = m as u64;
    let rem: u64 = ua % um;
    if a >= 0 {
        rem as i64
    } else {
        proof {
            lemma_mod_of_negation(a as int, m as int);
        }
        if rem == 0 {
            0
        } else {
            m - (rem as i64)
        }
    }
}

/// Relates the Euclidean remainder of a negative value to the remainder of
/// its magnitude.
proof fn lemma_mod_of_negation(a: int, m: int)
    requires
        m >= 1,
        a < 0,
    ensures
        (-a) % m == 0 ==> a % m == 0,
        (-a) % m != 0 ==> a % m == m - ((-a) % m),
{
    let q = (-a) / m;
    let r = (-a) % m;
    lemma_fundamental_div_mod(-a, m);
    lemma_mod_division_less_than_divisor(-a, m);
    if r == 0 {
        assert((-q) * m + 0 == -(m * q)) by (nonlinear_arith);
        lemma_fundamental_div_mod_converse(a, m, -q, 0);
    } else {
        assert((-q - 1) * m + (m - r) == -(m * q + r)) by (nonlinear_arith);
        lemma_fundamental_div_mod_converse(a, m, -q - 1, m - r);
    }
}

} // verus!
