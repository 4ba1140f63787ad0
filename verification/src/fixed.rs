//! The fixed-point numeric model used throughout the pipeline.
//!
//! A quantity of one unit is stored as the integer 1000: all positions,
//! depths, noise values, intensities and interpolation factors carry
//! thousandths of a unit.  Division always runs with a positive divisor and
//! truncates toward zero, which `tdiv` states exactly.

use vstd::prelude::*;
use vstd::arithmetic::div_mod::lemma_fundamental_div_mod;

verus! {

/// One whole unit in the fixed-point format (values carry thousandths).
pub const UNIT: i64 = 1000;

/// Half a turn (pi) in thousandths of a radian.
pub const PI_MILLI: i64 = 3142;

/// A full turn (two pi) in thousandths of a radian.
pub const TWO_PI_MILLI: i64 = 6284;

/// Division truncated toward zero, defined for a positive divisor.
pub open spec fn tdiv(a: int, b: int) -> int {
    if a >= 0 {
        a / b
    } else {
        -((-a) / b)
    }
}

/// Absolute value on mathematical integers.
pub open spec fn sabs(a: int) -> int {
    if a >= 0 {
        a
    } else {
        -a
    }
}

/// A value clamped to the closed unit interval [0, 1] (in thousandths).
pub open spec fn clamp01(t: int) -> int {
    if t < 0 {
        0
    } else if t > UNIT {
        UNIT as int
    } else {
        t
    }
}

/// Clamps a fixed-point value to the unit interval [0, 1000].
pub fn clamp_unit(t: i64) -> (r: i64)
    ensures
        r == clamp01(t as int),
{
    if t < 0 {
        0
    } else if t > UNIT {
        UNIT
    } else {
        t
    }
}

/// Absolute value of a fixed-point quantity.
pub fn abs_fixed(a: i64) -> (r: i64)
    requires
        a != i64::MIN,
    ensures
        r == sabs(a as int),
{
    if a >= 0 {
        a
    } else {
        -a
    }
}

/// Truncating division of a wide intermediate by a positive divisor.
pub fn div_trunc(a: i128, b: i128) -> (r: i128)
    requires
        b > 0,
        a > i128::MIN,
    ensures
        r == tdiv(a as int, b as int),
{
    if a >= 0 {
        let au: u128 = a as u128;
        let bu: u128 = b as u128;
        let qu: u128 = au / bu;
        proof {
            assert(qu <= au) by (nonlinear_arith)
                requires
                    bu >= 1,
                    qu == au / bu,
            ;
        }
        qu as i128
    } else {
        let m: i128 = -a;
        let mu: u128 = m as u128;
        let bu: u128 = b as u128;
        let qu: u128 = mu / bu;
        proof {
            assert(qu <= mu) by (nonlinear_arith)
                requires
                    bu >= 1,
                    qu == mu / bu,
            ;
        }
        -(qu as i128)
    }
}

/// Truncating division by any nonzero divisor, as the machine performs it.
pub open spec fn sdiv(a: int, b: int) -> int {
    if b > 0 {
        tdiv(a, b)
    } else {
        -tdiv(a, -b)
    }
}

/// Truncating division of a wide intermediate by any nonzero divisor.
pub fn div_signed(a: i128, b: i128) -> (r: i128)
    requires
        b != 0,
        a > i128::MIN,
        b > i128::MIN,
    ensures
        r == sdiv(a as int, b as int),
{
    if b > 0 {
        div_trunc(a, b)
    } else {
        let q = div_trunc(a, -b);
        proof {
            lemma_tdiv_bounds(a as int, -(b as int));
        }
        -q
    }
}

/// Division of a nonnegative value by a positive divisor.
pub fn div_pos(a: i64, b: i64) -> (r: i64)
    requires
        a >= 0,
        b > 0,
    ensures
        r == a as int / b as int,
        0 <= r <= a,
{
    let q: u64 = (a as u64) / (b as u64);
    proof {
        assert(q <= a as u64) by (nonlinear_arith)
            requires
                b as u64 >= 1,
                q == a as u64 / b as u64,
        ;
    }
    q as i64
}

/// Flooring division of a wide intermediate by a positive divisor: the
/// quotient of the specification's own division.
pub fn div_floor(a: i128, b: i128) -> (r: i128)
    requires
        b > 0,
        a > i128::MIN + b,
    ensures
        r == a as int / b as int,
{
    if a >= 0 {
        let q = div_trunc(a, b);
        q
    } else {
        let m: i128 = -a;
        let mu: u128 = m as u128;
        let bu: u128 = b as u128;
        let su: u128 = mu + bu - 1;
        let qu: u128 = su / bu;
        proof {
            assert(qu <= su) by (nonlinear_arith)
                requires
                    bu >= 1,
                    qu == su / bu,
            ;
            lemma_fundamental_div_mod(su as int, b as int);
            let q = su as int / b as int;
            let rr = su as int % b as int;
            assert(0 <= rr < b) by (nonlinear_arith)
                requires
                    b > 0,
                    rr == su as int % b as int,
            ;
            assert(b * q >= m as int && b * q < m as int + b);
            lemma_fundamental_div_mod(a as int, b as int);
            let qa = a as int / b as int;
            let ra = a as int % b as int;
            assert(0 <= ra < b) by (nonlinear_arith)
                requires
                    b > 0,
                    ra == a as int % b as int,
            ;
            assert(qa == -q) by (nonlinear_arith)
                requires
                    b > 0,
                    a as int == b * qa + ra,
                    0 <= ra < b,
                    b * q >= -(a as int),
                    b * q < -(a as int) + b,
            ;
        }
        -(qu as i128)
    }
}

/// A quotient is no larger than its scaled bound: if the dividend is within
/// lim times the divisor, the truncating quotient is within lim.
pub proof fn lemma_tdiv_scaled(a: int, b: int, lim: int)
    requires
        b > 0,
        lim >= 0,
        sabs(a) <= lim * b,
    ensures
        sabs(tdiv(a, b)) <= lim,
{
    if a >= 0 {
        assert(a / b <= lim) by (nonlinear_arith)
            requires
                b > 0,
                lim >= 0,
                0 <= a <= lim * b,
        ;
        assert(a / b >= 0) by (nonlinear_arith)
            requires
                b > 0,
                a >= 0,
        ;
    } else {
        let m = -a;
        assert(m / b <= lim) by (nonlinear_arith)
            requires
                b > 0,
                lim >= 0,
                0 <= m <= lim * b,
        ;
        assert(m / b >= 0) by (nonlinear_arith)
            requires
                b > 0,
                m >= 0,
        ;
    }
}

/// The magnitude of a product is bounded by the product of the bounds.
pub proof fn lemma_mul_bound(a: int, b: int, la: int, lb: int)
    requires
        sabs(a) <= la,
        sabs(b) <= lb,
    ensures
        sabs(a * b) <= la * lb,
{
    assert(sabs(a * b) <= la * lb) by (nonlinear_arith)
        requires
            sabs(a) <= la,
            sabs(b) <= lb,
            sabs(a) == if a >= 0 { a } else { -a },
            sabs(b) == if b >= 0 { b } else { -b },
            sabs(a * b) == if a * b >= 0 { a * b } else { -(a * b) },
    ;
}

/// Remainder with the sign of the dividend, as the original stripe patterns
/// use it; defined for a positive divisor.
pub open spec fn tmod(a: int, b: int) -> int {
    a - b * tdiv(a, b)
}

/// Truncating remainder (sign follows the dividend) by a positive divisor.
pub fn rem_trunc(a: i64, b: i64) -> (r: i64)
    requires
        b > 0,
        a != i64::MIN,
    ensures
        r == tmod(a as int, b as int),
        sabs(r as int) < b,
{
    let q: i128 = div_trunc(a as i128, b as i128);
    proof {
        lemma_tdiv_bounds(a as int, b as int);
        assert(q * (b as i128) == (b as i128) * q) by (nonlinear_arith);
    }
    let p: i128 = q * (b as i128);
    let r: i64 = (a as i128 - p) as i64;
    r
}

/// A quarter turn (pi over two) in thousandths of a radian.
pub const HALF_PI_MILLI: i64 = 1571;

/// The sine approximation on a half turn: for a phase p in [0, pi], the
/// rational approximation 16 p (pi - p) / (5 pi^2 - 4 p (pi - p)), scaled to
/// thousandths.  This is the crate's own definition of its sine; it stays
/// within [0, 1].
pub open spec fn spec_sin_half(p: int) -> int {
    16 * p * (PI_MILLI as int - p) * 1000 / (
    5 * (PI_MILLI as int) * (PI_MILLI as int) - 4 * p * (PI_MILLI as int - p))
}

/// The sine of a phase in thousandths of a radian: the phase is reduced to
/// one turn and the half-turn approximation is applied with the sign of the
/// half it falls in.
pub open spec fn spec_sin_unit(x: int) -> int {
    let p = x % (TWO_PI_MILLI as int);
    if p < PI_MILLI as int {
        spec_sin_half(p)
    } else {
        -spec_sin_half(p - PI_MILLI as int)
    }
}

/// The cosine, defined as the sine a quarter turn ahead.
pub open spec fn spec_cos_unit(x: int) -> int {
    spec_sin_unit(x + HALF_PI_MILLI as int)
}

/// The truncating remainder agrees with the always-nonnegative remainder up
/// to one added divisor.
proof fn lemma_tmod_emod(a: int, b: int)
    requires
        b > 0,
    ensures
        tmod(a, b) >= 0 ==> a % b == tmod(a, b),
        tmod(a, b) < 0 ==> a % b == tmod(a, b) + b,
{
    lemma_fundamental_div_mod(a, b);
    lemma_tdiv_bounds(a, b);
    let q = tdiv(a, b);
    let r = tmod(a, b);
    let qe = a / b;
    let re = a % b;
    assert(b * q + r == b * qe + re);
    if r >= 0 {
        assert(q == qe) by (nonlinear_arith)
            requires
                b > 0,
                0 <= r < b,
                0 <= re < b,
                b * q + r == b * qe + re,
        ;
    } else {
        assert(q == qe + 1) by (nonlinear_arith)
            requires
                b > 0,
                -b < r < 0,
                0 <= re < b,
                b * q + r == b * qe + re,
        ;
        assert(b * q == b * qe + b) by (nonlinear_arith)
            requires
                q == qe + 1,
        ;
    }
}

/// The half-turn sine stays within [0, 1000] and its divisor is positive.
pub proof fn lemma_sin_half_range(p: int)
    requires
        0 <= p <= PI_MILLI as int,
    ensures
        0 <= 16 * p * (PI_MILLI as int - p) * 1000,
        16 * p * (PI_MILLI as int - p) <= 40_000_000_000,
        5 * (PI_MILLI as int) * (PI_MILLI as int) - 4 * p * (PI_MILLI as int - p) >= 39_000_000,
        0 <= spec_sin_half(p) <= 1000,
{
    let pi = PI_MILLI as int;
    let num = 16 * p * (pi - p) * 1000;
    let den = 5 * pi * pi - 4 * p * (pi - p);
    assert(0 <= num && 16 * p * (pi - p) <= 40_000_000_000 && den >= 39_000_000 && num <= 1000
        * den) by (nonlinear_arith)
        requires
            0 <= p <= pi,
            pi == 3142,
            num == 16 * p * (pi - p) * 1000,
            den == 5 * pi * pi - 4 * p * (pi - p),
    ;
    assert(0 <= num / den <= 1000) by (nonlinear_arith)
        requires
            0 <= num,
            num <= 1000 * den,
            den > 0,
    ;
    assert(spec_sin_half(p) == num / den);
}

/// The sine on a half turn, exec form of the rational approximation.
fn sin_half(p: i64) -> (r: i64)
    requires
        0 <= p <= PI_MILLI,
    ensures
        r == spec_sin_half(p as int),
        0 <= r <= 1000,
{
    proof {
        lemma_sin_half_range(p as int);
        assert(p * (PI_MILLI as int - p) * 16 * 1000 == 16 * p * (PI_MILLI as int - p) * 1000)
            by (nonlinear_arith);
        assert(p * (PI_MILLI as int - p) <= 2_500_000) by (nonlinear_arith)
            requires
                0 <= p <= 3142,
                PI_MILLI == 3142,
        ;
        assert(4 * (p * (PI_MILLI as int - p)) == 4 * p * (PI_MILLI as int - p))
            by (nonlinear_arith);
    }
    let w: i64 = p * (PI_MILLI - p);
    let num: i64 = w * 16 * 1000;
    let den: i64 = 5 * PI_MILLI * PI_MILLI - 4 * w;
    let q: u64 = (num as u64) / (den as u64);
    proof {
        assert(q <= num) by (nonlinear_arith)
            requires
                den as u64 >= 1,
                q == num as u64 / den as u64,
                num >= 0,
        ;
    }
    q as i64
}

/// The sine of a phase given in thousandths of a radian, in [-1000, 1000].
pub fn sin_unit(x: i64) -> (r: i64)
    requires
        x != i64::MIN,
    ensures
        r == spec_sin_unit(x as int),
        -1000 <= r <= 1000,
{
    let t: i64 = rem_trunc(x, TWO_PI_MILLI);
    proof {
        lemma_tmod_emod(x as int, TWO_PI_MILLI as int);
    }
    let p: i64 = if t < 0 {
        t + TWO_PI_MILLI
    } else {
        t
    };
    if p < PI_MILLI {
        let s = sin_half(p);
        proof {
            lemma_sin_half_range(p as int);
        }
        s
    } else {
        let s = sin_half(p - PI_MILLI);
        proof {
            lemma_sin_half_range(p as int - PI_MILLI as int);
        }
        -s
    }
}

/// The cosine of a phase in thousandths of a radian, in [-1000, 1000].
pub fn cos_unit(x: i64) -> (r: i64)
    requires
        x <= i64::MAX - HALF_PI_MILLI,
    ensures
        r == spec_cos_unit(x as int),
        -1000 <= r <= 1000,
{
    sin_unit(x + HALF_PI_MILLI)
}

/// Bounds relating a truncating quotient to its dividend.
pub proof fn lemma_tdiv_bounds(a: int, b: int)
    requires
        b > 0,
    ensures
        sabs(a - b * tdiv(a, b)) < b,
        sabs(tdiv(a, b)) <= sabs(a),
        a >= 0 ==> 0 <= a - b * tdiv(a, b),
        a < 0 ==> a - b * tdiv(a, b) <= 0,
        sabs(b * tdiv(a, b)) <= sabs(a),
{
    if a >= 0 {
        assert(0 <= a - b * (a / b) < b) by (nonlinear_arith)
            requires
                a >= 0,
                b > 0,
        ;
        assert(a / b <= a && 0 <= a / b) by (nonlinear_arith)
            requires
                a >= 0,
                b > 0,
        ;
        assert(b * (a / b) <= a) by (nonlinear_arith)
            requires
                a >= 0,
                b > 0,
        ;
    } else {
        let m = -a;
        assert(0 <= m - b * (m / b) < b) by (nonlinear_arith)
            requires
                m >= 0,
                b > 0,
        ;
        assert(m / b <= m && 0 <= m / b) by (nonlinear_arith)
            requires
                m >= 0,
                b > 0,
        ;
        assert(b * (m / b) <= m) by (nonlinear_arith)
            requires
                m >= 0,
                b > 0,
        ;
        assert(b * tdiv(a, b) == -(b * (m / b))) by (nonlinear_arith)
            requires
                tdiv(a, b) == -(m / b),
        ;
    }
}

} // verus!
