//! Fixed-point arithmetic on the complex plane.
//!
//! Plane coordinates are held as 64-bit integers scaled by `SCALE`
//! (one plane unit is `SCALE` ticks), so that the escape-time
//! recurrence is exact, reproducible integer arithmetic.

use vstd::prelude::*;
use vstd::arithmetic::div_mod::{
    lemma_div_is_ordered, lemma_fundamental_div_mod, lemma_fundamental_div_mod_converse,
};

verus! {

/// Number of integer ticks per plane unit.
pub const SCALE: i64 = 1048576;

/// 1.5 plane units in ticks: half the 3.0-unit plane span.
pub const HALF_SPAN: i64 = 1572864;

/// The squared escape radius (2.0 plane units), in squared ticks.
pub const ESCAPE_SQ: i64 = 4 * 1048576 * 1048576;

/// Largest magnitude `fxdiv` accepts.
pub const FXDIV_MAX: i64 = 4611686018427387904;

/// Largest component magnitude `escaped` accepts.
pub const NORM_MAX: i64 = 1152921504606846976;

/// Largest component magnitude of the left factor of `complex_mul`.
pub const MUL_LEFT_MAX: i64 = 17179869184;

/// Largest component magnitude of the right factor of `complex_mul`.
pub const MUL_RIGHT_MAX: i64 = 4194304;

/// The mathematical value of a plane point: both components in ticks,
/// as unbounded integers.
pub struct ComplexView {
    pub re: int,
    pub im: int,
}

/// A point of the complex plane in fixed-point representation.
#[derive(Clone, Copy, Debug, PartialEq, Eq, Structural)]
pub struct Complex {
    pub re: i64,
    pub im: i64,
}

impl View for Complex {
    type V = ComplexView;

    open spec fn view(&self) -> ComplexView {
        ComplexView { re: self.re as int, im: self.im as int }
    }
}

/// Rescaling division: the floor of `a / SCALE`.
pub open spec fn fxdiv_spec(a: int) -> int {
    a / (SCALE as int)
}

/// Exact complex addition on views.
pub open spec fn spec_complex_add(a: ComplexView, b: ComplexView) -> ComplexView {
    ComplexView { re: a.re + b.re, im: a.im + b.im }
}

/// Fixed-point complex multiplication on views: the exact product,
/// rescaled by a flooring division of each component.
pub open spec fn spec_complex_mul(a: ComplexView, b: ComplexView) -> ComplexView {
    ComplexView {
        re: fxdiv_spec(a.re * b.re - a.im * b.im),
        im: fxdiv_spec(a.re * b.im + a.im * b.re),
    }
}

/// The squared magnitude of a point, in squared ticks.
pub open spec fn norm_sq(z: ComplexView) -> int {
    z.re * z.re + z.im * z.im
}

/// Flooring division of a negative dividend restated over a
/// non-negative one, so that it can be computed without signed
/// machine division.
proof fn lemma_fxdiv_neg(a: int, s: int)
    requires
        a < 0,
        s > 0,
    ensures
        a / s == -((-a + s - 1) / s),
{
    let m = -a;
    let d = m + s - 1;
    let q = d / s;
    let r = d % s;
    lemma_fundamental_div_mod(d, s);
    assert(d == s * q + r);
    assert(a == (-q) * s + (s - 1 - r)) by {
        assert(a == -(s * q + r) + s - 1);
        assert(-(s * q) == (-q) * s) by (nonlinear_arith);
    }
    lemma_fundamental_div_mod_converse(a, s, -q, s - 1 - r);
}

/// A two-sided bound on the dividend gives a two-sided bound on the
/// floored quotient.
pub proof fn lemma_div_two_sided(v: int, m: int, s: int)
    requires
        -m <= v <= m,
        0 <= m,
        0 < s,
    ensures
        -(m / s) - 1 <= v / s <= m / s,
{
    lemma_div_is_ordered(v, m, s);
    assert(-(m / s) - 1 <= v / s) by {
        lemma_div_is_ordered(-m, v, s);
        assert(-m == (-(m / s) - 1) * s + (s - m % s)) by {
            lemma_fundamental_div_mod(m, s);
            assert((-(m / s) - 1) * s == -(s * (m / s)) - s) by (nonlinear_arith);
        }
        if m % s == 0 {
            assert(-m == (-(m / s)) * s + 0) by {
                lemma_fundamental_div_mod(m, s);
                assert((-(m / s)) * s == -(s * (m / s))) by (nonlinear_arith);
            }
            lemma_fundamental_div_mod_converse(-m, s, -(m / s), 0);
        } else {
            lemma_fundamental_div_mod_converse(-m, s, -(m / s) - 1, s - m % s);
        }
    }
}

/// Divide by `SCALE`, rounding toward negative infinity.
pub fn fxdiv(a: i64) -> (r: i64)
    requires
        -FXDIV_MAX <= a <= FXDIV_MAX,
    ensures
        r == fxdiv_spec(a as int),
{
    if a >= 0 {
        a / SCALE
    } else {
        let m: i64 = -a;
        let q: i64 = (m + SCALE - 1) / SCALE;
        proof {
            lemma_fxdiv_neg(a as int, SCALE as int);
        }
        -q
    }
}

/// Exact complex addition; the caller keeps components small enough
/// not to overflow.
pub fn complex_add(a: &Complex, b: &Complex) -> (r: Complex)
    requires
        -FXDIV_MAX <= a.re + b.re <= FXDIV_MAX,
        -FXDIV_MAX <= a.im + b.im <= FXDIV_MAX,
    ensures
        r@ == spec_complex_add(a@, b@),
{
    Complex { re: a.re + b.re, im: a.im + b.im }
}

/// Fixed-point complex multiplication.
pub fn complex_mul(a: &Complex, b: &Complex) -> (r: Complex)
    requires
        -MUL_LEFT_MAX <= a.re <= MUL_LEFT_MAX,
        -MUL_LEFT_MAX <= a.im <= MUL_LEFT_MAX,
        -MUL_RIGHT_MAX <= b.re <= MUL_RIGHT_MAX,
        -MUL_RIGHT_MAX <= b.im <= MUL_RIGHT_MAX,
    ensures
        r@ == spec_complex_mul(a@, b@),
{
    proof {
        assert(-MUL_LEFT_MAX * MUL_RIGHT_MAX <= a.re * b.re <= MUL_LEFT_MAX * MUL_RIGHT_MAX
            && -MUL_LEFT_MAX * MUL_RIGHT_MAX <= a.im * b.im <= MUL_LEFT_MAX * MUL_RIGHT_MAX
            && -MUL_LEFT_MAX * MUL_RIGHT_MAX <= a.re * b.im <= MUL_LEFT_MAX * MUL_RIGHT_MAX
            && -MUL_LEFT_MAX * MUL_RIGHT_MAX <= a.im * b.re <= MUL_LEFT_MAX * MUL_RIGHT_MAX)
            by (nonlinear_arith)
            requires
                -MUL_LEFT_MAX <= a.re <= MUL_LEFT_MAX,
                -MUL_LEFT_MAX <= a.im <= MUL_LEFT_MAX,
                -MUL_RIGHT_MAX <= b.re <= MUL_RIGHT_MAX,
                -MUL_RIGHT_MAX <= b.im <= MUL_RIGHT_MAX,
        ;
    }
    let rr: i64 = a.re * b.re;
    let ii: i64 = a.im * b.im;
    let ri: i64 = a.re * b.im;
    let ir: i64 = a.im * b.re;
    let re: i64 = fxdiv(rr - ii);
    let im: i64 = fxdiv(ri + ir);
    Complex { re, im }
}

/// Whether a point lies strictly outside the escape radius.
pub fn escaped(z: &Complex) -> (r: bool)
    requires
        -NORM_MAX <= z.re <= NORM_MAX,
        -NORM_MAX <= z.im <= NORM_MAX,
    ensures
        r == (norm_sq(z@) > ESCAPE_SQ),
{
    let re: i128 = z.re as i128;
    let im: i128 = z.im as i128;
    proof {
        assert(0 <= re * re <= NORM_MAX * NORM_MAX && 0 <= im * im <= NORM_MAX * NORM_MAX)
            by (nonlinear_arith)
            requires
                -NORM_MAX <= re <= NORM_MAX,
                -NORM_MAX <= im <= NORM_MAX,
        ;
    }
    re * re + im * im > ESCAPE_SQ as i128
}

/// A point whose squared magnitude is within the escape bound has both
/// components within twice the scale.
pub proof fn lemma_norm_component_bound(z: ComplexView)
    requires
        norm_sq(z) <= ESCAPE_SQ,
    ensures
        -2 * SCALE <= z.re <= 2 * SCALE,
        -2 * SCALE <= z.im <= 2 * SCALE,
{
    assert(z.re * z.re + z.im * z.im <= 4 * 1048576 * 1048576
        ==> (-2097152 <= z.re <= 2097152 && -2097152 <= z.im <= 2097152)) by (nonlinear_arith);
}

/// Component bounds on both factors give a component bound on the
/// fixed-point product.
pub proof fn lemma_complex_mul_bound(a: ComplexView, b: ComplexView, ma: int, mb: int)
    requires
        -ma <= a.re <= ma,
        -ma <= a.im <= ma,
        -mb <= b.re <= mb,
        -mb <= b.im <= mb,
        0 <= ma,
        0 <= mb,
    ensures
        -((2 * ma * mb) / (SCALE as int)) - 1 <= spec_complex_mul(a, b).re <= (2 * ma * mb) / (
        SCALE as int),
        -((2 * ma * mb) / (SCALE as int)) - 1 <= spec_complex_mul(a, b).im <= (2 * ma * mb) / (
        SCALE as int),
{
    let m = 2 * ma * mb;
    assert(-m <= a.re * b.re - a.im * b.im <= m && -m <= a.re * b.im + a.im * b.re <= m)
        by (nonlinear_arith)
        requires
            -ma <= a.re <= ma,
            -ma <= a.im <= ma,
            -mb <= b.re <= mb,
            -mb <= b.im <= mb,
            0 <= ma,
            0 <= mb,
            m == 2 * ma * mb,
    ;
    lemma_div_two_sided(a.re * b.re - a.im * b.im, m, SCALE as int);
    lemma_div_two_sided(a.re * b.im + a.im * b.re, m, SCALE as int);
}

} // verus!
