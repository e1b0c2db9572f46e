//! The escape-time evaluators for the Julia and multi-Julia recurrences.

use vstd::prelude::*;
use crate::fixed::{
    complex_add, complex_mul, escaped, lemma_complex_mul_bound, lemma_norm_component_bound,
    norm_sq, spec_complex_add, spec_complex_mul, Complex, ComplexView, ESCAPE_SQ, SCALE,
};

verus! {

/// Iteration budget: the largest escape count, chosen so that a count
/// maps directly onto one 8-bit color channel.
pub const MAX_ITER: u64 = 255;

/// Largest point-component magnitude the evaluators accept.
pub const POINT_MAX: i64 = 1099511627776;

/// The palette of Julia constants, in ticks; selectors outside 1..=10
/// fall back to the first entry.
pub open spec fn julia_constant(sel: int) -> ComplexView {
    if sel == 2 {
        ComplexView { re: 298844, im: 10486 }
    } else if sel == 3 {
        ComplexView { re: -762210, im: 198076 }
    } else if sel == 4 {
        ComplexView { re: -838861, im: 163578 }
    } else if sel == 5 {
        ComplexView { re: -735849, im: -402863 }
    } else if sel == 6 {
        ComplexView { re: 387973, im: 104858 }
    } else if sel == 7 {
        ComplexView { re: -875561, im: -243374 }
    } else if sel == 8 {
        ComplexView { re: -781640, im: 118500 }
    } else if sel == 9 {
        ComplexView { re: 372244, im: 372244 }
    } else if sel == 10 {
        ComplexView { re: -566231, im: 566231 }
    } else {
        ComplexView { re: -419430, im: 629146 }
    }
}

/// The constant of every palette entry stays within one scale unit per
/// component.
pub proof fn lemma_julia_constant_bound(sel: int)
    ensures
        -SCALE <= julia_constant(sel).re <= SCALE,
        -SCALE <= julia_constant(sel).im <= SCALE,
{
}

/// Pick the Julia constant the selector stands for.
pub fn julia_palette(sel: u64) -> (c: Complex)
    ensures
        c@ == julia_constant(sel as int),
{
    if sel == 2 {
        Complex { re: 298844, im: 10486 }
    } else if sel == 3 {
        Complex { re: -762210, im: 198076 }
    } else if sel == 4 {
        Complex { re: -838861, im: 163578 }
    } else if sel == 5 {
        Complex { re: -735849, im: -402863 }
    } else if sel == 6 {
        Complex { re: 387973, im: 104858 }
    } else if sel == 7 {
        Complex { re: -875561, im: -243374 }
    } else if sel == 8 {
        Complex { re: -781640, im: 118500 }
    } else if sel == 9 {
        Complex { re: 372244, im: 372244 }
    } else if sel == 10 {
        Complex { re: -566231, im: 566231 }
    } else {
        Complex { re: -419430, im: 629146 }
    }
}

/// One step of the Julia recurrence: `z * z + c` in fixed point.
pub open spec fn spec_julia_step(z: ComplexView, c: ComplexView) -> ComplexView {
    spec_complex_add(spec_complex_mul(z, z), c)
}

/// Integer complex power `z^n` in fixed point, for `n >= 1`.
pub open spec fn spec_complex_pow(z: ComplexView, n: nat) -> ComplexView
    decreases n,
{
    if n <= 1 {
        z
    } else {
        spec_complex_mul(spec_complex_pow(z, (n - 1) as nat), z)
    }
}

/// One step of the multi-Julia recurrence: `z^n + c` in fixed point.
pub open spec fn spec_multi_step(z: ComplexView, c: ComplexView, n: nat) -> ComplexView {
    spec_complex_add(spec_complex_pow(z, n), c)
}

/// The escape time of the Julia recurrence from point `z` with
/// constant `c`, counting from `iter`: the first counter value at
/// which the budget is spent or the point lies outside the escape
/// radius.
pub open spec fn spec_escape_time(z: ComplexView, c: ComplexView, iter: nat) -> nat
    decreases MAX_ITER - iter,
{
    if iter >= MAX_ITER {
        iter
    } else if norm_sq(z) > ESCAPE_SQ {
        iter
    } else {
        spec_escape_time(spec_julia_step(z, c), c, (iter + 1) as nat)
    }
}

/// The escape time of the multi-Julia recurrence `z^n + c`.
pub open spec fn spec_escape_time_multi(z: ComplexView, c: ComplexView, n: nat, iter: nat) -> nat
    decreases MAX_ITER - iter,
{
    if iter >= MAX_ITER {
        iter
    } else if norm_sq(z) > ESCAPE_SQ {
        iter
    } else {
        spec_escape_time_multi(spec_multi_step(z, c, n), c, n, (iter + 1) as nat)
    }
}

/// A point strictly outside the escape radius escapes at once: the
/// evaluator returns the starting count unchanged.
pub proof fn lemma_immediate_escape(z: ComplexView, c: ComplexView, iter: nat)
    requires
        norm_sq(z) > ESCAPE_SQ,
    ensures
        spec_escape_time(z, c, iter) == iter,
{
}

/// A point strictly outside the escape radius escapes at once under
/// the multi-Julia recurrence as well.
pub proof fn lemma_immediate_escape_multi(z: ComplexView, c: ComplexView, n: nat, iter: nat)
    requires
        norm_sq(z) > ESCAPE_SQ,
    ensures
        spec_escape_time_multi(z, c, n, iter) == iter,
{
}

/// The escape count never leaves `[iter, MAX_ITER]` when the start
/// count is within budget.
pub proof fn lemma_escape_time_range(z: ComplexView, c: ComplexView, iter: nat)
    requires
        iter <= MAX_ITER,
    ensures
        iter <= spec_escape_time(z, c, iter) <= MAX_ITER,
    decreases MAX_ITER - iter,
{
    if iter >= MAX_ITER || norm_sq(z) > ESCAPE_SQ {
    } else {
        lemma_escape_time_range(spec_julia_step(z, c), c, (iter + 1) as nat);
    }
}

/// The multi-Julia escape count never leaves `[iter, MAX_ITER]` when
/// the start count is within budget.
pub proof fn lemma_escape_time_multi_range(z: ComplexView, c: ComplexView, n: nat, iter: nat)
    requires
        iter <= MAX_ITER,
    ensures
        iter <= spec_escape_time_multi(z, c, n, iter) <= MAX_ITER,
    decreases MAX_ITER - iter,
{
    if iter >= MAX_ITER || norm_sq(z) > ESCAPE_SQ {
    } else {
        lemma_escape_time_multi_range(spec_multi_step(z, c, n), c, n, (iter + 1) as nat);
    }
}

/// Run the Julia recurrence `z <- z * z + c` from `point`, with the
/// palette constant `randjulia` selects, until the point escapes or
/// the budget is spent, counting iterations from `iteration`.
pub fn pixel_setter(point: Complex, iteration: u64, randjulia: u64) -> (count: u64)
    requires
        -POINT_MAX <= point.re <= POINT_MAX,
        -POINT_MAX <= point.im <= POINT_MAX,
    ensures
        count == spec_escape_time(point@, julia_constant(randjulia as int), iteration as nat),
{
    let c = julia_palette(randjulia);
    proof {
        lemma_julia_constant_bound(randjulia as int);
    }
    let mut z = point;
    let mut iter = iteration;
    let mut esc = escaped(&z);
    while iter < MAX_ITER && !esc
        invariant
            -POINT_MAX <= z.re <= POINT_MAX,
            -POINT_MAX <= z.im <= POINT_MAX,
            iteration <= iter,
            c@ == julia_constant(randjulia as int),
            -SCALE <= c.re <= SCALE,
            -SCALE <= c.im <= SCALE,
            esc == (norm_sq(z@) > ESCAPE_SQ),
            spec_escape_time(point@, c@, iteration as nat) == spec_escape_time(
                z@,
                c@,
                iter as nat,
            ),
        decreases MAX_ITER - iter,
    {
        proof {
            lemma_norm_component_bound(z@);
            lemma_complex_mul_bound(z@, z@, 2 * SCALE as int, 2 * SCALE as int);
        }
        let zz = complex_mul(&z, &z);
        z = complex_add(&zz, &c);
        iter = iter + 1;
        esc = escaped(&z);
    }
    iter
}

/// An upper bound on the component magnitude of `z^k`, maintained by
/// the power loop: one fixed-point multiplication can at most
/// quadruple it and add one.
pub open spec fn pow_bound(k: nat) -> int
    decreases k,
{
    if k <= 1 {
        2 * SCALE as int
    } else {
        4 * pow_bound((k - 1) as nat) + 1
    }
}

/// Concrete values of `pow_bound` up to the largest accepted
/// exponent: all within the left-factor bound of `complex_mul`.
proof fn lemma_pow_bound_concrete()
    ensures
        pow_bound(1) == 2097152,
        pow_bound(2) == 8388609,
        pow_bound(3) == 33554437,
        pow_bound(4) == 134217749,
        pow_bound(5) == 536870997,
        pow_bound(6) == 2147483989,
        pow_bound(7) == 8589935957,
{
    assert(pow_bound(1) == 2097152);
    assert(pow_bound(2) == 8388609);
    assert(pow_bound(3) == 33554437);
    assert(pow_bound(4) == 134217749);
    assert(pow_bound(5) == 536870997);
    assert(pow_bound(6) == 2147483989);
    assert(pow_bound(7) == 8589935957);
}

/// `pow_bound` never falls under twice the scale.
proof fn lemma_pow_bound_pos(k: nat)
    ensures
        pow_bound(k) >= 2 * SCALE as int,
    decreases k,
{
    if k > 1 {
        lemma_pow_bound_pos((k - 1) as nat);
    }
}

/// `pow_bound` grows with the exponent.
proof fn lemma_pow_bound_monotone(j: nat, k: nat)
    requires
        1 <= j <= k,
    ensures
        pow_bound(j) <= pow_bound(k),
    decreases k,
{
    if j < k {
        lemma_pow_bound_monotone(j, (k - 1) as nat);
        lemma_pow_bound_pos((k - 1) as nat);
    }
}

/// Compute `z^n` in fixed point for a point within the escape radius.
fn complex_pow(z: &Complex, n: u64) -> (r: Complex)
    requires
        1 <= n <= 7,
        norm_sq(z@) <= ESCAPE_SQ,
    ensures
        r@ == spec_complex_pow(z@, n as nat),
        -pow_bound(n as nat) <= r.re <= pow_bound(n as nat),
        -pow_bound(n as nat) <= r.im <= pow_bound(n as nat),
{
    proof {
        lemma_norm_component_bound(z@);
        lemma_pow_bound_concrete();
    }
    let mut acc = *z;
    let mut k: u64 = 1;
    while k < n
        invariant
            1 <= k <= n <= 7,
            norm_sq(z@) <= ESCAPE_SQ,
            acc@ == spec_complex_pow(z@, k as nat),
            -pow_bound(k as nat) <= acc.re <= pow_bound(k as nat),
            -pow_bound(k as nat) <= acc.im <= pow_bound(k as nat),
        decreases n - k,
    {
        proof {
            lemma_pow_bound_concrete();
            lemma_pow_bound_monotone(k as nat, 6);
            lemma_norm_component_bound(z@);
            lemma_complex_mul_bound(acc@, z@, pow_bound(k as nat), 2 * SCALE as int);
            assert((2 * pow_bound(k as nat) * (2 * SCALE as int)) / (SCALE as int) == 4 * pow_bound(
                k as nat,
            )) by {
                vstd::arithmetic::div_mod::lemma_div_multiples_vanish(
                    4 * pow_bound(k as nat),
                    SCALE as int,
                );
                assert(2 * pow_bound(k as nat) * (2 * SCALE as int) == (SCALE as int) * (4
                    * pow_bound(k as nat))) by (nonlinear_arith);
            }
        }
        acc = complex_mul(&acc, z);
        k = k + 1;
    }
    acc
}

/// Run the multi-Julia recurrence `z <- z^n + c` from `point` with
/// exponent `randjulia` and the default palette constant, until the
/// point escapes or the budget is spent.
pub fn pixel_set_multi(point: Complex, iteration: u64, randjulia: u64) -> (count: u64)
    requires
        -POINT_MAX <= point.re <= POINT_MAX,
        -POINT_MAX <= point.im <= POINT_MAX,
        2 <= randjulia <= 7,
    ensures
        count == spec_escape_time_multi(
            point@,
            julia_constant(1),
            randjulia as nat,
            iteration as nat,
        ),
{
    let c = julia_palette(1);
    let mut z = point;
    let mut iter = iteration;
    let mut esc = escaped(&z);
    while iter < MAX_ITER && !esc
        invariant
            -POINT_MAX <= z.re <= POINT_MAX,
            -POINT_MAX <= z.im <= POINT_MAX,
            iteration <= iter,
            2 <= randjulia <= 7,
            c@ == julia_constant(1),
            esc == (norm_sq(z@) > ESCAPE_SQ),
            spec_escape_time_multi(point@, c@, randjulia as nat, iteration as nat)
                == spec_escape_time_multi(z@, c@, randjulia as nat, iter as nat),
        decreases MAX_ITER - iter,
    {
        proof {
            lemma_pow_bound_concrete();
            lemma_pow_bound_monotone(randjulia as nat, 7);
        }
        let p = complex_pow(&z, randjulia);
        z = complex_add(&p, &c);
        iter = iter + 1;
        esc = escaped(&z);
    }
    iter
}

} // verus!
