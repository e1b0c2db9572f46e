//! Tests for the escape-time evaluators and the coordinate mapper.

use fractal_art::fixed::Complex;
use fractal_art::julia_sets::to_complex;
use fractal_art::julias::{pixel_set_multi, pixel_setter};

const SCALE: i64 = 1048576;
const HALF_SPAN: i64 = 1572864;

#[test]
fn immediate_escape_outside_radius() {
    // |point| > 2.0 and iteration 0: the evaluator returns 0.
    let far = [
        Complex { re: 3 * SCALE, im: 0 },
        Complex { re: 0, im: -3 * SCALE },
        Complex { re: 2 * SCALE, im: 2 * SCALE },
        Complex { re: -5 * SCALE, im: 5 * SCALE },
    ];
    for p in far {
        for sel in 1..=10u64 {
            assert_eq!(pixel_setter(p, 0, sel), 0);
        }
        assert_eq!(pixel_set_multi(p, 0, 4), 0);
    }
}

#[test]
fn origin_with_first_constant_is_pinned() {
    // Regression fixture: point (0,0) with the palette's first
    // constant (-0.4, 0.6) escapes after a fixed, reproducible count.
    let origin = Complex { re: 0, im: 0 };
    assert_eq!(pixel_setter(origin, 0, 1), 26);
    // A second run of the same trajectory gives the same count.
    assert_eq!(pixel_setter(origin, 0, 1), 26);
}

#[test]
fn origin_with_second_constant_is_pinned() {
    let origin = Complex { re: 0, im: 0 };
    assert_eq!(pixel_setter(origin, 0, 2), 19);
}

#[test]
fn point_one_one_escapes_after_one_step() {
    let p = Complex { re: SCALE, im: SCALE };
    assert_eq!(pixel_setter(p, 0, 1), 1);
}

#[test]
fn count_always_within_budget() {
    // Iteration count is always in [0, 255].
    for xi in -6..=6i64 {
        for yi in -6..=6i64 {
            let p = Complex { re: xi * SCALE / 2, im: yi * SCALE / 2 };
            for sel in 1..=10u64 {
                let count = pixel_setter(p, 0, sel);
                assert!(count <= 255);
            }
            for n in 2..=7u64 {
                let count = pixel_set_multi(p, 0, n);
                assert!(count <= 255);
            }
        }
    }
}

#[test]
fn starting_count_is_never_lowered() {
    let p = Complex { re: 0, im: 0 };
    assert_eq!(pixel_setter(p, 200, 1), 226);
    assert_eq!(pixel_setter(p, 255, 1), 255);
}

#[test]
fn inside_point_spends_whole_budget_multi() {
    let origin = Complex { re: 0, im: 0 };
    assert_eq!(pixel_set_multi(origin, 0, 3), 255);
}

#[test]
fn to_complex_origin_is_corner() {
    // to_complex(0, 0, W, H) is (-1.5, -1.5) for any W, H.
    for (w, h) in [(1u32, 1u32), (4, 4), (7, 5), (700, 700), (16384, 1)] {
        let p = to_complex(0, 0, w, h);
        assert_eq!(p.re, -HALF_SPAN);
        assert_eq!(p.im, -HALF_SPAN);
    }
}

#[test]
fn to_complex_linear_where_division_is_exact() {
    // With dimensions dividing the scaled span, the mapping is exactly
    // linear in each pixel coordinate.
    let w = 4u32;
    let h = 8u32;
    let step_re = 3 * SCALE / w as i64;
    let step_im = 3 * SCALE / h as i64;
    for x in 0..w {
        for y in 0..h {
            let p = to_complex(x, y, w, h);
            assert_eq!(p.re, y as i64 * step_re - HALF_SPAN);
            assert_eq!(p.im, x as i64 * step_im - HALF_SPAN);
        }
    }
}

#[test]
fn to_complex_swaps_axes() {
    let p = to_complex(2, 3, 7, 5);
    // re comes from y scaled by the width, im from x scaled by the height.
    assert_eq!(p.re, 3 * SCALE * 3 / 7 - HALF_SPAN);
    assert_eq!(p.im, 3 * SCALE * 2 / 5 - HALF_SPAN);
    assert_eq!(p.re, -224695);
    assert_eq!(p.im, -314573);
}
