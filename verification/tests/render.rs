//! End-to-end tests of the fractal renderer.

use fractal_art::buffer::PixelBuf;
use fractal_art::julia_sets::{julia_fractal, render_with_param, to_complex};
use fractal_art::julias::{pixel_set_multi, pixel_setter};
use fractal_art::util::{Color, FractalKind, RenderError, Scheme};

fn white_on_black(kind: FractalKind) -> Scheme {
    Scheme {
        fractal: kind,
        color: Color::White,
        fancy_background: false,
        bg_color: Color::Black,
        bg_color_2: Color::Red,
    }
}

fn buffers_equal(a: &PixelBuf, b: &PixelBuf) -> bool {
    if a.width() != b.width() || a.height() != b.height() {
        return false;
    }
    for x in 0..a.width() {
        for y in 0..a.height() {
            if a.get_pixel(x, y) != b.get_pixel(x, y) {
                return false;
            }
        }
    }
    true
}

#[test]
fn white_julia_render_is_grayscale_of_escape_counts() {
    // A 4x4 white-on-black Julia render: each pixel's three channels
    // are equal and match the evaluator's count for the pixel's
    // mapped complex point.
    let scheme = white_on_black(FractalKind::Julia);
    let buf = render_with_param(FractalKind::Julia, 4, 4, &scheme, 1).unwrap();
    assert_eq!(buf.width(), 4);
    assert_eq!(buf.height(), 4);
    for x in 0..4u32 {
        for y in 0..4u32 {
            let p = buf.get_pixel(x, y);
            assert_eq!(p.r, p.g);
            assert_eq!(p.g, p.b);
            let count = pixel_setter(to_complex(x, y, 4, 4), 0, 1);
            assert_eq!(p.r as u64, count);
        }
    }
    // The whole grid is pinned as a regression fixture.
    let expected: [[u8; 4]; 4] = [
        [0, 1, 2, 1],
        [1, 2, 6, 5],
        [1, 37, 26, 37],
        [1, 5, 6, 2],
    ];
    for y in 0..4u32 {
        for x in 0..4u32 {
            assert_eq!(buf.get_pixel(x, y).r, expected[y as usize][x as usize]);
        }
    }
}

#[test]
fn foreground_channel_overwrites_only_its_channel() {
    // A green foreground writes the count into the green channel and
    // keeps the red/blue gradient background in the other two.
    let scheme = Scheme {
        fractal: FractalKind::Julia,
        color: Color::Green,
        fancy_background: true,
        bg_color: Color::Red,
        bg_color_2: Color::Blue,
    };
    let buf = render_with_param(FractalKind::Julia, 9, 13, &scheme, 3).unwrap();
    for x in 0..13u32 {
        for y in 0..9u32 {
            let p = buf.get_pixel(x, y);
            assert_eq!(p.r as u64, (3 * x as u64 / 10) % 256);
            assert_eq!(p.g as u64, pixel_setter(to_complex(x, y, 13, 9), 0, 3));
            assert_eq!(p.b as u64, (3 * y as u64 / 10) % 256);
        }
    }
}

#[test]
fn multi_julia_uses_the_exponent_formula() {
    let scheme = white_on_black(FractalKind::MultiJulia);
    let buf = render_with_param(FractalKind::MultiJulia, 5, 5, &scheme, 3).unwrap();
    for x in 0..5u32 {
        for y in 0..5u32 {
            let count = pixel_set_multi(to_complex(x, y, 5, 5), 0, 3);
            assert_eq!(buf.get_pixel(x, y).r as u64, count);
        }
    }
}

#[test]
fn unsupported_foreground_color_is_fatal_for_the_render() {
    for bad in [Color::Black, Color::Orange, Color::Yellow, Color::Violet] {
        let mut scheme = white_on_black(FractalKind::Julia);
        scheme.color = bad;
        let r = render_with_param(FractalKind::Julia, 4, 4, &scheme, 1);
        assert_eq!(r.unwrap_err(), RenderError::UnsupportedColor);
    }
}

#[test]
fn render_with_fixed_param_is_reproducible() {
    // Same scheme, dimensions and formula parameter: byte-identical
    // buffers.
    let scheme = Scheme {
        fractal: FractalKind::Julia,
        color: Color::Blue,
        fancy_background: true,
        bg_color: Color::Green,
        bg_color_2: Color::Red,
    };
    let a = render_with_param(FractalKind::Julia, 12, 10, &scheme, 7).unwrap();
    let b = render_with_param(FractalKind::Julia, 12, 10, &scheme, 7).unwrap();
    assert!(buffers_equal(&a, &b));
}

#[test]
fn random_render_matches_some_palette_entry() {
    // The drawn formula parameter stays in the kind's range: the
    // random render equals the fixed-parameter render for some
    // palette selector.
    let scheme = white_on_black(FractalKind::Julia);
    let buf = julia_fractal(FractalKind::Julia, 6, 6, &scheme).unwrap();
    let mut matched = false;
    for sel in 1..=10u64 {
        let fixed = render_with_param(FractalKind::Julia, 6, 6, &scheme, sel).unwrap();
        if buffers_equal(&buf, &fixed) {
            matched = true;
        }
    }
    assert!(matched);
}

#[test]
fn random_multi_render_matches_some_exponent() {
    let scheme = white_on_black(FractalKind::MultiJulia);
    let buf = julia_fractal(FractalKind::MultiJulia, 6, 6, &scheme).unwrap();
    let mut matched = false;
    for n in 2..=7u64 {
        let fixed = render_with_param(FractalKind::MultiJulia, 6, 6, &scheme, n).unwrap();
        if buffers_equal(&buf, &fixed) {
            matched = true;
        }
    }
    assert!(matched);
}

#[test]
fn unknown_kind_defaults_to_the_julia_formula() {
    let scheme = white_on_black(FractalKind::Mandelbrot);
    let buf = render_with_param(FractalKind::Mandelbrot, 4, 4, &scheme, 1).unwrap();
    let julia = render_with_param(FractalKind::Julia, 4, 4, &scheme, 1).unwrap();
    assert!(buffers_equal(&buf, &julia));
}
