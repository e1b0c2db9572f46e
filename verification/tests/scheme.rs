//! Tests for colors, configuration, string helpers and backgrounds.

use fractal_art::buffer::{apply_background, gradient_pair_supported, gradient_level_exec, PixelBuf};
use fractal_art::util::{
    color_to_rgb, fractal_from_index, split_pair, str_eq, str_to_color, Color, FractalKind, Scheme,
};

#[test]
fn color_to_rgb_is_the_fixed_table() {
    assert_eq!(color_to_rgb(&Color::Red), [255, 0, 0]);
    assert_eq!(color_to_rgb(&Color::Orange), [255, 165, 0]);
    assert_eq!(color_to_rgb(&Color::Yellow), [255, 255, 0]);
    assert_eq!(color_to_rgb(&Color::Blue), [0, 0, 255]);
    assert_eq!(color_to_rgb(&Color::Green), [0, 128, 0]);
    assert_eq!(color_to_rgb(&Color::Violet), [238, 130, 238]);
    assert_eq!(color_to_rgb(&Color::Black), [0, 0, 0]);
    assert_eq!(color_to_rgb(&Color::White), [255, 255, 255]);
}

#[test]
fn str_to_color_parses_every_name() {
    assert_eq!(str_to_color("red"), Color::Red);
    assert_eq!(str_to_color("orange"), Color::Orange);
    assert_eq!(str_to_color("yellow"), Color::Yellow);
    assert_eq!(str_to_color("blue"), Color::Blue);
    assert_eq!(str_to_color("green"), Color::Green);
    assert_eq!(str_to_color("violet"), Color::Violet);
    assert_eq!(str_to_color("black"), Color::Black);
    assert_eq!(str_to_color("white"), Color::White);
}

#[test]
fn str_to_color_falls_back_to_blue() {
    assert_eq!(str_to_color(""), Color::Blue);
    assert_eq!(str_to_color("magenta"), Color::Blue);
    assert_eq!(str_to_color("RED"), Color::Blue);
}

#[test]
fn str_eq_compares_contents() {
    assert!(str_eq("julia", "julia"));
    assert!(!str_eq("julia", "multi-julia"));
    assert!(!str_eq("a", ""));
    assert!(str_eq("", ""));
}

#[test]
fn default_scheme_is_green_mandelbrot() {
    let s = Scheme::default();
    assert_eq!(s.fractal, FractalKind::Mandelbrot);
    assert_eq!(s.color, Color::Green);
    assert!(!s.fancy_background);
    assert_eq!(s.bg_color, Color::Black);
    assert_eq!(s.bg_color_2, Color::Red);
}

#[test]
fn fractal_from_index_covers_the_enumeration() {
    assert_eq!(fractal_from_index(0), FractalKind::Barnsley);
    assert_eq!(fractal_from_index(1), FractalKind::Mandelbrot);
    assert_eq!(fractal_from_index(2), FractalKind::Julia);
    assert_eq!(fractal_from_index(3), FractalKind::MultiJulia);
}

#[test]
fn split_pair_splits_on_a_single_separator() {
    let r = split_pair("400x600", 'x');
    assert_eq!(r, Some(("400", "600")));
    let r = split_pair(",ab", ',');
    assert_eq!(r, Some(("", "ab")));
}

#[test]
fn split_pair_refuses_zero_or_many_separators() {
    assert_eq!(split_pair("400600", 'x'), None);
    assert_eq!(split_pair("4x0x600", 'x'), None);
    assert_eq!(split_pair("", 'x'), None);
    assert_eq!(split_pair("xx", 'x'), None);
}

#[test]
fn gradient_levels_truncate_and_wrap() {
    assert_eq!(gradient_level_exec(0), 0);
    assert_eq!(gradient_level_exec(1), 0);
    assert_eq!(gradient_level_exec(4), 1);
    assert_eq!(gradient_level_exec(100), 30);
    assert_eq!(gradient_level_exec(700), 210);
    // Beyond 0.3 * v == 255 the channel wraps around.
    assert_eq!(gradient_level_exec(854) as u64, (3 * 854 / 10) % 256);
    assert_eq!(gradient_level_exec(4000) as u64, (3 * 4000 / 10) % 256);
}

#[test]
fn gradient_pairs_supported_are_the_six_ordered_pairs() {
    assert!(gradient_pair_supported(Color::Red, Color::Blue));
    assert!(gradient_pair_supported(Color::Red, Color::Green));
    assert!(gradient_pair_supported(Color::Green, Color::Blue));
    assert!(gradient_pair_supported(Color::Green, Color::Red));
    assert!(gradient_pair_supported(Color::Blue, Color::Red));
    assert!(gradient_pair_supported(Color::Blue, Color::Green));
    assert!(!gradient_pair_supported(Color::Red, Color::Red));
    assert!(!gradient_pair_supported(Color::Black, Color::Blue));
    assert!(!gradient_pair_supported(Color::Red, Color::Violet));
}

#[test]
fn solid_background_fills_with_bg_color() {
    // Solid mode: every pixel equals color_to_rgb(bg_color).
    for (w, h) in [(1u32, 1u32), (3, 2), (16, 16)] {
        let mut buf = PixelBuf::new(w, h);
        let scheme = Scheme {
            fractal: FractalKind::Julia,
            color: Color::White,
            fancy_background: false,
            bg_color: Color::Violet,
            bg_color_2: Color::Red,
        };
        apply_background(&mut buf, &scheme);
        for x in 0..w {
            for y in 0..h {
                let p = buf.get_pixel(x, y);
                assert_eq!((p.r, p.g, p.b), (238, 130, 238));
            }
        }
    }
}

#[test]
fn gradient_background_red_then_blue() {
    // Gradient mode with bg Red then Blue: pixel (x, y) is
    // (trunc(0.3 x) mod 256, 0, trunc(0.3 y) mod 256).
    let w = 20u32;
    let h = 13u32;
    let mut buf = PixelBuf::new(w, h);
    let scheme = Scheme {
        fractal: FractalKind::Julia,
        color: Color::White,
        fancy_background: true,
        bg_color: Color::Red,
        bg_color_2: Color::Blue,
    };
    apply_background(&mut buf, &scheme);
    for x in 0..w {
        for y in 0..h {
            let p = buf.get_pixel(x, y);
            assert_eq!(p.r as u64, (3 * x as u64 / 10) % 256);
            assert_eq!(p.g, 0);
            assert_eq!(p.b as u64, (3 * y as u64 / 10) % 256);
        }
    }
}

#[test]
fn gradient_background_green_then_blue() {
    let mut buf = PixelBuf::new(8, 8);
    let scheme = Scheme {
        fractal: FractalKind::Julia,
        color: Color::White,
        fancy_background: true,
        bg_color: Color::Green,
        bg_color_2: Color::Blue,
    };
    apply_background(&mut buf, &scheme);
    let p = buf.get_pixel(7, 4);
    assert_eq!((p.r, p.g, p.b), (0, 2, 1));
}

#[test]
fn gradient_unsupported_pair_leaves_pixels() {
    // An unsupported pair is a degraded, non-fatal condition: the
    // pixels keep their prior (freshly allocated, black) value.
    let mut buf = PixelBuf::new(5, 5);
    let scheme = Scheme {
        fractal: FractalKind::Julia,
        color: Color::White,
        fancy_background: true,
        bg_color: Color::Red,
        bg_color_2: Color::Violet,
    };
    apply_background(&mut buf, &scheme);
    for x in 0..5 {
        for y in 0..5 {
            let p = buf.get_pixel(x, y);
            assert_eq!((p.r, p.g, p.b), (0, 0, 0));
        }
    }
}
