//! The fractal renderer: pixel-to-plane mapping, channel composition,
//! and the per-image orchestration of background and escape-time
//! coloring.

use vstd::prelude::*;
use vstd::arithmetic::div_mod::{
    lemma_div_basics, lemma_fundamental_div_mod, lemma_mod_division_less_than_divisor,
};
use crate::buffer::{
    apply_background, black_pixel, spec_bg_pixel, Pixel, PixelBuf, MAX_DIM,
};
use crate::fixed::{Complex, ComplexView, HALF_SPAN, SCALE};
use crate::julias::{
    julia_constant, lemma_escape_time_multi_range, lemma_escape_time_range, pixel_set_multi,
    pixel_setter, spec_escape_time, spec_escape_time_multi, MAX_ITER, POINT_MAX,
};
use crate::util::{color_supported, Color, FractalKind, RenderError, Scheme};

verus! {

/// Where pixel `(x, y)` of a `w x h` image lies on the complex plane:
/// the 3.0-unit plane span divided by the image dimension scales each
/// axis, and subtracting half the span centers it. The pixel axes are
/// deliberately swapped against the plane axes.
pub open spec fn spec_to_complex(x: int, y: int, w: int, h: int) -> ComplexView {
    ComplexView {
        re: (3 * SCALE * y) / w - HALF_SPAN,
        im: (3 * SCALE * x) / h - HALF_SPAN,
    }
}

/// Map pixel `(x, y)` of a `w x h` image onto the complex plane.
pub fn to_complex(x: u32, y: u32, width: u32, height: u32) -> (p: Complex)
    requires
        1 <= width <= MAX_DIM,
        1 <= height <= MAX_DIM,
        x <= MAX_DIM,
        y <= MAX_DIM,
    ensures
        p@ == spec_to_complex(x as int, y as int, width as int, height as int),
        -POINT_MAX <= p.re <= POINT_MAX,
        -POINT_MAX <= p.im <= POINT_MAX,
{
    proof {
        assert(0 <= 3 * SCALE * (y as int) <= 3 * SCALE * (MAX_DIM as int) && 0 <= 3 * SCALE * (
        x as int) <= 3 * SCALE * (MAX_DIM as int)) by (nonlinear_arith)
            requires
                0 <= y <= MAX_DIM,
                0 <= x <= MAX_DIM,
        ;
    }
    let num_re: i64 = 3 * SCALE * (y as i64);
    let num_im: i64 = 3 * SCALE * (x as i64);
    let re: i64 = num_re / (width as i64) - HALF_SPAN;
    let im: i64 = num_im / (height as i64) - HALF_SPAN;
    proof {
        crate::fixed::lemma_div_two_sided(num_re as int, 3 * SCALE * MAX_DIM as int, width as int);
        crate::fixed::lemma_div_two_sided(num_im as int, 3 * SCALE * MAX_DIM as int, height as int);
        lemma_div_basics(width as int);
        lemma_div_basics(height as int);
    }
    Complex { re, im }
}

/// Pixel (0, 0) maps to the plane point (-1.5, -1.5) whatever the
/// image dimensions.
pub proof fn lemma_to_complex_origin(w: int, h: int)
    requires
        1 <= w,
        1 <= h,
    ensures
        spec_to_complex(0, 0, w, h) == (ComplexView {
            re: -HALF_SPAN as int,
            im: -HALF_SPAN as int,
        }),
{
    lemma_div_basics(w);
    lemma_div_basics(h);
}

/// The mapping is linear in each pixel coordinate up to quantization:
/// scaled back by the image dimension, the mapped coordinate differs
/// from the exact linear image `3 * SCALE * y` (resp. `x`) by less
/// than one divisor.
pub proof fn lemma_to_complex_affine(x: int, y: int, w: int, h: int)
    requires
        1 <= w,
        1 <= h,
        0 <= x,
        0 <= y,
    ensures
        w * (spec_to_complex(x, y, w, h).re + HALF_SPAN) <= 3 * SCALE * y < w * (spec_to_complex(
            x,
            y,
            w,
            h,
        ).re + HALF_SPAN) + w,
        h * (spec_to_complex(x, y, w, h).im + HALF_SPAN) <= 3 * SCALE * x < h * (spec_to_complex(
            x,
            y,
            w,
            h,
        ).im + HALF_SPAN) + h,
{
    lemma_fundamental_div_mod(3 * SCALE * y, w);
    lemma_mod_division_less_than_divisor(3 * SCALE * y, w);
    lemma_fundamental_div_mod(3 * SCALE * x, h);
    lemma_mod_division_less_than_divisor(3 * SCALE * x, h);
}

/// The escape count of pixel `(x, y)`: the Julia recurrence with the
/// palette constant `param` selects, or the multi-Julia recurrence
/// with exponent `param`; kinds without a formula of their own default
/// to the Julia recurrence.
pub open spec fn spec_count(kind: FractalKind, param: int, x: int, y: int, w: int, h: int) -> nat {
    let z = spec_to_complex(x, y, w, h);
    if kind == FractalKind::MultiJulia {
        spec_escape_time_multi(z, julia_constant(1), param as nat, 0)
    } else {
        spec_escape_time(z, julia_constant(param), 0)
    }
}

/// Channel composition: the escape count overwrites the channel the
/// foreground color names and keeps the others from the background;
/// white grays out all three; any other color leaves the background
/// (such a color is refused before composition is reached).
pub open spec fn spec_compose(color: Color, count: nat, bg: Pixel) -> Pixel {
    let v = count as u8;
    match color {
        Color::Red => Pixel { r: v, g: bg.g, b: bg.b },
        Color::Green => Pixel { r: bg.r, g: v, b: bg.b },
        Color::Blue => Pixel { r: bg.r, g: bg.g, b: v },
        Color::White => Pixel { r: v, g: v, b: v },
        _ => bg,
    }
}

/// What a finished render holds at pixel `(x, y)`: the escape count
/// composed over the background that was painted onto a fresh black
/// canvas.
pub open spec fn spec_rendered_pixel(
    kind: FractalKind,
    s: Scheme,
    param: int,
    w: int,
    h: int,
    x: int,
    y: int,
) -> Pixel {
    spec_compose(
        s.color,
        spec_count(kind, param, x, y, w, h),
        spec_bg_pixel(s, x, y, black_pixel()),
    )
}

/// `buf` is the render of a `w x h` image of `kind` under scheme `s`
/// with formula parameter `param`.
pub open spec fn is_render_of(
    buf: PixelBuf,
    kind: FractalKind,
    s: Scheme,
    param: int,
    w: int,
    h: int,
) -> bool {
    &&& buf.wf()
    &&& buf.spec_width() == w
    &&& buf.spec_height() == h
    &&& forall|x: int, y: int|
        0 <= x < w && 0 <= y < h ==> #[trigger] buf.pix(x, y) == spec_rendered_pixel(
            kind,
            s,
            param,
            w,
            h,
            x,
            y,
        )
}

/// Compose the escape count over the background pixel by the
/// foreground color's channel rule.
fn compose_pixel(color: &Color, count: u64, bg: Pixel) -> (p: Pixel)
    requires
        count <= MAX_ITER,
    ensures
        p == spec_compose(*color, count as nat, bg),
{
    let v = count as u8;
    match color {
        Color::Red => Pixel { r: v, g: bg.g, b: bg.b },
        Color::Green => Pixel { r: bg.r, g: v, b: bg.b },
        Color::Blue => Pixel { r: bg.r, g: bg.g, b: v },
        Color::White => Pixel { r: v, g: v, b: v },
        _ => bg,
    }
}

/// Whether the foreground color selects a channel rule.
pub fn check_color_supported(color: &Color) -> (ok: bool)
    ensures
        ok == color_supported(*color),
{
    match color {
        Color::Red => true,
        Color::Green => true,
        Color::Blue => true,
        Color::White => true,
        _ => false,
    }
}

/// Render one image with a fixed formula parameter: paint the
/// background, then compose every pixel's escape count over it.
/// Succeeds exactly when the foreground color selects a channel rule.
pub fn render_with_param(
    julia_type: FractalKind,
    imgy: u32,
    imgx: u32,
    scheme: &Scheme,
    param: u64,
) -> (r: Result<PixelBuf, RenderError>)
    requires
        1 <= imgx <= MAX_DIM,
        1 <= imgy <= MAX_DIM,
        julia_type == FractalKind::MultiJulia ==> 2 <= param <= 7,
    ensures
        match r {
            Ok(buf) => color_supported(scheme.color) && is_render_of(
                buf,
                julia_type,
                *scheme,
                param as int,
                imgx as int,
                imgy as int,
            ),
            Err(e) => !color_supported(scheme.color) && e == RenderError::UnsupportedColor,
        },
{
    if !check_color_supported(&scheme.color) {
        return Err(RenderError::UnsupportedColor);
    }
    let mut imgbuf = PixelBuf::new(imgx, imgy);
    apply_background(&mut imgbuf, scheme);
    let ghost w = imgx as int;
    let ghost h = imgy as int;
    let ghost s = *scheme;
    let mut x: u32 = 0;
    while x < imgx
        invariant
            imgbuf.wf(),
            imgbuf.spec_width() == w,
            imgbuf.spec_height() == h,
            w == imgx as int,
            h == imgy as int,
            s == *scheme,
            1 <= imgx <= MAX_DIM,
            1 <= imgy <= MAX_DIM,
            julia_type == FractalKind::MultiJulia ==> 2 <= param <= 7,
            x <= imgx,
            forall|xi: int, yi: int|
                0 <= xi < x && 0 <= yi < h ==> #[trigger] imgbuf.pix(xi, yi) == spec_rendered_pixel(
                    julia_type,
                    s,
                    param as int,
                    w,
                    h,
                    xi,
                    yi,
                ),
            forall|xi: int, yi: int|
                x <= xi < w && 0 <= yi < h ==> #[trigger] imgbuf.pix(xi, yi) == spec_bg_pixel(
                    s,
                    xi,
                    yi,
                    black_pixel(),
                ),
        decreases imgx - x,
    {
        let mut y: u32 = 0;
        while y < imgy
            invariant
                imgbuf.wf(),
                imgbuf.spec_width() == w,
                imgbuf.spec_height() == h,
                w == imgx as int,
                h == imgy as int,
                s == *scheme,
                1 <= imgx <= MAX_DIM,
                1 <= imgy <= MAX_DIM,
                julia_type == FractalKind::MultiJulia ==> 2 <= param <= 7,
                x < imgx,
                y <= imgy,
                forall|xi: int, yi: int|
                    0 <= xi < x && 0 <= yi < h ==> #[trigger] imgbuf.pix(xi, yi)
                        == spec_rendered_pixel(julia_type, s, param as int, w, h, xi, yi),
                forall|yi: int|
                    0 <= yi < y ==> #[trigger] imgbuf.pix(x as int, yi) == spec_rendered_pixel(
                        julia_type,
                        s,
                        param as int,
                        w,
                        h,
                        x as int,
                        yi,
                    ),
                forall|yi: int|
                    y <= yi < h ==> #[trigger] imgbuf.pix(x as int, yi) == spec_bg_pixel(
                        s,
                        x as int,
                        yi,
                        black_pixel(),
                    ),
                forall|xi: int, yi: int|
                    x < xi < w && 0 <= yi < h ==> #[trigger] imgbuf.pix(xi, yi) == spec_bg_pixel(
                        s,
                        xi,
                        yi,
                        black_pixel(),
                    ),
            decreases imgy - y,
        {
            let complex_pos = to_complex(x, y, imgx, imgy);
            let result: u64 = if matches!(julia_type, FractalKind::MultiJulia) {
                pixel_set_multi(complex_pos, 0, param)
            } else {
                pixel_setter(complex_pos, 0, param)
            };
            proof {
                let z = spec_to_complex(x as int, y as int, w, h);
                lemma_escape_time_range(z, julia_constant(param as int), 0);
                lemma_escape_time_multi_range(z, julia_constant(1), param as nat, 0);
            }
            let data = imgbuf.get_pixel(x, y);
            let p = compose_pixel(&scheme.color, result, data);
            imgbuf.set_pixel(x, y, p);
            y = y + 1;
        }
        x = x + 1;
    }
    Ok(imgbuf)
}

/// The smallest formula parameter drawn for a fractal kind.
pub open spec fn param_lo(kind: FractalKind) -> int {
    if kind == FractalKind::MultiJulia {
        2
    } else {
        1
    }
}

/// One past the largest formula parameter drawn for a fractal kind.
pub open spec fn param_hi(kind: FractalKind) -> int {
    if kind == FractalKind::MultiJulia {
        8
    } else {
        11
    }
}

/// Relies on rand::random_range over `lo..hi`: the sample lies in the
/// half-open range; the range must be non-empty or the call panics.
#[verifier::external_body]
fn random_in_range(lo: u64, hi: u64) -> (r: u64)
    requires
        lo < hi,
    ensures
        lo <= r < hi,
{
    rand::random_range(lo..hi)
}

/// Render one image, drawing the formula parameter -- the palette
/// entry for a Julia set, the exponent for a multi-Julia -- once for
/// the whole image. Succeeds exactly when the foreground color
/// selects a channel rule; the result is then the render for some
/// parameter in the kind's range.
pub fn julia_fractal(
    julia_type: FractalKind,
    imgy: u32,
    imgx: u32,
    scheme: &Scheme,
) -> (r: Result<PixelBuf, RenderError>)
    requires
        1 <= imgx <= MAX_DIM,
        1 <= imgy <= MAX_DIM,
    ensures
        match r {
            Ok(buf) => color_supported(scheme.color) && exists|p: int|
                param_lo(julia_type) <= p < param_hi(julia_type) && is_render_of(
                    buf,
                    julia_type,
                    *scheme,
                    p,
                    imgx as int,
                    imgy as int,
                ),
            Err(e) => !color_supported(scheme.color) && e == RenderError::UnsupportedColor,
        },
{
    let randjulia: u64 = if matches!(julia_type, FractalKind::MultiJulia) {
        random_in_range(2, 8)
    } else {
        random_in_range(1, 11)
    };
    let r = render_with_param(julia_type, imgy, imgx, scheme, randjulia);
    proof {
        if r is Ok {
            let buf = r->Ok_0;
            assert(param_lo(julia_type) <= randjulia as int && (randjulia as int) < param_hi(
                julia_type,
            ) && is_render_of(
                buf,
                julia_type,
                *scheme,
                randjulia as int,
                imgx as int,
                imgy as int,
            ));
        }
    }
    r
}

/// Rendering is deterministic: two renders of the same kind, scheme,
/// dimensions and formula parameter agree pixel for pixel.
pub proof fn lemma_render_deterministic(
    b1: PixelBuf,
    b2: PixelBuf,
    kind: FractalKind,
    s: Scheme,
    param: int,
    w: int,
    h: int,
)
    requires
        is_render_of(b1, kind, s, param, w, h),
        is_render_of(b2, kind, s, param, w, h),
    ensures
        b1.spec_width() == b2.spec_width(),
        b1.spec_height() == b2.spec_height(),
        forall|x: int, y: int| 0 <= x < w && 0 <= y < h ==> b1.pix(x, y) == b2.pix(x, y),
{
    assert forall|x: int, y: int| 0 <= x < w && 0 <= y < h implies b1.pix(x, y) == b2.pix(
        x,
        y,
    ) by {
        assert(b1.pix(x, y) == spec_rendered_pixel(kind, s, param, w, h, x, y));
        assert(b2.pix(x, y) == spec_rendered_pixel(kind, s, param, w, h, x, y));
    }
}

/// A red, green or blue foreground overwrites exactly its own channel
/// with the escape count and keeps the other two channels from the
/// painted background.
pub proof fn lemma_channel_composition(
    kind: FractalKind,
    s: Scheme,
    param: int,
    w: int,
    h: int,
    x: int,
    y: int,
)
    requires
        s.color == Color::Red || s.color == Color::Green || s.color == Color::Blue,
    ensures
        ({
            let bg = spec_bg_pixel(s, x, y, black_pixel());
            let px = spec_rendered_pixel(kind, s, param, w, h, x, y);
            let v = spec_count(kind, param, x, y, w, h) as u8;
            match s.color {
                Color::Red => px == (Pixel { r: v, g: bg.g, b: bg.b }),
                Color::Green => px == (Pixel { r: bg.r, g: v, b: bg.b }),
                Color::Blue => px == (Pixel { r: bg.r, g: bg.g, b: v }),
                _ => true,
            }
        }),
{
}

/// A white foreground grays the image out: every rendered pixel holds
/// the pixel's escape count in all three channels, whatever the
/// background.
pub proof fn lemma_white_render_grayscale(
    kind: FractalKind,
    s: Scheme,
    param: int,
    w: int,
    h: int,
    x: int,
    y: int,
)
    requires
        s.color == Color::White,
    ensures
        spec_rendered_pixel(kind, s, param, w, h, x, y) == (Pixel {
            r: spec_count(kind, param, x, y, w, h) as u8,
            g: spec_count(kind, param, x, y, w, h) as u8,
            b: spec_count(kind, param, x, y, w, h) as u8,
        }),
{
}

} // verus!
