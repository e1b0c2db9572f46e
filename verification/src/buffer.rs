//! The pixel buffer a render fills, and the background painter.

use vstd::prelude::*;
use crate::util::{spec_color_to_rgb, color_to_rgb, Color, Scheme};

verus! {

/// Largest accepted image dimension.
pub const MAX_DIM: u32 = 16384;

/// One RGB pixel.
#[derive(Clone, Copy, Debug, PartialEq, Eq, Structural)]
pub struct Pixel {
    pub r: u8,
    pub g: u8,
    pub b: u8,
}

/// The pixel every buffer starts from.
pub open spec fn black_pixel() -> Pixel {
    Pixel { r: 0, g: 0, b: 0 }
}

/// The pixel an RGB triple stands for.
pub open spec fn pixel_of_rgb(rgb: [u8; 3]) -> Pixel {
    Pixel { r: rgb[0], g: rgb[1], b: rgb[2] }
}

/// A width x height grid of RGB pixels, stored row-major.
#[derive(Debug)]
pub struct PixelBuf {
    width: u32,
    height: u32,
    data: Vec<Pixel>,
}

impl PixelBuf {
    /// The grid holds exactly one pixel per coordinate.
    pub closed spec fn wf(&self) -> bool {
        &&& self.data@.len() == self.width * self.height
        &&& 1 <= self.width <= MAX_DIM
        &&& 1 <= self.height <= MAX_DIM
    }

    pub closed spec fn spec_width(&self) -> int {
        self.width as int
    }

    pub closed spec fn spec_height(&self) -> int {
        self.height as int
    }

    /// The pixel at column `x`, row `y`.
    pub closed spec fn pix(&self, x: int, y: int) -> Pixel {
        self.data@[y * self.width + x]
    }

    /// A row-major coordinate stays inside the grid.
    proof fn lemma_index_in_range(&self, x: int, y: int)
        requires
            self.wf(),
            0 <= x < self.spec_width(),
            0 <= y < self.spec_height(),
        ensures
            0 <= y * self.spec_width() + x < self.data@.len(),
            y * self.spec_width() + x < MAX_DIM * MAX_DIM,
    {
        assert(0 <= y * self.width + x < self.width * self.height && self.width * self.height
            <= MAX_DIM * MAX_DIM) by (nonlinear_arith)
            requires
                0 <= x < self.width,
                0 <= y < self.height,
                self.width <= MAX_DIM,
                self.height <= MAX_DIM,
        ;
    }

    /// A fresh all-black buffer of the given dimensions.
    pub fn new(width: u32, height: u32) -> (buf: PixelBuf)
        requires
            1 <= width <= MAX_DIM,
            1 <= height <= MAX_DIM,
        ensures
            buf.wf(),
            buf.spec_width() == width,
            buf.spec_height() == height,
            forall|x: int, y: int|
                0 <= x < width && 0 <= y < height ==> #[trigger] buf.pix(x, y) == black_pixel(),
    {
        proof {
            assert(width * height <= MAX_DIM * MAX_DIM) by (nonlinear_arith)
                requires
                    0 <= width <= MAX_DIM,
                    0 <= height <= MAX_DIM,
            ;
        }
        let total: usize = (width as usize) * (height as usize);
        let mut data: Vec<Pixel> = Vec::new();
        while data.len() < total
            invariant
                total == width * height,
                data@.len() <= total,
                forall|i: int| 0 <= i < data@.len() ==> data@[i] == black_pixel(),
            decreases total - data@.len(),
        {
            data.push(Pixel { r: 0, g: 0, b: 0 });
        }
        let buf = PixelBuf { width, height, data };
        proof {
            assert forall|x: int, y: int|
                0 <= x < width && 0 <= y < height implies #[trigger] buf.pix(x, y)
                == black_pixel() by {
                buf.lemma_index_in_range(x, y);
            }
        }
        buf
    }

    pub fn width(&self) -> (w: u32)
        ensures
            w == self.spec_width(),
    {
        self.width
    }

    pub fn height(&self) -> (h: u32)
        ensures
            h == self.spec_height(),
    {
        self.height
    }

    pub fn get_pixel(&self, x: u32, y: u32) -> (p: Pixel)
        requires
            self.wf(),
            x < self.spec_width(),
            y < self.spec_height(),
        ensures
            p == self.pix(x as int, y as int),
    {
        proof {
            self.lemma_index_in_range(x as int, y as int);
        }
        let idx: usize = (y as usize) * (self.width as usize) + (x as usize);
        self.data[idx]
    }

    pub fn set_pixel(&mut self, x: u32, y: u32, p: Pixel)
        requires
            old(self).wf(),
            x < old(self).spec_width(),
            y < old(self).spec_height(),
        ensures
            final(self).wf(),
            final(self).spec_width() == old(self).spec_width(),
            final(self).spec_height() == old(self).spec_height(),
            final(self).pix(x as int, y as int) == p,
            forall|xi: int, yi: int|
                0 <= xi < old(self).spec_width() && 0 <= yi < old(self).spec_height() && !(xi == x
                    && yi == y) ==> #[trigger] final(self).pix(xi, yi) == old(self).pix(xi, yi),
    {
        proof {
            self.lemma_index_in_range(x as int, y as int);
        }
        let idx: usize = (y as usize) * (self.width as usize) + (x as usize);
        self.data[idx] = p;
        proof {
            assert forall|xi: int, yi: int|
                0 <= xi < self.spec_width() && 0 <= yi < self.spec_height() && !(xi == x && yi
                    == y) implies #[trigger] self.pix(xi, yi) == old(self).pix(xi, yi) by {
                self.lemma_index_in_range(xi, yi);
                assert(yi * self.spec_width() + xi != y * self.spec_width() + x) by (
                nonlinear_arith)
                    requires
                        0 <= xi < self.spec_width(),
                        0 <= yi < self.spec_height(),
                        0 <= x < self.spec_width(),
                        0 <= y < self.spec_height(),
                        !(xi == x && yi == y),
                ;
            }
        }
    }
}

/// A gradient channel intensity: three tenths of the coordinate,
/// truncated, folded into an 8-bit channel.
pub open spec fn gradient_level(v: int) -> int {
    ((3 * v) / 10) % 256
}

/// Compute a gradient channel intensity.
pub fn gradient_level_exec(v: u32) -> (level: u8)
    ensures
        level == gradient_level(v as int),
{
    (((3 * (v as u64)) / 10) % 256) as u8
}

/// Whether the two-color gradient supports this ordered color pair.
pub open spec fn spec_gradient_pair_supported(c1: Color, c2: Color) -> bool {
    match (c1, c2) {
        (Color::Red, Color::Blue) => true,
        (Color::Red, Color::Green) => true,
        (Color::Green, Color::Blue) => true,
        (Color::Green, Color::Red) => true,
        (Color::Blue, Color::Red) => true,
        (Color::Blue, Color::Green) => true,
        _ => false,
    }
}

/// Whether the two-color gradient supports this ordered color pair;
/// an unsupported pair is a reported, non-fatal condition.
pub fn gradient_pair_supported(c1: Color, c2: Color) -> (ok: bool)
    ensures
        ok == spec_gradient_pair_supported(c1, c2),
{
    match (c1, c2) {
        (Color::Red, Color::Blue) => true,
        (Color::Red, Color::Green) => true,
        (Color::Green, Color::Blue) => true,
        (Color::Green, Color::Red) => true,
        (Color::Blue, Color::Red) => true,
        (Color::Blue, Color::Green) => true,
        _ => false,
    }
}

/// What the background painter leaves at `(x, y)`: the solid
/// background color, or the two-color gradient over the channel pair
/// the scheme picks; a pixel of an unsupported gradient pair keeps its
/// prior value.
pub open spec fn spec_bg_pixel(s: Scheme, x: int, y: int, prior: Pixel) -> Pixel {
    if !s.fancy_background {
        pixel_of_rgb(spec_color_to_rgb(s.bg_color))
    } else {
        let gx = gradient_level(x) as u8;
        let gy = gradient_level(y) as u8;
        match (s.bg_color, s.bg_color_2) {
            (Color::Red, Color::Blue) => Pixel { r: gx, g: 0, b: gy },
            (Color::Red, Color::Green) => Pixel { r: gx, g: gy, b: 0 },
            (Color::Green, Color::Blue) => Pixel { r: 0, g: gx, b: gy },
            (Color::Green, Color::Red) => Pixel { r: gx, g: gy, b: 0 },
            (Color::Blue, Color::Red) => Pixel { r: gx, g: 0, b: gy },
            (Color::Blue, Color::Green) => Pixel { r: 0, g: gx, b: gy },
            _ => prior,
        }
    }
}

/// Compute the background pixel for `(x, y)` from the scheme and the
/// pixel's prior value.
fn bg_pixel(s: &Scheme, x: u32, y: u32, prior: Pixel) -> (p: Pixel)
    ensures
        p == spec_bg_pixel(*s, x as int, y as int, prior),
{
    if !s.fancy_background {
        let rgb = color_to_rgb(&s.bg_color);
        Pixel { r: rgb[0], g: rgb[1], b: rgb[2] }
    } else {
        let gx = gradient_level_exec(x);
        let gy = gradient_level_exec(y);
        match (s.bg_color, s.bg_color_2) {
            (Color::Red, Color::Blue) => Pixel { r: gx, g: 0, b: gy },
            (Color::Red, Color::Green) => Pixel { r: gx, g: gy, b: 0 },
            (Color::Green, Color::Blue) => Pixel { r: 0, g: gx, b: gy },
            (Color::Green, Color::Red) => Pixel { r: gx, g: gy, b: 0 },
            (Color::Blue, Color::Red) => Pixel { r: gx, g: 0, b: gy },
            (Color::Blue, Color::Green) => Pixel { r: 0, g: gx, b: gy },
            _ => prior,
        }
    }
}

/// In solid mode the background paints every pixel with the scheme's
/// background color, whatever the pixel held before.
pub proof fn lemma_solid_background(s: Scheme, x: int, y: int, prior: Pixel)
    requires
        !s.fancy_background,
    ensures
        spec_bg_pixel(s, x, y, prior) == pixel_of_rgb(spec_color_to_rgb(s.bg_color)),
{
}

/// In gradient mode with the red-then-blue pair, the background pixel
/// at `(x, y)` is `(trunc(0.3 x) mod 256, 0, trunc(0.3 y) mod 256)`.
pub proof fn lemma_gradient_red_blue(s: Scheme, x: int, y: int, prior: Pixel)
    requires
        s.fancy_background,
        s.bg_color == Color::Red,
        s.bg_color_2 == Color::Blue,
    ensures
        spec_bg_pixel(s, x, y, prior) == (Pixel {
            r: ((3 * x / 10) % 256) as u8,
            g: 0u8,
            b: ((3 * y / 10) % 256) as u8,
        }),
{
}

/// Iterate over the pixels of the image and apply a background, which
/// will depend on the scheme: either transitioning from one color to
/// another or just a solid background.
pub fn apply_background(imgbuf: &mut PixelBuf, scheme: &Scheme)
    requires
        old(imgbuf).wf(),
    ensures
        final(imgbuf).wf(),
        final(imgbuf).spec_width() == old(imgbuf).spec_width(),
        final(imgbuf).spec_height() == old(imgbuf).spec_height(),
        forall|x: int, y: int|
            0 <= x < old(imgbuf).spec_width() && 0 <= y < old(imgbuf).spec_height()
                ==> #[trigger] final(imgbuf).pix(x, y) == spec_bg_pixel(
                *scheme,
                x,
                y,
                old(imgbuf).pix(x, y),
            ),
{
    let w = imgbuf.width();
    let h = imgbuf.height();
    let mut x: u32 = 0;
    while x < w
        invariant
            imgbuf.wf(),
            imgbuf.spec_width() == old(imgbuf).spec_width(),
            imgbuf.spec_height() == old(imgbuf).spec_height(),
            w == imgbuf.spec_width(),
            h == imgbuf.spec_height(),
            x <= w,
            forall|xi: int, yi: int|
                0 <= xi < x && 0 <= yi < h ==> #[trigger] imgbuf.pix(xi, yi) == spec_bg_pixel(
                    *scheme,
                    xi,
                    yi,
                    old(imgbuf).pix(xi, yi),
                ),
            forall|xi: int, yi: int|
                x <= xi < w && 0 <= yi < h ==> #[trigger] imgbuf.pix(xi, yi) == old(imgbuf).pix(
                    xi,
                    yi,
                ),
        decreases w - x,
    {
        let mut y: u32 = 0;
        while y < h
            invariant
                imgbuf.wf(),
                imgbuf.spec_width() == old(imgbuf).spec_width(),
                imgbuf.spec_height() == old(imgbuf).spec_height(),
                w == imgbuf.spec_width(),
                h == imgbuf.spec_height(),
                x < w,
                y <= h,
                forall|xi: int, yi: int|
                    0 <= xi < x && 0 <= yi < h ==> #[trigger] imgbuf.pix(xi, yi) == spec_bg_pixel(
                        *scheme,
                        xi,
                        yi,
                        old(imgbuf).pix(xi, yi),
                    ),
                forall|yi: int|
                    0 <= yi < y ==> #[trigger] imgbuf.pix(x as int, yi) == spec_bg_pixel(
                        *scheme,
                        x as int,
                        yi,
                        old(imgbuf).pix(x as int, yi),
                    ),
                forall|yi: int|
                    y <= yi < h ==> #[trigger] imgbuf.pix(x as int, yi) == old(imgbuf).pix(
                        x as int,
                        yi,
                    ),
                forall|xi: int, yi: int|
                    x < xi < w && 0 <= yi < h ==> #[trigger] imgbuf.pix(xi, yi) == old(imgbuf).pix(
                        xi,
                        yi,
                    ),
            decreases h - y,
        {
            let prior = imgbuf.get_pixel(x, y);
            let p = bg_pixel(scheme, x, y, prior);
            imgbuf.set_pixel(x, y, p);
            y = y + 1;
        }
        x = x + 1;
    }
}

} // verus!
