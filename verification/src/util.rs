//! Colors, the user-facing rendering configuration, string helpers,
//! and the background-painting rules.

use vstd::prelude::*;
use vstd::string::StrSliceExecFns;

verus! {

/// Supported colors for user input.
#[derive(Clone, Copy, Debug, PartialEq, Eq, Structural)]
pub enum Color {
    Red,
    Orange,
    Yellow,
    Blue,
    Green,
    Violet,
    Black,
    White,
}

/// The kinds of fractal the system can be asked for.
#[derive(Clone, Copy, Debug, PartialEq, Eq, Structural)]
pub enum FractalKind {
    Barnsley,
    Mandelbrot,
    Julia,
    MultiJulia,
}

/// Whether the foreground color selects a channel-composition rule.
pub open spec fn color_supported(c: Color) -> bool {
    c == Color::Red || c == Color::Green || c == Color::Blue || c == Color::White
}

/// The fixed enumeration the batch driver draws fractal kinds from.
pub open spec fn spec_fractal_from_index(index: int) -> FractalKind {
    if index == 0 {
        FractalKind::Barnsley
    } else if index == 1 {
        FractalKind::Mandelbrot
    } else if index == 2 {
        FractalKind::Julia
    } else {
        FractalKind::MultiJulia
    }
}

/// Pick the fractal kind a random draw stands for.
pub fn fractal_from_index(index: u64) -> (kind: FractalKind)
    requires
        index < 4,
    ensures
        kind == spec_fractal_from_index(index as int),
{
    if index == 0 {
        FractalKind::Barnsley
    } else if index == 1 {
        FractalKind::Mandelbrot
    } else if index == 2 {
        FractalKind::Julia
    } else {
        FractalKind::MultiJulia
    }
}

/// Why a render was refused.
#[derive(Clone, Copy, Debug, PartialEq, Eq, Structural)]
pub enum RenderError {
    /// The foreground color selects no channel rule.
    UnsupportedColor,
}

/// Container for properties of the fractal being built.
#[derive(Clone, Copy, Debug, PartialEq, Eq, Structural)]
pub struct Scheme {
    pub fractal: FractalKind,
    /// Actual color of the fractal.
    pub color: Color,
    pub fancy_background: bool,
    pub bg_color: Color,
    pub bg_color_2: Color,
}

/// The configuration a `Scheme` starts from.
pub open spec fn default_scheme() -> Scheme {
    Scheme {
        fractal: FractalKind::Mandelbrot,
        color: Color::Green,
        fancy_background: false,
        bg_color: Color::Black,
        bg_color_2: Color::Red,
    }
}

impl Default for Scheme {
    /// The stock configuration: a green Mandelbrot on a solid black
    /// background.
    fn default() -> (s: Scheme)
        ensures
            s == default_scheme(),
    {
        Scheme {
            fractal: FractalKind::Mandelbrot,
            color: Color::Green,
            fancy_background: false,
            bg_color: Color::Black,
            bg_color_2: Color::Red,
        }
    }
}

/// The RGB triple a color stands for.
pub open spec fn spec_color_to_rgb(color: Color) -> [u8; 3] {
    match color {
        Color::Red => [255u8, 0u8, 0u8],
        Color::Orange => [255u8, 165u8, 0u8],
        Color::Yellow => [255u8, 255u8, 0u8],
        Color::Blue => [0u8, 0u8, 255u8],
        Color::Green => [0u8, 128u8, 0u8],
        Color::Violet => [238u8, 130u8, 238u8],
        Color::Black => [0u8, 0u8, 0u8],
        Color::White => [255u8, 255u8, 255u8],
    }
}

/// Helper to return three u8s based on parsed color.
/// The u8s function as RGB data.
pub fn color_to_rgb(color: &Color) -> (rgb: [u8; 3])
    ensures
        rgb == spec_color_to_rgb(*color),
{
    match color {
        Color::Red => [255, 0, 0],
        Color::Orange => [255, 165, 0],
        Color::Yellow => [255, 255, 0],
        Color::Blue => [0, 0, 255],
        Color::Green => [0, 128, 0],
        Color::Violet => [238, 130, 238],
        Color::Black => [0, 0, 0],
        Color::White => [255, 255, 255],
    }
}

/// Character-for-character string equality.
pub fn str_eq(a: &str, b: &str) -> (r: bool)
    ensures
        r == (a@ == b@),
{
    let alen = a.unicode_len();
    let blen = b.unicode_len();
    if alen != blen {
        return false;
    }
    let mut i: usize = 0;
    while i < alen
        invariant
            alen == a@.len(),
            blen == b@.len(),
            alen == blen,
            i <= alen,
            forall|j: int| 0 <= j < i ==> a@[j] == b@[j],
        decreases alen - i,
    {
        if a.get_char(i) != b.get_char(i) {
            return false;
        }
        i = i + 1;
    }
    proof {
        assert(a@ =~= b@);
    }
    true
}

/// The color a name stands for; unrecognized names fall back to blue.
pub open spec fn spec_str_to_color(s: Seq<char>) -> Color {
    if s == "red"@ {
        Color::Red
    } else if s == "orange"@ {
        Color::Orange
    } else if s == "yellow"@ {
        Color::Yellow
    } else if s == "blue"@ {
        Color::Blue
    } else if s == "green"@ {
        Color::Green
    } else if s == "violet"@ {
        Color::Violet
    } else if s == "black"@ {
        Color::Black
    } else if s == "white"@ {
        Color::White
    } else {
        Color::Blue
    }
}

/// Convenient conversion from a string to a Color.
/// Defaults to Blue for invalid input colors.
pub fn str_to_color(color: &str) -> (c: Color)
    ensures
        c == spec_str_to_color(color@),
{
    if str_eq(color, "red") {
        Color::Red
    } else if str_eq(color, "orange") {
        Color::Orange
    } else if str_eq(color, "yellow") {
        Color::Yellow
    } else if str_eq(color, "blue") {
        Color::Blue
    } else if str_eq(color, "green") {
        Color::Green
    } else if str_eq(color, "violet") {
        Color::Violet
    } else if str_eq(color, "black") {
        Color::Black
    } else if str_eq(color, "white") {
        Color::White
    } else {
        Color::Blue
    }
}

/// `i` is the position of the one and only separator in `s`.
pub open spec fn splits_at(s: Seq<char>, sep: char, i: int) -> bool {
    &&& 0 <= i < s.len()
    &&& s[i] == sep
    &&& forall|j: int| 0 <= j < s.len() && j != i ==> s[j] != sep
}

/// Split a string into the two fields around a single separator.
/// The result is the two fields exactly when the separator occurs
/// once; any other number of occurrences gives nothing.
pub fn split_pair<'a>(s: &'a str, sep: char) -> (r: Option<(&'a str, &'a str)>)
    ensures
        match r {
            Some(fields) => {
                &&& fields.0@.len() + 1 + fields.1@.len() == s@.len()
                &&& splits_at(s@, sep, fields.0@.len() as int)
                &&& fields.0@ == s@.subrange(0, fields.0@.len() as int)
                &&& fields.1@ == s@.subrange(fields.0@.len() as int + 1, s@.len() as int)
            },
            None => forall|i: int| !splits_at(s@, sep, i),
        },
{
    let n = s.unicode_len();
    let mut i: usize = 0;
    let mut found: bool = false;
    let mut first: usize = 0;
    let mut dup: bool = false;
    while i < n
        invariant
            n == s@.len(),
            i <= n,
            !found ==> !dup && forall|j: int| 0 <= j < i ==> s@[j] != sep,
            found ==> first < i && s@[first as int] == sep && forall|j: int|
                0 <= j < first ==> s@[j] != sep,
            found && !dup ==> forall|j: int| first < j < i ==> s@[j] != sep,
            dup ==> found && exists|j: int| first < j < i && s@[j] == sep,
        decreases n - i,
    {
        if s.get_char(i) == sep {
            if !found {
                found = true;
                first = i;
            } else {
                dup = true;
            }
        }
        i = i + 1;
    }
    if found && !dup {
        let a = s.substring_char(0, first);
        let b = s.substring_char(first + 1, n);
        proof {
            assert(a@.len() == first);
            assert(b@.len() == n - first - 1);
        }
        Some((a, b))
    } else {
        proof {
            if !found {
                assert(forall|i2: int| !splits_at(s@, sep, i2));
            } else {
                let j2 = choose|j: int| first < j < n && s@[j] == sep;
                assert forall|i2: int| !splits_at(s@, sep, i2) by {
                    if splits_at(s@, sep, i2) {
                        if i2 == first {
                            assert(s@[j2] == sep);
                        } else {
                            assert(s@[first as int] == sep);
                        }
                    }
                }
            }
        }
        None
    }
}

} // verus!
