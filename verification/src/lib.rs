//! Escape-time fractal rendering: a fixed-point complex-plane engine
//! for Julia-set images, with user-selectable coloring and background
//! schemes.

pub mod buffer;
pub mod fixed;
pub mod julia_sets;
pub mod julias;
pub mod util;
