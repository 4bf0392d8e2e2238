//! Renders RGBA pixel grids as text coloured with 24-bit ANSI escape sequences.
use vstd::prelude::*;

pub mod ansi;
pub mod color;
pub mod config;
pub mod picture;
pub mod quantize;
pub mod render;

pub use config::{ConversionConfig, ResizeFilter};
pub use picture::Image;

verus! {

} // verus!
