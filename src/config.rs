//! Settings of one conversion.
use vstd::prelude::*;

verus! {

/// The resampling filter used when the image is resized to the target size.
#[derive(Clone, Copy, Debug, PartialEq, Eq)]
pub enum ResizeFilter {
    Nearest,
    Triangle,
    CatmullRom,
    Gaussian,
    Lanczos3,
}

/// Settings of one conversion.
///
/// `color_tolerance` is the bit pattern of a single-precision float (as given
/// by `to_bits`): positive values turn palette quantization on, zero,
/// negative values and NaN leave it off.
#[derive(Clone, Copy, Debug)]
pub struct ConversionConfig {
    /// Target width and height, in character cells.
    pub size: (usize, usize),
    /// Pixels with a lower alpha are invisible.
    pub alpha_threshold: u8,
    /// Write the escape character as the visible text `\x1b`.
    pub raw: bool,
    pub resize_filter: ResizeFilter,
    pub color_tolerance: u32,
    /// One shade glyph per pixel rather than one half block per two pixels.
    pub use_blocks: bool,
}

impl Default for ConversionConfig {
    fn default() -> (r: Self)
        ensures
            r.size == (80usize, 24usize),
            r.alpha_threshold == 128,
            !r.raw,
            r.resize_filter == ResizeFilter::Nearest,
            r.color_tolerance == 0,
            !r.use_blocks,
    {
        ConversionConfig {
            size: (80, 24),
            alpha_threshold: 128,
            raw: false,
            resize_filter: ResizeFilter::Nearest,
            color_tolerance: 0,
            use_blocks: false,
        }
    }
}

} // verus!
