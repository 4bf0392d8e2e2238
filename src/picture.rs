//! Images, the grid of pixels taken from them, and the whole conversion.
use image::imageops::FilterType;
use image::{DynamicImage, GenericImageView};
use vstd::prelude::*;
use crate::config::{ConversionConfig, ResizeFilter};
use crate::render::{
    blocks_text, convert_blocks_mode, convert_half_blocks_mode, half_blocks_text,
};

verus! {

#[verifier::external_type_specification]
#[verifier::external_body]
pub struct ExDynamicImage(DynamicImage);

pub assume_specification[ DynamicImage::width ](img: &DynamicImage) -> u32;

pub assume_specification[ DynamicImage::height ](img: &DynamicImage) -> u32;

/// Relies on image's `DynamicImage::resize` and `GenericImageView::pixels`: a
/// copy of the image scaled, aspect ratio kept, to the largest size that fits
/// in `width` by `height` (each side at least 1), and its width, height and
/// 8-bit RGBA samples, row by row from the top, four to a pixel.
#[verifier::external_body]
fn resized_samples(img: &DynamicImage, width: u32, height: u32, filter: ResizeFilter) -> (r: (u32, u32, Vec<u8>))
    ensures
        r.2@.len() == 4 * r.0 * r.1,
        width >= 1 && height >= 1 ==> 1 <= r.0 <= width && 1 <= r.1 <= height,
{
    let filter = match filter {
        ResizeFilter::Nearest => FilterType::Nearest,
        ResizeFilter::Triangle => FilterType::Triangle,
        ResizeFilter::CatmullRom => FilterType::CatmullRom,
        ResizeFilter::Gaussian => FilterType::Gaussian,
        ResizeFilter::Lanczos3 => FilterType::Lanczos3,
    };
    let small = img.resize(width, height, filter);
    let samples: Vec<u8> = small.pixels().flat_map(|(_, _, p)| p.0).collect();
    (small.width(), small.height(), samples)
}

/// Relies on image's `imageops::grayscale`: the luma of each pixel, as an
/// 8-bit grey image.
#[verifier::external_body]
fn grayscale_of(img: &DynamicImage) -> DynamicImage {
    DynamicImage::ImageLuma8(image::imageops::grayscale(img))
}

/// Every row has `width` pixels.
pub open spec fn rectangular(grid: Seq<Vec<[u8; 4]>>, width: nat) -> bool {
    forall|y: int| 0 <= y < grid.len() ==> (#[trigger] grid[y])@.len() == width
}

/// `grid` holds the `width` by `height` pixels of `samples`, four bytes each,
/// row by row.
pub open spec fn grid_of_samples(grid: Seq<Vec<[u8; 4]>>, width: nat, height: nat, samples: Seq<u8>) -> bool {
    &&& grid.len() == height
    &&& rectangular(grid, width)
    &&& forall|y: int, x: int, c: int|
        0 <= y < height && 0 <= x < width && 0 <= c < 4 ==> #[trigger] grid[y]@[x][c]
            == samples[4 * (y * width + x) + c]
}

proof fn lemma_next_pixel_fits(y: int, x: int, width: int, height: int, len: int)
    requires
        0 <= y < height,
        0 <= x < width,
        4 * width * height <= len,
    ensures
        4 * (y * width + x) + 4 <= len,
{
    assert(y * width + x + 1 <= (y + 1) * width) by (nonlinear_arith)
        requires
            0 <= x < width,
    ;
    assert((y + 1) * width <= height * width) by (nonlinear_arith)
        requires
            0 <= y < height,
            0 <= width,
    ;
    assert(4 * width * height == 4 * (height * width)) by (nonlinear_arith);
}

/// Lays out RGBA samples, four bytes a pixel and row by row, as a grid of
/// `height` rows of `width` pixels.
pub fn build_grid(width: u32, height: u32, samples: &Vec<u8>) -> (grid: Vec<Vec<[u8; 4]>>)
    requires
        samples@.len() >= 4 * width * height,
    ensures
        grid_of_samples(grid@, width as nat, height as nat, samples@),
{
    let len = samples.len();
    let mut grid: Vec<Vec<[u8; 4]>> = Vec::new();
    let mut pos: usize = 0;
    let mut y: u32 = 0;
    while y < height
        invariant
            len == samples@.len(),
            samples@.len() >= 4 * width * height,
            y <= height,
            pos == 4 * (y * width),
            grid@.len() == y,
            rectangular(grid@, width as nat),
            forall|yy: int, x: int, c: int|
                0 <= yy < y && 0 <= x < width && 0 <= c < 4 ==> #[trigger] grid@[yy]@[x][c]
                    == samples@[4 * (yy * width + x) + c],
        decreases height - y,
    {
        let mut row: Vec<[u8; 4]> = Vec::new();
        let mut x: u32 = 0;
        while x < width
            invariant
                len == samples@.len(),
                samples@.len() >= 4 * width * height,
                y < height,
                x <= width,
                pos == 4 * (y * width + x),
                row@.len() == x,
                forall|xx: int, c: int|
                    0 <= xx < x && 0 <= c < 4 ==> #[trigger] row@[xx][c] == samples@[4 * (y * width + xx) + c],
            decreases width - x,
        {
            proof {
                lemma_next_pixel_fits(y as int, x as int, width as int, height as int, samples@.len() as int);
            }
            let px: [u8; 4] = [samples[pos], samples[pos + 1], samples[pos + 2], samples[pos + 3]];
            row.push(px);
            pos = pos + 4;
            x = x + 1;
            proof {
                assert(4 * (y * width + x) == 4 * (y * width + (x - 1)) + 4);
            }
        }
        let ghost prev = grid@;
        grid.push(row);
        y = y + 1;
        proof {
            assert(y * width == (y - 1) * width + width) by (nonlinear_arith);
            assert forall|yy: int, x: int, c: int|
                0 <= yy < y && 0 <= x < width && 0 <= c < 4 implies #[trigger] grid@[yy]@[x][c]
                    == samples@[4 * (yy * width + x) + c] by {
                if yy < y - 1 {
                    assert(grid@[yy] == prev[yy]);
                }
            }
        }
    }
    grid
}

/// `grid` is rectangular and, when both sides of the target size are at least
/// 1, has between 1 and `size.1` rows of between 1 and `size.0` pixels.
pub open spec fn fits_target(grid: Seq<Vec<[u8; 4]>>, size: (usize, usize)) -> bool {
    exists|w: nat|
        #![trigger rectangular(grid, w)]
        rectangular(grid, w) && (size.0 >= 1 && size.1 >= 1 ==> 1 <= grid.len() <= size.1 && 1 <= w
            <= size.0)
}

/// Resizes `image` to fit the configured size and lays its pixels out as a
/// grid, row by row from the top.
pub fn resize_image(image: &DynamicImage, config: &ConversionConfig) -> (grid: Vec<Vec<[u8; 4]>>)
    ensures
        fits_target(grid@, config.size),
{
    let width: u32 = if config.size.0 > u32::MAX as usize {
        u32::MAX
    } else {
        config.size.0 as u32
    };
    let height: u32 = if config.size.1 > u32::MAX as usize {
        u32::MAX
    } else {
        config.size.1 as u32
    };
    let (w, h, samples) = resized_samples(image, width, height, config.resize_filter);
    let grid = build_grid(w, h, &samples);
    assert(rectangular(grid@, w as nat));
    grid
}

/// The escape character as written: the control byte itself, or the visible
/// text `\x1b` when `raw` is set.
pub open spec fn escape_prefix(raw: bool) -> Seq<char> {
    if raw {
        seq!['\\', 'x', '1', 'b']
    } else {
        seq!['\u{1b}']
    }
}

/// The text for `grid` under `config`, in the mode that it selects.
pub open spec fn render_text(grid: Seq<Vec<[u8; 4]>>, config: ConversionConfig) -> Seq<char> {
    if config.use_blocks {
        blocks_text(grid, config.alpha_threshold, config.color_tolerance, escape_prefix(config.raw))
    } else {
        half_blocks_text(grid, config.alpha_threshold, config.color_tolerance, escape_prefix(config.raw))
    }
}

/// Renders a grid of pixels under `config`.
pub fn render_grid(pixels: &[Vec<[u8; 4]>], config: &ConversionConfig) -> (out: String)
    ensures
        out@ == render_text(pixels@, *config),
{
    proof {
        reveal_strlit("\\x1b");
        reveal_strlit("\x1b");
    }
    let esc = if config.raw {
        "\\x1b"
    } else {
        "\x1b"
    };
    assert(esc@ =~= escape_prefix(config.raw));
    if config.use_blocks {
        convert_blocks_mode(pixels, config, esc)
    } else {
        convert_half_blocks_mode(pixels, config, esc)
    }
}

/// Resizes `image` as `config` asks and renders it: the text is that of a
/// grid of pixels that fits the target size.
pub fn convert_image(image: &DynamicImage, config: &ConversionConfig) -> (out: String)
    ensures
        exists|grid: Seq<Vec<[u8; 4]>>| fits_target(grid, config.size) && out@ == render_text(grid, *config),
{
    let pixels = resize_image(image, config);
    render_grid(pixels.as_slice(), config)
}

/// A decoded image.
pub struct Image {
    inner: DynamicImage,
}

impl Image {
    /// Wraps a decoded image.
    pub fn new(inner: DynamicImage) -> Image {
        Image { inner }
    }

    pub fn width(&self) -> u32 {
        self.inner.width()
    }

    pub fn height(&self) -> u32 {
        self.inner.height()
    }

    /// The image in shades of grey.
    pub fn to_grayscale(self) -> Self {
        Image { inner: grayscale_of(&self.inner) }
    }

    /// The image as ANSI text under `config`.
    pub fn to_ansi(&self, config: &ConversionConfig) -> (out: String)
        ensures
            exists|grid: Seq<Vec<[u8; 4]>>| fits_target(grid, config.size) && out@ == render_text(grid, *config),
    {
        convert_image(&self.inner, config)
    }
}

/// Rendering is a function of the grid and the configuration alone: the same
/// grid under the same configuration always gives the same text.
pub proof fn lemma_render_deterministic(
    g1: Seq<Vec<[u8; 4]>>,
    g2: Seq<Vec<[u8; 4]>>,
    c1: ConversionConfig,
    c2: ConversionConfig,
)
    requires
        g1 == g2,
        c1 == c2,
    ensures
        render_text(g1, c1) == render_text(g2, c2),
{
}

} // verus!
