use ansimake::config::{ConversionConfig, ResizeFilter};
use ansimake::picture::{build_grid, convert_image, render_grid, Image};
use ansimake::render::{convert_blocks_mode, convert_half_blocks_mode, get_structured_block};
use image::{DynamicImage, RgbaImage};

fn blocks_config() -> ConversionConfig {
    ConversionConfig { use_blocks: true, ..ConversionConfig::default() }
}

fn half_config() -> ConversionConfig {
    ConversionConfig::default()
}

#[test]
fn blocks_white_pixel() {
    let grid = vec![vec![[255u8, 255, 255, 255]]];
    let out = convert_blocks_mode(&grid, &blocks_config(), "\x1b");
    assert_eq!(out, "\x1b[38;2;255;255;255m\u{2588}\x1b[0m\n");
}

#[test]
fn blocks_transparent_pixel() {
    let grid = vec![vec![[10u8, 20, 30, 0]]];
    let out = convert_blocks_mode(&grid, &blocks_config(), "\x1b");
    assert_eq!(out, " \n");
}

#[test]
fn blocks_same_colour_written_once() {
    let grid = vec![vec![[255u8, 0, 0, 255], [255, 0, 0, 255]]];
    let out = convert_blocks_mode(&grid, &blocks_config(), "\x1b");
    assert_eq!(out, "\x1b[38;2;255;0;0m\u{2592}\u{2592}\x1b[0m\n");
}

#[test]
fn blocks_transparent_pixel_forgets_colour() {
    let grid = vec![vec![[255u8, 0, 0, 255], [0, 0, 0, 0], [255, 0, 0, 255]]];
    let out = convert_blocks_mode(&grid, &blocks_config(), "\x1b");
    assert_eq!(
        out,
        "\x1b[38;2;255;0;0m\u{2592} \x1b[38;2;255;0;0m\u{2592}\x1b[0m\n"
    );
}

#[test]
fn blocks_row_ending_transparent_still_resets() {
    let grid = vec![vec![[255u8, 0, 0, 255], [0, 0, 0, 0]], vec![[0u8, 0, 0, 0], [0, 0, 0, 0]]];
    let out = convert_blocks_mode(&grid, &blocks_config(), "\x1b");
    assert_eq!(out, "\x1b[38;2;255;0;0m\u{2592} \x1b[0m\n  \n");
}

#[test]
fn blocks_glyph_uses_unquantized_brightness() {
    let tol = 100.0f32.to_bits();
    let config = ConversionConfig { use_blocks: true, color_tolerance: tol, ..ConversionConfig::default() };
    let grid = vec![vec![[255u8, 255, 255, 255], [120, 120, 120, 255], [0, 0, 0, 255]]];
    let out = convert_blocks_mode(&grid, &config, "\x1b");
    // The grey takes the white's colour but keeps its own shade; black lies
    // exactly 100 away from white and starts a colour of its own.
    assert_eq!(
        out,
        "\x1b[38;2;255;255;255m\u{2588}\u{2593}\x1b[38;2;0;0;0m \x1b[0m\n"
    );
}

#[test]
fn half_blocks_red_over_blue() {
    let grid = vec![vec![[255u8, 0, 0, 255]], vec![[0u8, 0, 255, 255]]];
    let out = convert_half_blocks_mode(&grid, &half_config(), "\x1b");
    assert_eq!(out, "\x1b[38;2;0;0;255;48;2;255;0;0m\u{2584}\x1b[0m\n");
}

#[test]
fn half_blocks_top_only() {
    let grid = vec![vec![[255u8, 0, 0, 255]], vec![[0u8, 0, 255, 0]]];
    let out = convert_half_blocks_mode(&grid, &half_config(), "\x1b");
    assert_eq!(out, "\x1b[38;2;255;0;0m\u{2580}\x1b[0m\n");
}

#[test]
fn half_blocks_bottom_only() {
    let grid = vec![vec![[255u8, 0, 0, 10]], vec![[0u8, 0, 255, 255]]];
    let out = convert_half_blocks_mode(&grid, &half_config(), "\x1b");
    assert_eq!(out, "\x1b[38;2;0;0;255m\u{2584}\x1b[0m\n");
}

#[test]
fn half_blocks_both_invisible() {
    let grid = vec![vec![[255u8, 0, 0, 10], [1, 2, 3, 0]], vec![[0u8, 0, 255, 127], [4, 5, 6, 0]]];
    let out = convert_half_blocks_mode(&grid, &half_config(), "\x1b");
    assert_eq!(out, "  \n");
}

#[test]
fn half_blocks_odd_height() {
    let grid = vec![
        vec![[255u8, 0, 0, 255]],
        vec![[0u8, 0, 255, 255]],
        vec![[0u8, 255, 0, 255]],
    ];
    let out = convert_half_blocks_mode(&grid, &half_config(), "\x1b");
    assert_eq!(
        out,
        "\x1b[38;2;0;0;255;48;2;255;0;0m\u{2584}\x1b[0m\n\x1b[38;2;0;255;0m\u{2580}\x1b[0m\n"
    );
}

#[test]
fn half_blocks_odd_height_zero_threshold() {
    let config = ConversionConfig { alpha_threshold: 0, ..ConversionConfig::default() };
    let grid = vec![vec![[255u8, 0, 0, 255]]];
    let out = convert_half_blocks_mode(&grid, &config, "\x1b");
    assert_eq!(out, "\x1b[38;2;0;0;0;48;2;255;0;0m\u{2584}\x1b[0m\n");
}

#[test]
fn half_blocks_no_run_length_suppression() {
    let grid = vec![vec![[255u8, 0, 0, 255], [255, 0, 0, 255]]];
    let out = convert_half_blocks_mode(&grid, &half_config(), "\x1b");
    assert_eq!(
        out,
        "\x1b[38;2;255;0;0m\u{2580}\x1b[0m\x1b[38;2;255;0;0m\u{2580}\x1b[0m\n"
    );
}

#[test]
fn empty_grid_renders_nothing() {
    let grid: Vec<Vec<[u8; 4]>> = vec![];
    assert_eq!(convert_blocks_mode(&grid, &blocks_config(), "\x1b"), "");
    assert_eq!(convert_half_blocks_mode(&grid, &half_config(), "\x1b"), "");
}

#[test]
fn raw_escape_is_visible_text() {
    let config = ConversionConfig { raw: true, use_blocks: true, ..ConversionConfig::default() };
    let grid = vec![vec![[255u8, 255, 255, 255]]];
    let out = render_grid(&grid, &config);
    assert_eq!(out, "\\x1b[38;2;255;255;255m\u{2588}\\x1b[0m\n");
}

#[test]
fn render_grid_dispatches_on_mode() {
    let grid = vec![vec![[255u8, 0, 0, 255]], vec![[0u8, 0, 255, 255]]];
    let half = render_grid(&grid, &half_config());
    assert_eq!(half, "\x1b[38;2;0;0;255;48;2;255;0;0m\u{2584}\x1b[0m\n");
    let blocks = render_grid(&grid, &blocks_config());
    assert_eq!(
        blocks,
        "\x1b[38;2;255;0;0m\u{2592}\x1b[0m\n\x1b[38;2;0;0;255m\u{2591}\x1b[0m\n"
    );
}

#[test]
fn rendering_twice_is_identical() {
    let tol = 20.0f32.to_bits();
    let config = ConversionConfig { color_tolerance: tol, ..ConversionConfig::default() };
    let grid = vec![
        vec![[255u8, 0, 0, 255], [250, 5, 5, 255], [0, 0, 255, 200]],
        vec![[10u8, 200, 30, 255], [0, 0, 0, 0], [12, 198, 33, 255]],
        vec![[1u8, 2, 3, 255], [4, 5, 6, 100], [7, 8, 9, 255]],
    ];
    let a = render_grid(&grid, &config);
    let b = render_grid(&grid, &config);
    assert_eq!(a, b);
    let blocks = ConversionConfig { use_blocks: true, ..config };
    assert_eq!(render_grid(&grid, &blocks), render_grid(&grid, &blocks));
}

#[test]
fn structured_block_out_of_range_is_blank() {
    let grid = vec![vec![[255u8, 255, 255, 255]]];
    assert_eq!(get_structured_block(&grid, 0, 0, 1, 1), '\u{2588}');
    assert_eq!(get_structured_block(&grid, 1, 0, 1, 1), ' ');
    assert_eq!(get_structured_block(&grid, 0, 1, 1, 1), ' ');
    assert_eq!(get_structured_block(&grid, 0, 0, 0, 1), ' ');
    assert_eq!(get_structured_block(&grid, 0, 1, 1, 5), ' ');
}

#[test]
fn build_grid_lays_out_rows() {
    let samples: Vec<u8> = (1..=16).collect();
    let grid = build_grid(2, 2, &samples);
    assert_eq!(
        grid,
        vec![
            vec![[1u8, 2, 3, 4], [5, 6, 7, 8]],
            vec![[9u8, 10, 11, 12], [13, 14, 15, 16]],
        ]
    );
}

fn image_of(width: u32, height: u32, samples: Vec<u8>) -> DynamicImage {
    DynamicImage::ImageRgba8(RgbaImage::from_raw(width, height, samples).unwrap())
}

#[test]
fn convert_image_white_pixel() {
    let img = image_of(1, 1, vec![255, 255, 255, 255]);
    let config = ConversionConfig { size: (1, 1), use_blocks: true, ..ConversionConfig::default() };
    assert_eq!(convert_image(&img, &config), "\x1b[38;2;255;255;255m\u{2588}\x1b[0m\n");
}

#[test]
fn convert_image_resizes() {
    let img = image_of(2, 2, vec![255, 0, 0, 255].repeat(4));
    let config = ConversionConfig { size: (1, 1), use_blocks: true, ..ConversionConfig::default() };
    assert_eq!(convert_image(&img, &config), "\x1b[38;2;255;0;0m\u{2592}\x1b[0m\n");
    let filtered = ConversionConfig { resize_filter: ResizeFilter::Triangle, ..config };
    assert_eq!(convert_image(&img, &filtered), "\x1b[38;2;255;0;0m\u{2592}\x1b[0m\n");
}

#[test]
fn image_to_ansi_half_blocks() {
    let mut samples = vec![255u8, 0, 0, 255];
    samples.extend_from_slice(&[0, 0, 255, 255]);
    let img = Image::new(image_of(1, 2, samples));
    assert_eq!(img.width(), 1);
    assert_eq!(img.height(), 2);
    let config = ConversionConfig { size: (1, 2), ..ConversionConfig::default() };
    assert_eq!(img.to_ansi(&config), "\x1b[38;2;0;0;255;48;2;255;0;0m\u{2584}\x1b[0m\n");
}

#[test]
fn grayscale_image_has_grey_colours() {
    let img = Image::new(image_of(1, 1, vec![255, 0, 0, 255])).to_grayscale();
    let config = ConversionConfig { size: (1, 1), use_blocks: true, ..ConversionConfig::default() };
    let out = img.to_ansi(&config);
    let params = out
        .strip_prefix("\x1b[38;2;")
        .and_then(|rest| rest.split('m').next())
        .unwrap();
    let channels: Vec<&str> = params.split(';').collect();
    assert_eq!(channels.len(), 3);
    assert_eq!(channels[0], channels[1]);
    assert_eq!(channels[1], channels[2]);
    assert_ne!(out, "\x1b[38;2;255;0;0m\u{2592}\x1b[0m\n");
}

#[test]
fn default_config() {
    let c = ConversionConfig::default();
    assert_eq!(c.size, (80, 24));
    assert_eq!(c.alpha_threshold, 128);
    assert!(!c.raw);
    assert_eq!(c.resize_filter, ResizeFilter::Nearest);
    assert_eq!(c.color_tolerance, 0);
    assert!(!c.use_blocks);
}

#[test]
fn convert_image_fits_target_and_keeps_aspect() {
    let img = image_of(4, 2, vec![0, 255, 0, 255].repeat(8));
    let config = ConversionConfig { size: (2, 2), use_blocks: true, ..ConversionConfig::default() };
    // Four by two scaled to fit two by two is two by one.
    assert_eq!(convert_image(&img, &config), "\x1b[38;2;0;255;0m\u{2593}\u{2593}\x1b[0m\n");
}

#[test]
fn convert_image_zero_target_gives_one_pixel() {
    let img = image_of(2, 2, vec![255, 255, 255, 255].repeat(4));
    let config = ConversionConfig { size: (0, 0), use_blocks: true, ..ConversionConfig::default() };
    assert_eq!(convert_image(&img, &config), "\x1b[38;2;255;255;255m\u{2588}\x1b[0m\n");
}
