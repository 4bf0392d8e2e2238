//! The two renderers: one shade glyph per pixel, or one half block per two
//! vertically stacked pixels.
use vstd::prelude::*;
use vstd::string::*;
use crate::ansi::{
    fg_bg_escape, fg_escape, push_fg, push_fg_bg, push_reset, reset_escape,
};
use crate::color::{get_shade_block, lemma_shade_monotonic, luma, rgb_to_brightness, shade_of, shade_ramp};
use crate::config::ConversionConfig;
use crate::quantize::{quantize_color, quantized};

verus! {

pub const UPPER_HALF: char = '\u{2580}';

pub const LOWER_HALF: char = '\u{2584}';

pub open spec fn rgb_of(px: [u8; 4]) -> (u8, u8, u8) {
    (px[0], px[1], px[2])
}

/// The shade glyph of a pixel, by its brightness.
pub open spec fn pixel_shade(px: [u8; 4]) -> char {
    shade_of(luma(px[0], px[1], px[2]) as u8)
}

/// The glyph at column `x` of row `y`, or a blank where the coordinate lies
/// outside `width` by `height` or outside the grid.
pub open spec fn cell_shade(grid: Seq<Vec<[u8; 4]>>, x: int, y: int, width: int, height: int) -> char {
    if 0 <= y < height && 0 <= x < width && y < grid.len() && x < grid[y]@.len() {
        pixel_shade(grid[y]@[x])
    } else {
        ' '
    }
}

/// Full-glyph mode, the first `n` cells of row `y`: their text, the palette
/// after them, the colour of the foreground in force, and whether any
/// foreground escape was written.
pub open spec fn block_cells(
    grid: Seq<Vec<[u8; 4]>>,
    y: int,
    n: nat,
    pal: Seq<(u8, u8, u8)>,
    threshold: u8,
    tolerance: u32,
    esc: Seq<char>,
) -> (Seq<char>, Seq<(u8, u8, u8)>, Option<(u8, u8, u8)>, bool)
    decreases n,
{
    if n == 0 {
        (Seq::empty(), pal, None, false)
    } else {
        let prev = block_cells(grid, y, (n - 1) as nat, pal, threshold, tolerance, esc);
        let px = grid[y]@[n - 1];
        let q = quantized(rgb_of(px), prev.1, tolerance);
        if px[3] < threshold {
            (prev.0.push(' '), q.1, None, prev.3)
        } else if prev.2 != Some(q.0) {
            (prev.0 + fg_escape(esc, q.0) + seq![pixel_shade(px)], q.1, Some(q.0), true)
        } else {
            (prev.0.push(pixel_shade(px)), q.1, prev.2, prev.3)
        }
    }
}

/// Full-glyph mode, the first `m` rows: their text and the palette after them.
pub open spec fn block_rows(
    grid: Seq<Vec<[u8; 4]>>,
    m: nat,
    threshold: u8,
    tolerance: u32,
    esc: Seq<char>,
) -> (Seq<char>, Seq<(u8, u8, u8)>)
    decreases m,
{
    if m == 0 {
        (Seq::empty(), Seq::empty())
    } else {
        let prev = block_rows(grid, (m - 1) as nat, threshold, tolerance, esc);
        let row = block_cells(
            grid,
            m - 1,
            grid[m - 1]@.len(),
            prev.1,
            threshold,
            tolerance,
            esc,
        );
        let end = if row.3 {
            reset_escape(esc)
        } else {
            Seq::empty()
        };
        (prev.0 + row.0 + end + seq!['\n'], row.1)
    }
}

/// The whole text of full-glyph mode.
pub open spec fn blocks_text(grid: Seq<Vec<[u8; 4]>>, threshold: u8, tolerance: u32, esc: Seq<char>) -> Seq<char> {
    block_rows(grid, grid.len(), threshold, tolerance, esc).0
}

/// Half-block mode, one cell: `top` over a bottom pixel with colour `bot` and
/// alpha `bot_alpha`. Its text and the palette after it.
pub open spec fn half_cell(
    top: [u8; 4],
    bot: (u8, u8, u8),
    bot_alpha: u8,
    pal: Seq<(u8, u8, u8)>,
    threshold: u8,
    tolerance: u32,
    esc: Seq<char>,
) -> (Seq<char>, Seq<(u8, u8, u8)>) {
    let qt = quantized(rgb_of(top), pal, tolerance);
    let qb = if bot_alpha >= threshold {
        quantized(bot, qt.1, tolerance)
    } else {
        (bot, qt.1)
    };
    let top_invisible = top[3] < threshold;
    let bot_invisible = bot_alpha < threshold;
    let text = if top_invisible && bot_invisible {
        seq![' ']
    } else if top_invisible {
        fg_escape(esc, qb.0) + seq![LOWER_HALF] + reset_escape(esc)
    } else if bot_invisible {
        fg_escape(esc, qt.0) + seq![UPPER_HALF] + reset_escape(esc)
    } else {
        fg_bg_escape(esc, qb.0, qt.0) + seq![LOWER_HALF] + reset_escape(esc)
    };
    (text, qb.1)
}

/// The bottom partner of column `x` of row `y`: the pixel below, or a fully
/// transparent black one where there is none.
pub open spec fn below(grid: Seq<Vec<[u8; 4]>>, y: int, x: int) -> ((u8, u8, u8), u8) {
    if y + 1 < grid.len() && 0 <= x < grid[y + 1]@.len() {
        (rgb_of(grid[y + 1]@[x]), grid[y + 1]@[x][3])
    } else {
        ((0u8, 0u8, 0u8), 0u8)
    }
}

/// Half-block mode, the first `n` cells of the pair of rows that starts at row
/// `y`: their text and the palette after them.
pub open spec fn half_cells(
    grid: Seq<Vec<[u8; 4]>>,
    y: int,
    n: nat,
    pal: Seq<(u8, u8, u8)>,
    threshold: u8,
    tolerance: u32,
    esc: Seq<char>,
) -> (Seq<char>, Seq<(u8, u8, u8)>)
    decreases n,
{
    if n == 0 {
        (Seq::empty(), pal)
    } else {
        let prev = half_cells(grid, y, (n - 1) as nat, pal, threshold, tolerance, esc);
        let b = below(grid, y, n - 1);
        let cell = half_cell(grid[y]@[n - 1], b.0, b.1, prev.1, threshold, tolerance, esc);
        (prev.0 + cell.0, cell.1)
    }
}

/// Half-block mode, the first `k` pairs of rows: their text and the palette
/// after them.
pub open spec fn half_rows(
    grid: Seq<Vec<[u8; 4]>>,
    k: nat,
    threshold: u8,
    tolerance: u32,
    esc: Seq<char>,
) -> (Seq<char>, Seq<(u8, u8, u8)>)
    decreases k,
{
    if k == 0 {
        (Seq::empty(), Seq::empty())
    } else {
        let prev = half_rows(grid, (k - 1) as nat, threshold, tolerance, esc);
        let y = 2 * (k - 1);
        let row = half_cells(grid, y, grid[y]@.len(), prev.1, threshold, tolerance, esc);
        (prev.0 + row.0 + seq!['\n'], row.1)
    }
}

/// Number of pairs of rows of a grid of `h` rows; the last may be unpaired.
pub open spec fn row_pairs(h: nat) -> nat {
    (h + 1) / 2
}

/// The whole text of half-block mode.
pub open spec fn half_blocks_text(grid: Seq<Vec<[u8; 4]>>, threshold: u8, tolerance: u32, esc: Seq<char>) -> Seq<char> {
    half_rows(grid, row_pairs(grid.len()), threshold, tolerance, esc).0
}

/// Appends one glyph of the shade ramp, a half block or a newline.
fn push_glyph(out: &mut String, c: char)
    requires
        shade_ramp().contains(c) || c == UPPER_HALF || c == LOWER_HALF || c == '\n',
    ensures
        final(out)@ == old(out)@.push(c),
{
    proof {
        reveal_strlit(" ");
        reveal_strlit("\u{2591}");
        reveal_strlit("\u{2592}");
        reveal_strlit("\u{2593}");
        reveal_strlit("\u{2588}");
        reveal_strlit("\u{2580}");
        reveal_strlit("\u{2584}");
        reveal_strlit("\n");
        assert(shade_ramp().contains(c) ==> exists|i: int| 0 <= i < 5 && shade_ramp()[i] == c);
    }
    if c == ' ' {
        out.append(" ");
    } else if c == '\u{2591}' {
        out.append("\u{2591}");
    } else if c == '\u{2592}' {
        out.append("\u{2592}");
    } else if c == '\u{2593}' {
        out.append("\u{2593}");
    } else if c == '\u{2588}' {
        out.append("\u{2588}");
    } else if c == '\u{2580}' {
        out.append("\u{2580}");
    } else if c == '\u{2584}' {
        out.append("\u{2584}");
    } else {
        out.append("\n");
    }
}

/// The shade glyph at column `x` of row `y` of `pixels`; a blank where the
/// coordinate lies outside `width` by `height` or outside the grid.
pub fn get_structured_block(pixels: &[Vec<[u8; 4]>], x: usize, y: usize, width: usize, height: usize) -> (c: char)
    ensures
        c == cell_shade(pixels@, x as int, y as int, width as int, height as int),
{
    if y < height && x < width && y < pixels.len() && x < pixels[y].len() {
        let pix = pixels[y][x];
        let brightness = rgb_to_brightness(pix[0], pix[1], pix[2]);
        get_shade_block(brightness)
    } else {
        ' '
    }
}

/// Full-glyph mode: each pixel becomes the shade glyph of its own brightness,
/// coloured by its quantized colour, with a foreground escape only where the
/// colour changes; an invisible pixel becomes a blank and forgets the colour.
/// A row that wrote an escape ends with a reset; every row ends with a newline.
pub fn convert_blocks_mode(pixels: &[Vec<[u8; 4]>], config: &ConversionConfig, esc: &str) -> (out: String)
    ensures
        out@ == blocks_text(pixels@, config.alpha_threshold, config.color_tolerance, esc@),
{
    let threshold = config.alpha_threshold;
    let tolerance = config.color_tolerance;
    let mut palette: Vec<(u8, u8, u8)> = Vec::new();
    let mut out = String::new();
    let mut line: usize = 0;
    while line < pixels.len()
        invariant
            line <= pixels@.len(),
            threshold == config.alpha_threshold,
            tolerance == config.color_tolerance,
            out@ == block_rows(pixels@, line as nat, threshold, tolerance, esc@).0,
            palette@ == block_rows(pixels@, line as nat, threshold, tolerance, esc@).1,
        decreases pixels@.len() - line,
    {
        let ghost start = out@;
        let ghost pal0 = palette@;
        let row = &pixels[line];
        let mut last: Option<(u8, u8, u8)> = None;
        let mut escaped = false;
        let mut x: usize = 0;
        while x < row.len()
            invariant
                line < pixels@.len(),
                row == pixels@[line as int],
                x <= row@.len(),
                out@ == start + block_cells(pixels@, line as int, x as nat, pal0, threshold, tolerance, esc@).0,
                palette@ == block_cells(pixels@, line as int, x as nat, pal0, threshold, tolerance, esc@).1,
                last == block_cells(pixels@, line as int, x as nat, pal0, threshold, tolerance, esc@).2,
                escaped == block_cells(pixels@, line as int, x as nat, pal0, threshold, tolerance, esc@).3,
            decreases row@.len() - x,
        {
            let ghost before = out@;
            let pix = row[x];
            let q = quantize_color(pix[0], pix[1], pix[2], &mut palette, tolerance);
            if pix[3] < threshold {
                push_glyph(&mut out, ' ');
                last = None;
            } else {
                let glyph = get_structured_block(pixels, x, line, row.len(), pixels.len());
                proof {
                    lemma_shade_monotonic(luma(pix[0], pix[1], pix[2]) as u8, 255);
                }
                let changed = match last {
                    Some(l) => l.0 != q.0 || l.1 != q.1 || l.2 != q.2,
                    None => true,
                };
                if changed {
                    push_fg(&mut out, esc, q);
                    last = Some(q);
                    escaped = true;
                }
                push_glyph(&mut out, glyph);
                proof {
                    if changed {
                        assert(out@ =~= before + fg_escape(esc@, q) + seq![glyph]);
                    }
                }
            }
            x = x + 1;
            proof {
                assert(out@ =~= start + block_cells(pixels@, line as int, x as nat, pal0, threshold, tolerance, esc@).0);
            }
        }
        if escaped {
            push_reset(&mut out, esc);
        }
        push_glyph(&mut out, '\n');
        line = line + 1;
        proof {
            assert(out@ =~= block_rows(pixels@, line as nat, threshold, tolerance, esc@).0);
        }
    }
    out
}

/// Half-block mode: rows are taken in pairs, the last one paired with fully
/// transparent black pixels when the grid has an odd number of rows. Each
/// cell is a blank, or a foreground escape, a half block and a reset, or the
/// combined escape (foreground from the bottom pixel, background from the top
/// one), the lower half block and a reset. Every pair ends with a newline.
#[verifier::rlimit(40)]
pub fn convert_half_blocks_mode(pixels: &[Vec<[u8; 4]>], config: &ConversionConfig, esc: &str) -> (out: String)
    ensures
        out@ == half_blocks_text(pixels@, config.alpha_threshold, config.color_tolerance, esc@),
{
    let threshold = config.alpha_threshold;
    let tolerance = config.color_tolerance;
    let mut palette: Vec<(u8, u8, u8)> = Vec::new();
    let mut out = String::new();
    let n = pixels.len();
    let pairs = n / 2 + n % 2;
    let mut k: usize = 0;
    while k < pairs
        invariant
            n == pixels@.len(),
            pairs == row_pairs(n as nat),
            k <= pairs,
            threshold == config.alpha_threshold,
            tolerance == config.color_tolerance,
            out@ == half_rows(pixels@, k as nat, threshold, tolerance, esc@).0,
            palette@ == half_rows(pixels@, k as nat, threshold, tolerance, esc@).1,
        decreases pairs - k,
    {
        let line = 2 * k;
        let ghost start = out@;
        let ghost pal0 = palette@;
        let row = &pixels[line];
        let mut x: usize = 0;
        while x < row.len()
            invariant
                n == pixels@.len(),
                line < n,
                row == pixels@[line as int],
                x <= row@.len(),
                out@ == start + half_cells(pixels@, line as int, x as nat, pal0, threshold, tolerance, esc@).0,
                palette@ == half_cells(pixels@, line as int, x as nat, pal0, threshold, tolerance, esc@).1,
            decreases row@.len() - x,
        {
            let ghost before = out@;
            let ghost pal_before = palette@;
            let top_pix = row[x];
            let bot_pix: [u8; 4] = if line + 1 < n && x < pixels[line + 1].len() {
                pixels[line + 1][x]
            } else {
                [0u8; 4]
            };
            let top = quantize_color(top_pix[0], top_pix[1], top_pix[2], &mut palette, tolerance);
            let bot = if bot_pix[3] >= threshold {
                quantize_color(bot_pix[0], bot_pix[1], bot_pix[2], &mut palette, tolerance)
            } else {
                (bot_pix[0], bot_pix[1], bot_pix[2])
            };
            let top_invisible = top_pix[3] < threshold;
            let bot_invisible = bot_pix[3] < threshold;
            if top_invisible && bot_invisible {
                push_glyph(&mut out, ' ');
            } else if top_invisible {
                push_fg(&mut out, esc, bot);
                push_glyph(&mut out, LOWER_HALF);
                push_reset(&mut out, esc);
            } else if bot_invisible {
                push_fg(&mut out, esc, top);
                push_glyph(&mut out, UPPER_HALF);
                push_reset(&mut out, esc);
            } else {
                push_fg_bg(&mut out, esc, bot, top);
                push_glyph(&mut out, LOWER_HALF);
                push_reset(&mut out, esc);
            }
            proof {
                let b = below(pixels@, line as int, x as int);
                assert(b.0 == (bot_pix[0], bot_pix[1], bot_pix[2]));
                assert(b.1 == bot_pix[3]);
                let cell = half_cell(top_pix, b.0, b.1, pal_before, threshold, tolerance, esc@);
                assert(out@ =~= before + cell.0);
            }
            x = x + 1;
            proof {
                assert(out@ =~= start + half_cells(pixels@, line as int, x as nat, pal0, threshold, tolerance, esc@).0);
            }
        }
        push_glyph(&mut out, '\n');
        k = k + 1;
        proof {
            assert(out@ =~= half_rows(pixels@, k as nat, threshold, tolerance, esc@).0);
        }
    }
    out
}

/// On a grid with an odd number of rows the last pair of rows starts at the
/// last row, and each of its cells has a fully transparent black partner.
pub proof fn lemma_odd_height_partner(grid: Seq<Vec<[u8; 4]>>, x: int)
    requires
        grid.len() % 2 == 1,
    ensures
        2 * (row_pairs(grid.len()) - 1) == grid.len() - 1,
        below(grid, grid.len() - 1, x) == ((0u8, 0u8, 0u8), 0u8),
{
}

} // verus!
