//! Brightness of a colour and the shade glyph that stands for it.
use vstd::prelude::*;

verus! {

/// The shade ramp, from emptiest to fullest.
pub open spec fn shade_ramp() -> Seq<char> {
    seq![' ', '\u{2591}', '\u{2592}', '\u{2593}', '\u{2588}']
}

/// Luma-weighted brightness `0.299 R + 0.587 G + 0.114 B`, truncated.
pub open spec fn luma(r: u8, g: u8, b: u8) -> nat {
    ((299 * r + 587 * g + 114 * b) / 1000) as nat
}

pub open spec fn power(x: int, e: nat) -> int
    decreases e,
{
    if e == 0 {
        1
    } else {
        x * power(x, (e - 1) as nat)
    }
}

/// Whether the gamma-corrected brightness `4 * (v / 255)^(1 / 2.2)` rounds to at
/// least `k` (for `1 <= k`): `(v / 255)^(5 / 11) >= (2k - 1) / 8`, with both sides
/// raised to the eleventh power and the denominators cleared.
pub open spec fn reaches_level(v: u8, k: nat) -> bool {
    power(8, 11) * power(v as int, 5) >= power(2 * k - 1, 11) * power(255, 5)
}

/// The index in the shade ramp of the glyph for brightness `v`.
pub open spec fn shade_level(v: u8) -> nat {
    if reaches_level(v, 4) {
        4
    } else if reaches_level(v, 3) {
        3
    } else if reaches_level(v, 2) {
        2
    } else if reaches_level(v, 1) {
        1
    } else {
        0
    }
}

pub open spec fn shade_of(v: u8) -> char {
    shade_ramp()[shade_level(v) as int]
}

/// Brightness of an RGB colour.
pub fn rgb_to_brightness(r: u8, g: u8, b: u8) -> (v: u8)
    ensures
        v as nat == luma(r, g, b),
{
    let sum: u32 = 299 * (r as u32) + 587 * (g as u32) + 114 * (b as u32);
    (sum / 1000) as u8
}

proof fn lemma_power5_monotonic(a: int, b: int)
    requires
        0 <= a <= b,
    ensures
        power(a, 5) <= power(b, 5),
{
    reveal_with_fuel(power, 6);
    assert(a * a <= b * b) by (nonlinear_arith)
        requires
            0 <= a <= b,
    ;
    assert(a * a * a <= b * b * b) by (nonlinear_arith)
        requires
            0 <= a <= b,
            a * a <= b * b,
    ;
    assert(a * (a * (a * (a * a))) <= b * (b * (b * (b * b)))) by (nonlinear_arith)
        requires
            0 <= a <= b,
    ;
}

proof fn lemma_level_constants()
    ensures
        power(8, 11) == 8589934592,
        power(255, 5) == 1078203909375,
        power(1, 11) == 1,
        power(3, 11) == 177147,
        power(5, 11) == 48828125,
        power(7, 11) == 1977326743,
{
    reveal_with_fuel(power, 12);
}

/// The glyph of the shade ramp for brightness `v`: normalised, gamma corrected
/// with exponent `1 / 2.2`, scaled to the ramp's last index and rounded.
pub fn get_shade_block(v: u8) -> (c: char)
    ensures
        c == shade_of(v),
{
    proof {
        lemma_level_constants();
        reveal_with_fuel(power, 6);
    }
    let x: u64 = v as u64;
    assert(x * x <= 65025) by (nonlinear_arith)
        requires
            x <= 255,
    ;
    let x2: u64 = x * x;
    assert(x2 * x <= 16581375) by (nonlinear_arith)
        requires
            x2 <= 65025,
            x <= 255,
    ;
    let x3: u64 = x2 * x;
    assert(x3 * x <= 4228250625) by (nonlinear_arith)
        requires
            x3 <= 16581375,
            x <= 255,
    ;
    let x4: u64 = x3 * x;
    assert(x4 * x <= 1078203909375) by (nonlinear_arith)
        requires
            x4 <= 4228250625,
            x <= 255,
    ;
    let v5: u64 = x4 * x;
    assert(power(v as int, 5) == v5) by (nonlinear_arith)
        requires
            v5 == x4 * x,
            x4 == x3 * x,
            x3 == x2 * x,
            x2 == x * x,
            x == v,
            power(v as int, 5) == (v as int) * ((v as int) * ((v as int) * ((v as int) * (v as int)))),
    ;
    let scaled: u128 = 8589934592u128 * (v5 as u128);
    if scaled >= 2131961424414335915625u128 {
        '\u{2588}'
    } else if scaled >= 52646675262451171875u128 {
        '\u{2593}'
    } else if scaled >= 191000587934053125u128 {
        '\u{2592}'
    } else if scaled >= 1078203909375u128 {
        '\u{2591}'
    } else {
        ' '
    }
}

/// The glyph is always one of the five of the ramp, and a brighter input never
/// gets an emptier glyph.
pub proof fn lemma_shade_monotonic(v: u8, w: u8)
    requires
        v <= w,
    ensures
        shade_level(v) < 5,
        shade_ramp().contains(shade_of(v)),
        shade_level(v) <= shade_level(w),
{
    lemma_power5_monotonic(v as int, w as int);
    lemma_level_constants();
    let pv = power(v as int, 5);
    let pw = power(w as int, 5);
    assert(8589934592 * pv <= 8589934592 * pw) by (nonlinear_arith)
        requires
            pv <= pw,
    ;
    assert(shade_ramp()[shade_level(v) as int] == shade_of(v));
}

} // verus!
