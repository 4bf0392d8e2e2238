//! The palette quantizer: snaps colours to the nearest earlier representative.
//!
//! Distances are single-precision floats handed around as their bit patterns.
//! A distance is finite and never negative (the distance wrapper states so),
//! and for such floats the bit patterns order as the values do, so distances
//! and tolerances compare as `u32`s.
use palette::color_difference::EuclideanDistance;
use palette::{IntoColor, Lab, LinSrgb, Srgb};
use vstd::prelude::*;

verus! {

/// Perceptual distance of two sRGB colours: the Euclidean distance of their
/// CIELAB coordinates, as the bit pattern of an `f32`.
pub uninterp spec fn lab_distance(a: (u8, u8, u8), b: (u8, u8, u8)) -> u32;

/// Relies on palette: `Srgb::into_linear` and `IntoColor` take each colour to
/// `Lab` (D65, single precision), and `EuclideanDistance::distance` measures between them.
/// The distance depends on the two colours alone. It is the square root of a
/// sum of squared component differences of finite values: finite and never
/// negative, zero between equal colours, and the same either way round.
#[verifier::external_body]
fn cielab_distance(a: (u8, u8, u8), b: (u8, u8, u8)) -> (r: u32)
    ensures
        r == lab_distance(a, b),
        r == lab_distance(b, a),
        r < 0x7f80_0000,
        a == b ==> r == 0,
{
    let lin1: LinSrgb = Srgb::new(a.0, a.1, a.2).into_linear();
    let lin2: LinSrgb = Srgb::new(b.0, b.1, b.2).into_linear();
    let lab1: Lab = lin1.into_color();
    let lab2: Lab = lin2.into_color();
    lab1.distance(lab2).to_bits()
}

/// Whether a tolerance (an `f32` bit pattern) turns quantization on: it does
/// for positive values up to infinity; zero, negatives and NaN leave colours as
/// they are.
pub open spec fn quantizing(tolerance: u32) -> bool {
    0 < tolerance <= 0x7f80_0000
}

/// Index of the first entry of `pal` nearest to `c` (0 for an empty palette).
pub open spec fn nearest(c: (u8, u8, u8), pal: Seq<(u8, u8, u8)>) -> int
    decreases pal.len(),
{
    if pal.len() <= 1 {
        0
    } else {
        let k = nearest(c, pal.drop_last());
        if lab_distance(c, pal.last()) < lab_distance(c, pal[k]) {
            pal.len() - 1
        } else {
            k
        }
    }
}

/// The colour that `c` becomes, and the palette afterwards.
pub open spec fn quantized(c: (u8, u8, u8), pal: Seq<(u8, u8, u8)>, tolerance: u32) -> ((u8, u8, u8), Seq<(u8, u8, u8)>) {
    if !quantizing(tolerance) {
        (c, pal)
    } else if pal.len() > 0 && lab_distance(c, pal[nearest(c, pal)]) < tolerance {
        (pal[nearest(c, pal)], pal)
    } else {
        (c, pal.push(c))
    }
}

/// Quantizes the colours of `cs` in order, from palette `pal`: the colours
/// they become and the palette afterwards.
pub open spec fn quantized_all(cs: Seq<(u8, u8, u8)>, pal: Seq<(u8, u8, u8)>, tolerance: u32) -> (Seq<(u8, u8, u8)>, Seq<(u8, u8, u8)>)
    decreases cs.len(),
{
    if cs.len() == 0 {
        (Seq::empty(), pal)
    } else {
        let prev = quantized_all(cs.drop_last(), pal, tolerance);
        let step = quantized(cs.last(), prev.1, tolerance);
        (prev.0.push(step.0), step.1)
    }
}

pub proof fn lemma_nearest_is_first_minimum(c: (u8, u8, u8), pal: Seq<(u8, u8, u8)>)
    requires
        pal.len() > 0,
    ensures
        0 <= nearest(c, pal) < pal.len(),
        forall|j: int| 0 <= j < pal.len() ==> lab_distance(c, pal[nearest(c, pal)]) <= lab_distance(c, #[trigger] pal[j]),
        forall|j: int| 0 <= j < nearest(c, pal) ==> lab_distance(c, pal[nearest(c, pal)]) < lab_distance(c, #[trigger] pal[j]),
    decreases pal.len(),
{
    if pal.len() > 1 {
        let init = pal.drop_last();
        lemma_nearest_is_first_minimum(c, init);
        let k = nearest(c, init);
        let n = nearest(c, pal);
        assert(init[k] == pal[k]);
        assert forall|j: int| 0 <= j < pal.len() implies lab_distance(c, pal[n]) <= lab_distance(
            c,
            #[trigger] pal[j],
        ) by {
            if j < init.len() {
                assert(init[j] == pal[j]);
            }
        }
        assert forall|j: int| 0 <= j < n implies lab_distance(c, pal[n]) < lab_distance(
            c,
            #[trigger] pal[j],
        ) by {
            if j < init.len() {
                assert(init[j] == pal[j]);
            }
        }
    }
}

/// Quantizes colour `(r, g, b)` against `palette` with `tolerance`.
///
/// With quantization off the colour comes back unchanged and the palette stays
/// as it is. Otherwise the first palette entry nearest to the colour is
/// returned if it lies strictly within the tolerance; if not, the colour is
/// appended to the palette and returned.
///
/// A colour that is already a palette entry, with no earlier entry at distance
/// zero from it, comes back as itself and leaves the palette unchanged; as
/// every returned colour is an entry, quantizing a returned colour again gives
/// it back.
pub fn quantize_color(r: u8, g: u8, b: u8, palette: &mut Vec<(u8, u8, u8)>, tolerance: u32) -> (res: (
    u8,
    u8,
    u8,
))
    ensures
        (res, final(palette)@) == quantized((r, g, b), old(palette)@, tolerance),
        quantizing(tolerance) ==> final(palette)@.contains(res),
        quantizing(tolerance) && (exists|i: int|
            0 <= i < old(palette)@.len() && old(palette)@[i] == (r, g, b) && forall|j: int|
                0 <= j < i ==> lab_distance((r, g, b), #[trigger] old(palette)@[j]) > 0) ==> res == (
        r,
        g,
        b,
        ) && final(palette)@ == old(palette)@,
{
    let c = (r, g, b);
    if !(0 < tolerance && tolerance <= 0x7f80_0000) {
        return c;
    }
    let ghost pal = palette@;
    let mut best: usize = 0;
    let mut best_dist: u32 = 0;
    let mut i: usize = 0;
    while i < palette.len()
        invariant
            pal == palette@,
            i <= pal.len(),
            i > 0 ==> best == nearest(c, pal.take(i as int)),
            i > 0 ==> best < i,
            i > 0 ==> best_dist == lab_distance(c, pal[best as int]),
            forall|k: int| 0 <= k < i && pal[k] == c ==> lab_distance(c, #[trigger] pal[k]) == 0,
        decreases pal.len() - i,
    {
        let d = cielab_distance(c, palette[i]);
        proof {
            let next = pal.take(i + 1);
            assert(next.drop_last() =~= pal.take(i as int));
            assert(next.last() == pal[i as int]);
            if i > 0 {
                assert(next[best as int] == pal[best as int]);
            }
        }
        if i == 0 || d < best_dist {
            best = i;
            best_dist = d;
        }
        i = i + 1;
    }
    proof {
        assert(pal.take(pal.len() as int) =~= pal);
        if pal.len() > 0 {
            lemma_nearest_is_first_minimum(c, pal);
        }
        if exists|i: int|
            0 <= i < pal.len() && pal[i] == c && forall|j: int|
                0 <= j < i ==> lab_distance(c, #[trigger] pal[j]) > 0 {
            let i = choose|i: int|
                0 <= i < pal.len() && pal[i] == c && forall|j: int|
                    0 <= j < i ==> lab_distance(c, #[trigger] pal[j]) > 0;
            let n = nearest(c, pal);
            assert(lab_distance(c, pal[i]) == 0);
            assert(lab_distance(c, pal[n]) <= lab_distance(c, pal[i]));
            if n < i {
                assert(lab_distance(c, pal[n]) > 0);
            }
            if n > i {
                assert(lab_distance(c, pal[n]) < lab_distance(c, pal[i]));
            }
            assert(n == i);
        }
    }
    if palette.len() > 0 && best_dist < tolerance {
        let found = palette[best];
        assert(palette@[best as int] == found);
        found
    } else {
        palette.push(c);
        assert(palette@[palette@.len() - 1] == c);
        c
    }
}

/// With quantization off, any run of colours comes back unchanged and the
/// palette stays as it was.
pub proof fn lemma_off_is_identity(cs: Seq<(u8, u8, u8)>, pal: Seq<(u8, u8, u8)>, tolerance: u32)
    requires
        !quantizing(tolerance),
    ensures
        quantized_all(cs, pal, tolerance) == (cs, pal),
    decreases cs.len(),
{
    if cs.len() > 0 {
        lemma_off_is_identity(cs.drop_last(), pal, tolerance);
        assert(cs.drop_last().push(cs.last()) =~= cs);
    }
}

/// The palette only grows: whatever is quantized, the palette before is a
/// prefix of the palette after.
pub proof fn lemma_palette_grows(cs: Seq<(u8, u8, u8)>, pal: Seq<(u8, u8, u8)>, tolerance: u32)
    ensures
        quantized_all(cs, pal, tolerance).1.len() >= pal.len(),
        quantized_all(cs, pal, tolerance).1.take(pal.len() as int) == pal,
    decreases cs.len(),
{
    if cs.len() > 0 {
        lemma_palette_grows(cs.drop_last(), pal, tolerance);
        let prev = quantized_all(cs.drop_last(), pal, tolerance).1;
        let after = quantized(cs.last(), prev, tolerance).1;
        assert(after.take(pal.len() as int) =~= prev.take(pal.len() as int));
    }
}

/// A colour that quantization returned stays a palette entry: after any
/// further colours, each colour within the tolerance of it, and strictly
/// nearer to it than to every other entry, is quantized to it again.
pub proof fn lemma_cluster_kept(
    c: (u8, u8, u8),
    pal: Seq<(u8, u8, u8)>,
    tolerance: u32,
    cs: Seq<(u8, u8, u8)>,
    x: (u8, u8, u8),
)
    requires
        quantizing(tolerance),
        lab_distance(x, quantized(c, pal, tolerance).0) < tolerance,
        forall|j: int|
            0 <= j < quantized_all(cs, quantized(c, pal, tolerance).1, tolerance).1.len()
                && #[trigger] quantized_all(cs, quantized(c, pal, tolerance).1, tolerance).1[j]
                != quantized(c, pal, tolerance).0 ==> lab_distance(x, quantized(c, pal, tolerance).0)
                < lab_distance(x, quantized_all(cs, quantized(c, pal, tolerance).1, tolerance).1[j]),
    ensures
        quantized(x, quantized_all(cs, quantized(c, pal, tolerance).1, tolerance).1, tolerance).0
            == quantized(c, pal, tolerance).0,
{
    let q = quantized(c, pal, tolerance).0;
    let after = quantized(c, pal, tolerance).1;
    let later = quantized_all(cs, after, tolerance).1;
    if pal.len() > 0 {
        lemma_nearest_is_first_minimum(c, pal);
    }
    let iq: int = if pal.len() > 0 && lab_distance(c, pal[nearest(c, pal)]) < tolerance {
        nearest(c, pal)
    } else {
        pal.len() as int
    };
    assert(0 <= iq < after.len() && after[iq] == q);
    lemma_palette_grows(cs, after, tolerance);
    assert(later.take(after.len() as int)[iq] == later[iq]);
    lemma_nearest_is_first_minimum(x, later);
    let k = nearest(x, later);
    assert(lab_distance(x, later[k]) <= lab_distance(x, later[iq]));
}

} // verus!
