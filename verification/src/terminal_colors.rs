//! The 256 colours of a terminal, and the one nearest to a given colour.
//!
//! The palette holds 16 named colours, a cube of 6 levels of red, green and
//! blue each, and a ramp of 24 greys. Nearness is the Euclidean distance of
//! the red, green and blue levels; its square orders colours the same way and
//! is what is compared.
use vstd::prelude::*;

verus! {

/// The 16 named colours that open the palette.
pub const SYSTEM_COLORS: [(u8, u8, u8); 16] = [
    (0, 0, 0),
    (128, 0, 0),
    (0, 128, 0),
    (128, 128, 0),
    (0, 0, 128),
    (128, 0, 128),
    (0, 128, 128),
    (192, 192, 192),
    (128, 128, 128),
    (255, 0, 0),
    (0, 255, 0),
    (255, 255, 0),
    (0, 0, 255),
    (255, 0, 255),
    (0, 255, 255),
    (255, 255, 255),
];

/// A colour of the palette: its index, and its red, green and blue levels.
#[derive(Debug, Clone, Copy, PartialEq, Eq)]
pub struct TermColor {
    pub index: u8,
    pub rgb: (u8, u8, u8),
}

/// The level of step `i` of the colour cube: 0, 95, 135, 175, 215, 255.
pub open spec fn cube_level(i: int) -> u8 {
    if i == 0 {
        0
    } else {
        (55 + 40 * i) as u8
    }
}

/// The colour at `index` of the palette.
pub open spec fn palette(index: int) -> (u8, u8, u8) {
    if index < 16 {
        SYSTEM_COLORS[index]
    } else if index < 232 {
        let place = index - 16;
        (cube_level(place / 36), cube_level((place / 6) % 6), cube_level(place % 6))
    } else {
        let grey = (8 + 10 * (index - 232)) as u8;
        (grey, grey, grey)
    }
}

/// The square of the distance of two colours.
pub open spec fn distance(a: (u8, u8, u8), b: (u8, u8, u8)) -> int {
    (a.0 - b.0) * (a.0 - b.0) + (a.1 - b.1) * (a.1 - b.1) + (a.2 - b.2) * (a.2 - b.2)
}

/// The index of the first colour among the first `k` of the palette that is
/// nearest to `rgb`.
pub open spec fn nearest_upto(rgb: (u8, u8, u8), k: int) -> int
    decreases k,
{
    if k <= 1 {
        0
    } else {
        let best = nearest_upto(rgb, k - 1);
        if distance(rgb, palette(k - 1)) < distance(rgb, palette(best)) {
            k - 1
        } else {
            best
        }
    }
}

/// The index of the colour of the palette that is nearest to `rgb`, the
/// lowest index where several are equally near.
pub open spec fn nearest_index(rgb: (u8, u8, u8)) -> u8 {
    nearest_upto(rgb, 256) as u8
}

/// The level of step `i` of the colour cube.
fn level(i: u8) -> (r: u8)
    requires
        i < 6,
    ensures
        r == cube_level(i as int),
{
    if i == 0 {
        0
    } else {
        55 + 40 * i
    }
}

/// The colour at `index` of the palette.
pub fn palette_color(index: u8) -> (rgb: (u8, u8, u8))
    ensures
        rgb == palette(index as int),
{
    if index < 16 {
        SYSTEM_COLORS[index as usize]
    } else if index < 232 {
        let place: u8 = index - 16;
        (level(place / 36), level((place / 6) % 6), level(place % 6))
    } else {
        let grey: u8 = 8 + 10 * (index - 232);
        (grey, grey, grey)
    }
}

/// The square of the distance of two colours.
pub fn squared_distance(a: (u8, u8, u8), b: (u8, u8, u8)) -> (d: u32)
    ensures
        d == distance(a, b),
        d <= 195075,
{
    let dr: u32 = gap(a.0, b.0);
    let dg: u32 = gap(a.1, b.1);
    let db: u32 = gap(a.2, b.2);
    assert(dr * dr <= 65025 && dg * dg <= 65025 && db * db <= 65025) by (nonlinear_arith)
        requires
            dr <= 255,
            dg <= 255,
            db <= 255,
    ;
    assert(dr * dr == (a.0 - b.0) * (a.0 - b.0)) by (nonlinear_arith)
        requires
            dr == a.0 - b.0 || dr == b.0 - a.0,
    ;
    assert(dg * dg == (a.1 - b.1) * (a.1 - b.1)) by (nonlinear_arith)
        requires
            dg == a.1 - b.1 || dg == b.1 - a.1,
    ;
    assert(db * db == (a.2 - b.2) * (a.2 - b.2)) by (nonlinear_arith)
        requires
            db == a.2 - b.2 || db == b.2 - a.2,
    ;
    dr * dr + dg * dg + db * db
}

/// How far two levels lie apart.
fn gap(a: u8, b: u8) -> (d: u32)
    ensures
        d == a - b || d == b - a,
        d <= 255,
{
    if a >= b {
        (a - b) as u32
    } else {
        (b - a) as u32
    }
}

impl TermColor {
    /// The colour of the palette that is nearest to the given colour. Where
    /// several are equally near, the one with the lowest index is taken.
    pub fn from(r: u8, g: u8, b: u8) -> (color: TermColor)
        ensures
            color.index == nearest_index((r, g, b)),
            color.rgb == palette(color.index as int),
    {
        let rgb: (u8, u8, u8) = (r, g, b);
        let mut best: u8 = 0;
        let mut least: u32 = squared_distance(rgb, palette_color(0));
        let mut k: u8 = 1;
        loop
            invariant_except_break
                1 <= k <= 255,
                rgb == (r, g, b),
                best == nearest_upto(rgb, k as int),
                0 <= best < k,
                least == distance(rgb, palette(best as int)),
            ensures
                best == nearest_upto(rgb, 256),
                rgb == (r, g, b),
            decreases 256 - k,
        {
            let d: u32 = squared_distance(rgb, palette_color(k));
            if d < least {
                least = d;
                best = k;
            }
            if k == 255 {
                break ;
            }
            k += 1;
        }
        TermColor { index: best, rgb: palette_color(best) }
    }
}

/// Among the first `k` colours of the palette, `nearest_upto` names one that
/// no other is nearer than, and the first of those.
pub proof fn lemma_nearest_upto(rgb: (u8, u8, u8), k: int)
    requires
        1 <= k,
    ensures
        0 <= nearest_upto(rgb, k) < k,
        forall|j: int|
            0 <= j < k ==> distance(rgb, palette(nearest_upto(rgb, k))) <= distance(
                rgb,
                #[trigger] palette(j),
            ),
        forall|j: int|
            0 <= j < nearest_upto(rgb, k) ==> distance(rgb, palette(nearest_upto(rgb, k)))
                < distance(rgb, #[trigger] palette(j)),
    decreases k,
{
    if k > 1 {
        lemma_nearest_upto(rgb, k - 1);
    }
}

/// The nearest colour of the palette is at least as near as every colour of
/// the palette, and nearer than every colour before it.
pub proof fn lemma_nearest_index(rgb: (u8, u8, u8))
    ensures
        nearest_index(rgb) == nearest_upto(rgb, 256),
        forall|j: int|
            0 <= j < 256 ==> distance(rgb, palette(nearest_index(rgb) as int)) <= distance(
                rgb,
                #[trigger] palette(j),
            ),
        forall|j: int|
            0 <= j < nearest_index(rgb) ==> distance(rgb, palette(nearest_index(rgb) as int))
                < distance(rgb, #[trigger] palette(j)),
{
    lemma_nearest_upto(rgb, 256);
}

} // verus!
