//! A 5x7 monochrome font for the printable ASCII characters, and the search
//! for the glyph that looks most like a sampled patch of an image.
//!
//! A glyph is a bitmap of 35 intensity samples, row by row, each 0 or 255. A
//! patch of an image has the same shape with samples anywhere in 0..=255. Two
//! measures rank the glyphs against a patch: the quadrance, which is smallest
//! for the best match, and the structural similarity, which is largest.
use crate::wide::Wide;
use vstd::prelude::*;

verus! {

/// The bitmaps of the characters `' '` to `'~'`, in code order.
///
/// Each glyph is five bytes, one for each column from left to right. In a
/// column byte, bit 0 is the top row and bit 6 the bottom row.
pub const ASCII_FONT: [[u8; 5]; 95] = [
    [0x00, 0x00, 0x00, 0x00, 0x00],
    [0x00, 0x00, 0x5F, 0x00, 0x00],
    [0x00, 0x07, 0x00, 0x07, 0x00],
    [0x14, 0x7F, 0x14, 0x7F, 0x14],
    [0x24, 0x2A, 0x7F, 0x2A, 0x12],
    [0x23, 0x13, 0x08, 0x64, 0x62],
    [0x36, 0x49, 0x55, 0x22, 0x50],
    [0x00, 0x05, 0x03, 0x00, 0x00],
    [0x00, 0x1C, 0x22, 0x41, 0x00],
    [0x00, 0x41, 0x22, 0x1C, 0x00],
    [0x08, 0x2A, 0x1C, 0x2A, 0x08],
    [0x08, 0x08, 0x3E, 0x08, 0x08],
    [0x00, 0x50, 0x30, 0x00, 0x00],
    [0x08, 0x08, 0x08, 0x08, 0x08],
    [0x00, 0x60, 0x60, 0x00, 0x00],
    [0x20, 0x10, 0x08, 0x04, 0x02],
    [0x3E, 0x51, 0x49, 0x45, 0x3E],
    [0x00, 0x42, 0x7F, 0x40, 0x00],
    [0x42, 0x61, 0x51, 0x49, 0x46],
    [0x21, 0x41, 0x45, 0x4B, 0x31],
    [0x18, 0x14, 0x12, 0x7F, 0x10],
    [0x27, 0x45, 0x45, 0x45, 0x39],
    [0x3C, 0x4A, 0x49, 0x49, 0x30],
    [0x01, 0x71, 0x09, 0x05, 0x03],
    [0x36, 0x49, 0x49, 0x49, 0x36],
    [0x06, 0x49, 0x49, 0x29, 0x1E],
    [0x00, 0x36, 0x36, 0x00, 0x00],
    [0x00, 0x56, 0x36, 0x00, 0x00],
    [0x00, 0x08, 0x14, 0x22, 0x41],
    [0x14, 0x14, 0x14, 0x14, 0x14],
    [0x41, 0x22, 0x14, 0x08, 0x00],
    [0x02, 0x01, 0x51, 0x09, 0x06],
    [0x32, 0x49, 0x79, 0x41, 0x3E],
    [0x7E, 0x11, 0x11, 0x11, 0x7E],
    [0x7F, 0x49, 0x49, 0x49, 0x36],
    [0x3E, 0x41, 0x41, 0x41, 0x22],
    [0x7F, 0x41, 0x41, 0x22, 0x1C],
    [0x7F, 0x49, 0x49, 0x49, 0x41],
    [0x7F, 0x09, 0x09, 0x01, 0x01],
    [0x3E, 0x41, 0x41, 0x51, 0x32],
    [0x7F, 0x08, 0x08, 0x08, 0x7F],
    [0x00, 0x41, 0x7F, 0x41, 0x00],
    [0x20, 0x40, 0x41, 0x3F, 0x01],
    [0x7F, 0x08, 0x14, 0x22, 0x41],
    [0x7F, 0x40, 0x40, 0x40, 0x40],
    [0x7F, 0x02, 0x04, 0x02, 0x7F],
    [0x7F, 0x04, 0x08, 0x10, 0x7F],
    [0x3E, 0x41, 0x41, 0x41, 0x3E],
    [0x7F, 0x09, 0x09, 0x09, 0x06],
    [0x3E, 0x41, 0x51, 0x21, 0x5E],
    [0x7F, 0x09, 0x19, 0x29, 0x46],
    [0x46, 0x49, 0x49, 0x49, 0x31],
    [0x01, 0x01, 0x7F, 0x01, 0x01],
    [0x3F, 0x40, 0x40, 0x40, 0x3F],
    [0x1F, 0x20, 0x40, 0x20, 0x1F],
    [0x7F, 0x20, 0x18, 0x20, 0x7F],
    [0x63, 0x14, 0x08, 0x14, 0x63],
    [0x03, 0x04, 0x78, 0x04, 0x03],
    [0x61, 0x51, 0x49, 0x45, 0x43],
    [0x00, 0x00, 0x7F, 0x41, 0x41],
    [0x02, 0x04, 0x08, 0x10, 0x20],
    [0x41, 0x41, 0x7F, 0x00, 0x00],
    [0x04, 0x02, 0x01, 0x02, 0x04],
    [0x40, 0x40, 0x40, 0x40, 0x40],
    [0x00, 0x01, 0x02, 0x04, 0x00],
    [0x20, 0x54, 0x54, 0x54, 0x78],
    [0x7F, 0x48, 0x44, 0x44, 0x38],
    [0x38, 0x44, 0x44, 0x44, 0x20],
    [0x38, 0x44, 0x44, 0x48, 0x7F],
    [0x38, 0x54, 0x54, 0x54, 0x18],
    [0x08, 0x7E, 0x09, 0x01, 0x02],
    [0x08, 0x14, 0x54, 0x54, 0x3C],
    [0x7F, 0x08, 0x04, 0x04, 0x78],
    [0x00, 0x44, 0x7D, 0x40, 0x00],
    [0x20, 0x40, 0x44, 0x3D, 0x00],
    [0x00, 0x7F, 0x10, 0x28, 0x44],
    [0x00, 0x41, 0x7F, 0x40, 0x00],
    [0x7C, 0x04, 0x18, 0x04, 0x78],
    [0x7C, 0x08, 0x04, 0x04, 0x78],
    [0x38, 0x44, 0x44, 0x44, 0x38],
    [0x7C, 0x14, 0x14, 0x14, 0x08],
    [0x08, 0x14, 0x14, 0x18, 0x7C],
    [0x7C, 0x08, 0x04, 0x04, 0x08],
    [0x48, 0x54, 0x54, 0x54, 0x20],
    [0x04, 0x3F, 0x44, 0x40, 0x20],
    [0x3C, 0x40, 0x40, 0x20, 0x7C],
    [0x1C, 0x20, 0x40, 0x20, 0x1C],
    [0x3C, 0x40, 0x30, 0x40, 0x3C],
    [0x44, 0x28, 0x10, 0x28, 0x44],
    [0x0C, 0x50, 0x50, 0x50, 0x3C],
    [0x44, 0x64, 0x54, 0x4C, 0x44],
    [0x00, 0x08, 0x36, 0x41, 0x00],
    [0x00, 0x00, 0x7F, 0x00, 0x00],
    [0x00, 0x41, 0x36, 0x08, 0x00],
    [0x08, 0x04, 0x08, 0x10, 0x08],
];

/// A character with its bitmap: 7 rows of 5 samples, row by row.
#[derive(Debug, PartialEq, Eq, PartialOrd, Ord, Clone, Copy)]
pub struct AsciiFont {
    pub ch: char,
    pub data: [u8; 35],
}

/// The value of a structural similarity, as an exact fraction.
///
/// It stands for `numerator() / denominator`; the similarity of two bitmaps is
/// never computed in rounded arithmetic.
#[derive(Debug, Clone, Copy)]
pub struct Ssim {
    /// Whether the fraction lies below zero.
    pub negative: bool,
    /// The absolute value of the numerator.
    pub magnitude: u128,
    pub denominator: u128,
}

/// Whether the font holds a bitmap for this character.
pub open spec fn is_printable(ch: char) -> bool {
    32 <= ch as u32 && ch as u32 <= 126
}

/// The character whose glyph stands for `ch`: itself where the font has it,
/// the space otherwise.
pub open spec fn glyph_char(ch: char) -> char {
    if is_printable(ch) {
        ch
    } else {
        ' '
    }
}

/// The sample in row `y` of a column byte: 255 where the bit is set.
pub open spec fn dot(column: u8, y: u8) -> u8 {
    if column & (1u8 << y) != 0 {
        255
    } else {
        0
    }
}

/// The bitmap of a printable character.
pub open spec fn glyph_data(ch: char) -> Seq<u8>
    recommends
        is_printable(ch),
{
    Seq::new(35, |i: int| dot(ASCII_FONT[ch as u32 - 32][i % 5], (i / 5) as u8))
}

/// The bitmap with no dot set.
pub open spec fn blank_data() -> Seq<u8> {
    Seq::new(35, |i: int| 0u8)
}

/// The sum of the squared differences of the first `k` samples.
pub open spec fn quadrance_upto(a: Seq<u8>, b: Seq<u8>, k: int) -> int
    decreases k,
{
    if k <= 0 {
        0
    } else {
        quadrance_upto(a, b, k - 1) + (a[k - 1] - b[k - 1]) * (a[k - 1] - b[k - 1])
    }
}

/// The quadrance of two bitmaps: the sum of the squared sample differences.
pub open spec fn quadrance(a: Seq<u8>, b: Seq<u8>) -> int {
    quadrance_upto(a, b, a.len() as int)
}

/// The sum of the first `k` samples.
pub open spec fn total_upto(a: Seq<u8>, k: int) -> int
    decreases k,
{
    if k <= 0 {
        0
    } else {
        total_upto(a, k - 1) + a[k - 1]
    }
}

/// The sum of all samples.
pub open spec fn total(a: Seq<u8>) -> int {
    total_upto(a, a.len() as int)
}

/// How far sample `i` lies from the mean of its bitmap, times the number of
/// samples.
pub open spec fn deviation(a: Seq<u8>, i: int) -> int {
    a.len() * a[i] - total(a)
}

/// The sum over the first `k` positions of the products of the deviations.
pub open spec fn codeviation_upto(x: Seq<u8>, y: Seq<u8>, k: int) -> int
    decreases k,
{
    if k <= 0 {
        0
    } else {
        codeviation_upto(x, y, k - 1) + deviation(x, k - 1) * deviation(y, k - 1)
    }
}

/// The sum of the products of the deviations of two bitmaps. With `n`
/// samples each it is `n * n * (n - 1)` times their sample covariance, and of
/// a bitmap with itself as many times its sample variance.
pub open spec fn codeviation(x: Seq<u8>, y: Seq<u8>) -> int {
    codeviation_upto(x, y, x.len() as int)
}

/// The numerator of the structural similarity of two 35-sample bitmaps.
///
/// The similarity is
/// `(2 mx my + c1) (2 cov + c2) / ((mx^2 + my^2 + c1) (vx + vy + c2))`
/// with the means `mx`, `my`, the sample variances `vx`, `vy`, the sample
/// covariance `cov`, and the constants `c1 = (255 / 100)^2` and
/// `c2 = (3 * 255 / 100)^2`. Numerator and denominator are both multiplied by
/// `16 * 35^2` in the first factor and by `8 * 35^2 * 34` in the second, which
/// makes every term a whole number: `16 * 35^2 * c1 = 127449` and
/// `8 * 35^2 * 34 * c2 = 19499697`.
pub open spec fn ssim_numerator(x: Seq<u8>, y: Seq<u8>) -> int {
    (32 * (total(x) * total(y)) + 127449) * (16 * codeviation(x, y) + 19499697)
}

/// The denominator of the structural similarity, scaled as the numerator is.
pub open spec fn ssim_denominator(x: Seq<u8>, y: Seq<u8>) -> int {
    (16 * (total(x) * total(x) + total(y) * total(y)) + 127449) * (8 * (codeviation(x, x)
        + codeviation(y, y)) + 19499697)
}

/// Whether `x` is more similar to `a` than to `b`: the two fractions compared
/// by cross-multiplication, their denominators being positive.
pub open spec fn more_similar(x: Seq<u8>, a: Seq<u8>, b: Seq<u8>) -> bool {
    ssim_numerator(x, a) * ssim_denominator(x, b) > ssim_numerator(x, b) * ssim_denominator(x, a)
}

/// The index of the first glyph among the first `k` of `set` whose quadrance
/// to `x` is smallest.
pub open spec fn quadrance_argmin(x: Seq<u8>, set: Seq<AsciiFont>, k: int) -> int
    decreases k,
{
    if k <= 1 {
        0
    } else {
        let best = quadrance_argmin(x, set, k - 1);
        if quadrance(x, set[k - 1].data@) < quadrance(x, set[best].data@) {
            k - 1
        } else {
            best
        }
    }
}

/// The index of the first glyph among the first `k` of `set` that is most
/// similar to `x`.
pub open spec fn ssim_argmax(x: Seq<u8>, set: Seq<AsciiFont>, k: int) -> int
    decreases k,
{
    if k <= 1 {
        0
    } else {
        let best = ssim_argmax(x, set, k - 1);
        if more_similar(x, set[k - 1].data@, set[best].data@) {
            k - 1
        } else {
            best
        }
    }
}

/// The character of the glyph of `set` nearest to `x` by quadrance, the first
/// of them where several are equally near; the space for an empty set.
pub open spec fn nearest_by_quadrance(x: Seq<u8>, set: Seq<AsciiFont>) -> char {
    if set.len() == 0 {
        ' '
    } else {
        set[quadrance_argmin(x, set, set.len() as int)].ch
    }
}

/// The character of the glyph of `set` most similar to `x`, the first of them
/// where several are equally similar; the space for an empty set.
pub open spec fn nearest_by_ssim(x: Seq<u8>, set: Seq<AsciiFont>) -> char {
    if set.len() == 0 {
        ' '
    } else {
        set[ssim_argmax(x, set, set.len() as int)].ch
    }
}

impl Default for AsciiFont {
    /// The space: no dot set.
    fn default() -> (font: Self)
        ensures
            font.ch == ' ',
            font.data@ == blank_data(),
    {
        let font = AsciiFont { data: [0u8; 35], ch: ' ' };
        assert(font.data@ =~= blank_data());
        font
    }
}

impl Ssim {
    /// The numerator with its sign.
    pub open spec fn numerator(&self) -> int {
        if self.negative {
            -(self.magnitude as int)
        } else {
            self.magnitude as int
        }
    }

    /// Whether this fraction is greater than the other, by
    /// cross-multiplication.
    pub fn exceeds(&self, other: &Ssim) -> (r: bool)
        ensures
            r == (self.numerator() * other.denominator > other.numerator() * self.denominator),
    {
        let left = Wide::product(self.magnitude, other.denominator);
        let right = Wide::product(other.magnitude, self.denominator);
        let zero = Wide::zero();
        proof {
            let a = self.magnitude as int;
            let b = other.denominator as int;
            let c = other.magnitude as int;
            let d = self.denominator as int;
            assert((-a) * b == -(a * b) && (-c) * d == -(c * d) && 0 <= a * b && 0 <= c * d)
                by (nonlinear_arith)
                requires
                    0 <= a,
                    0 <= b,
                    0 <= c,
                    0 <= d,
            ;
        }
        if self.negative {
            if other.negative {
                !right.at_most(&left)
            } else {
                false
            }
        } else {
            if other.negative {
                !left.at_most(&zero) || !right.at_most(&zero)
            } else {
                !left.at_most(&right)
            }
        }
    }
}

impl AsciiFont {
    /// The glyph of a character. A character that the font does not hold
    /// gets the glyph of the space.
    pub fn from(ch: char) -> (font: Self)
        ensures
            font.ch == glyph_char(ch),
            is_printable(ch) ==> font.data@ == glyph_data(ch),
            !is_printable(ch) ==> font.data@ == blank_data(),
    {
        let code: u32 = ch as u32;
        if code < 32 || code > 126 {
            return AsciiFont::default();
        }
        let ascii: [u8; 5] = ASCII_FONT[(code - 32) as usize];
        let mut data: [u8; 35] = [0u8; 35];
        let mut y: u8 = 0;
        while y < 7
            invariant
                y <= 7,
                is_printable(ch),
                ascii == ASCII_FONT[ch as u32 - 32],
                forall|i: int| 0 <= i < y * 5 ==> data@[i] == glyph_data(ch)[i],
            decreases 7 - y,
        {
            let mut x: usize = 0;
            while x < 5
                invariant
                    x <= 5,
                    y < 7,
                    is_printable(ch),
                    ascii == ASCII_FONT[ch as u32 - 32],
                    forall|i: int| 0 <= i < y * 5 + x ==> data@[i] == glyph_data(ch)[i],
                decreases 5 - x,
            {
                let p: u8 = if (ascii[x] & (1u8 << y)) != 0 {
                    255
                } else {
                    0
                };
                let index: usize = y as usize * 5 + x;
                assert(index as int % 5 == x && index as int / 5 == y);
                data[index] = p;
                x += 1;
            }
            y += 1;
        }
        assert(data@ =~= glyph_data(ch));
        AsciiFont { ch, data }
    }

    /// The quadrance of two bitmaps: 0 for equal ones, and at most
    /// `35 * 255 * 255`, which it is for a black bitmap and a white one.
    pub fn quadrance(&self, font: &AsciiFont) -> (q: u32)
        ensures
            q == quadrance(self.data@, font.data@),
            q <= 35 * 255 * 255,
    {
        let mut s: u32 = 0;
        let mut i: usize = 0;
        while i < 35
            invariant
                i <= 35,
                s == quadrance_upto(self.data@, font.data@, i as int),
                s <= i * 65025,
            decreases 35 - i,
        {
            let a: u8 = self.data[i];
            let b: u8 = font.data[i];
            let d: u32 = if a >= b {
                (a - b) as u32
            } else {
                (b - a) as u32
            };
            assert(d * d <= 65025) by (nonlinear_arith)
                requires
                    d <= 255,
            ;
            assert(d * d == (a - b) * (a - b)) by (nonlinear_arith)
                requires
                    d == a - b || d == b - a,
            ;
            s = s + d * d;
            i += 1;
        }
        s
    }

    /// The structural similarity of two bitmaps, as an exact fraction with a
    /// positive denominator.
    pub fn structural_similarity(&self, font: &AsciiFont) -> (r: Ssim)
        ensures
            r.numerator() == ssim_numerator(self.data@, font.data@),
            r.denominator == ssim_denominator(self.data@, font.data@),
            r.denominator > 0,
    {
        let ghost x = self.data@;
        let ghost y = font.data@;
        let mut sx: i128 = 0;
        let mut sy: i128 = 0;
        let mut i: usize = 0;
        while i < 35
            invariant
                i <= 35,
                x == self.data@,
                y == font.data@,
                sx == total_upto(x, i as int),
                sy == total_upto(y, i as int),
                0 <= sx <= i * 255,
                0 <= sy <= i * 255,
            decreases 35 - i,
        {
            sx = sx + self.data[i] as i128;
            sy = sy + font.data[i] as i128;
            i += 1;
        }
        let mut cxy: i128 = 0;
        let mut cxx: i128 = 0;
        let mut cyy: i128 = 0;
        i = 0;
        while i < 35
            invariant
                i <= 35,
                x == self.data@,
                y == font.data@,
                sx == total(x),
                sy == total(y),
                0 <= sx <= 8925,
                0 <= sy <= 8925,
                cxy == codeviation_upto(x, y, i as int),
                cxx == codeviation_upto(x, x, i as int),
                cyy == codeviation_upto(y, y, i as int),
                -(i * 79655625) <= cxy <= i * 79655625,
                0 <= cxx <= i * 79655625,
                0 <= cyy <= i * 79655625,
            decreases 35 - i,
        {
            let dx: i128 = 35 * (self.data[i] as i128) - sx;
            let dy: i128 = 35 * (font.data[i] as i128) - sy;
            assert(dx == deviation(x, i as int) && dy == deviation(y, i as int));
            assert(-79655625 <= dx * dy <= 79655625 && 0 <= dx * dx <= 79655625 && 0 <= dy * dy
                <= 79655625) by (nonlinear_arith)
                requires
                    -8925 <= dx <= 8925,
                    -8925 <= dy <= 8925,
            ;
            cxy = cxy + dx * dy;
            cxx = cxx + dx * dx;
            cyy = cyy + dy * dy;
            i += 1;
        }
        assert(0 <= sx * sy <= 79655625 && 0 <= sx * sx <= 79655625 && 0 <= sy * sy <= 79655625)
            by (nonlinear_arith)
            requires
                0 <= sx <= 8925,
                0 <= sy <= 8925,
        ;
        let luma_top: i128 = 32 * (sx * sy) + 127449;
        let luma_bottom: i128 = 16 * (sx * sx + sy * sy) + 127449;
        let shape_top: i128 = 16 * cxy + 19499697;
        let shape_bottom: i128 = 8 * (cxx + cyy) + 19499697;
        let negative: bool = shape_top < 0;
        let shape_size: i128 = if negative {
            -shape_top
        } else {
            shape_top
        };
        assert(0 <= luma_top * shape_size <= 3000000000 * 50000000000 && 0 < luma_bottom
            * shape_bottom <= 3000000000 * 50000000000) by (nonlinear_arith)
            requires
                0 < luma_top <= 3000000000,
                0 < luma_bottom <= 3000000000,
                0 <= shape_size <= 50000000000,
                0 < shape_bottom <= 50000000000,
        ;
        assert(negative ==> luma_top * shape_top == -(luma_top * shape_size))
            by (nonlinear_arith)
            requires
                negative ==> shape_size == -shape_top,
        ;
        Ssim {
            negative,
            magnitude: (luma_top * shape_size) as u128,
            denominator: (luma_bottom * shape_bottom) as u128,
        }
    }
}

/// The character of the glyph of `font_set` that is nearest to `font1` by
/// quadrance. Of several equally near glyphs the first in the set is taken;
/// an empty set gives the space.
pub fn minimize_quadrance(font1: &AsciiFont, font_set: &Vec<AsciiFont>) -> (ch: char)
    ensures
        ch == nearest_by_quadrance(font1.data@, font_set@),
{
    if font_set.len() == 0 {
        return ' ';
    }
    let mut best: usize = 0;
    let mut min: u32 = font1.quadrance(&font_set[0]);
    let mut k: usize = 1;
    while k < font_set.len()
        invariant
            1 <= k <= font_set.len(),
            best == quadrance_argmin(font1.data@, font_set@, k as int),
            0 <= best < k,
            min == quadrance(font1.data@, font_set@[best as int].data@),
        decreases font_set.len() - k,
    {
        let q: u32 = font1.quadrance(&font_set[k]);
        if q < min {
            min = q;
            best = k;
        }
        k += 1;
    }
    font_set[best].ch
}

/// The character of the glyph of `font_set` that is most similar to `font1`
/// in structure. Of several equally similar glyphs the first in the set is
/// taken; an empty set gives the space.
pub fn maximize_structural_similarity(font1: &AsciiFont, font_set: &Vec<AsciiFont>) -> (ch: char)
    ensures
        ch == nearest_by_ssim(font1.data@, font_set@),
{
    if font_set.len() == 0 {
        return ' ';
    }
    let mut best: usize = 0;
    let mut max: Ssim = font1.structural_similarity(&font_set[0]);
    let mut k: usize = 1;
    while k < font_set.len()
        invariant
            1 <= k <= font_set.len(),
            best == ssim_argmax(font1.data@, font_set@, k as int),
            0 <= best < k,
            max.numerator() == ssim_numerator(font1.data@, font_set@[best as int].data@),
            max.denominator == ssim_denominator(font1.data@, font_set@[best as int].data@),
        decreases font_set.len() - k,
    {
        let ssim: Ssim = font1.structural_similarity(&font_set[k]);
        if ssim.exceeds(&max) {
            max = ssim;
            best = k;
        }
        k += 1;
    }
    font_set[best].ch
}

/// The place in the font of the glyph that stands for `ch`.
pub open spec fn glyph_slot(ch: char) -> int {
    glyph_char(ch) as u32 - 32
}

/// Whether one of the characters of `chars` is drawn with the glyph of `c`.
pub open spec fn draws(chars: Seq<char>, c: char) -> bool {
    exists|j: int| 0 <= j < chars.len() && glyph_char(#[trigger] chars[j]) == c
}

/// Whether `set` holds the glyph of `c`.
pub open spec fn has_glyph(set: Seq<AsciiFont>, c: char) -> bool {
    exists|i: int| 0 <= i < set.len() && (#[trigger] set[i]).ch == c
}

/// Whether `set` is the set of candidate glyphs for the characters `chars`:
/// the glyph of each of them once, in the order of the character codes.
pub open spec fn is_font_set(set: Seq<AsciiFont>, chars: Seq<char>) -> bool {
    &&& forall|i: int|
        0 <= i < set.len() ==> is_printable(#[trigger] set[i].ch) && set[i].data@ == glyph_data(
            set[i].ch,
        )
    &&& forall|i: int, j: int|
        0 <= i < j < set.len() ==> (#[trigger] set[i].ch as u32) < (#[trigger] set[j].ch as u32)
    &&& forall|k: int| 0 <= k < chars.len() ==> has_glyph(set, glyph_char(#[trigger] chars[k]))
    &&& forall|i: int| 0 <= i < set.len() ==> draws(chars, #[trigger] set[i].ch)
}

/// The set of candidate glyphs for the characters `chars`.
pub open spec fn glyphs_of(chars: Seq<char>) -> Seq<AsciiFont> {
    choose|set: Seq<AsciiFont>| is_font_set(set, chars)
}

/// Whether one of the first `k` characters of `chars` is drawn with the glyph
/// in place `slot` of the font.
spec fn marks_upto(chars: Seq<char>, k: int, slot: int) -> bool {
    exists|j: int| 0 <= j < k && glyph_slot(#[trigger] chars[j]) == slot
}

/// Whether `set` holds the glyph in place `slot` of the font.
spec fn holds_slot(set: Seq<AsciiFont>, slot: int) -> bool {
    exists|i: int| 0 <= i < set.len() && (#[trigger] set[i]).ch as u32 - 32 == slot
}

/// The candidate glyphs for a string of characters: the glyph of each
/// character once, in the order of the character codes. A character that the
/// font does not hold counts as a space.
pub fn font_set(char_set: &str) -> (set: Vec<AsciiFont>)
    ensures
        is_font_set(set@, char_set@),
        set@ == glyphs_of(char_set@),
{
    let n: usize = char_set.unicode_len();
    let mut seen: [bool; 95] = [false; 95];
    let mut k: usize = 0;
    while k < n
        invariant
            k <= n,
            n == char_set@.len(),
            forall|slot: int|
                0 <= slot < 95 ==> (#[trigger] seen@[slot] <==> marks_upto(
                    char_set@,
                    k as int,
                    slot,
                )),
        decreases n - k,
    {
        let ch: char = char_set.get_char(k);
        let code: u32 = ch as u32;
        let place: usize = if 32 <= code && code <= 126 {
            (code - 32) as usize
        } else {
            0
        };
        let ghost before = seen@;
        seen[place] = true;
        proof {
            assert(glyph_slot(char_set@[k as int]) == place);
            assert forall|slot: int| 0 <= slot < 95 implies (#[trigger] seen@[slot] <==> marks_upto(
                char_set@,
                k + 1,
                slot,
            )) by {
                if slot != place {
                    assert(seen@[slot] == before[slot]);
                    if marks_upto(char_set@, k + 1, slot) {
                        let j = choose|j: int|
                            0 <= j < k + 1 && glyph_slot(#[trigger] char_set@[j]) == slot;
                        assert(j < k);
                    }
                    if marks_upto(char_set@, k as int, slot) {
                        let j = choose|j: int|
                            0 <= j < k && glyph_slot(#[trigger] char_set@[j]) == slot;
                        assert(0 <= j < k + 1);
                    }
                }
            }
        }
        k += 1;
    }
    let mut set: Vec<AsciiFont> = Vec::new();
    let mut code: u8 = 32;
    while code < 127
        invariant
            32 <= code <= 127,
            forall|i: int|
                0 <= i < set.len() ==> is_printable(#[trigger] set[i].ch) && set[i].data@
                    == glyph_data(set[i].ch) && (set[i].ch as u32) < code,
            forall|i: int, j: int|
                0 <= i < j < set.len() ==> (#[trigger] set[i].ch as u32) < (
                #[trigger] set[j].ch as u32),
            forall|slot: int|
                0 <= slot < code - 32 ==> (#[trigger] seen@[slot] <==> holds_slot(set@, slot)),
        decreases 127 - code,
    {
        let ch: char = code as char;
        let ghost before = set@;
        if seen[(code - 32) as usize] {
            let font = AsciiFont::from(ch);
            set.push(font);
            assert(set@[set.len() - 1].ch == ch);
        }
        proof {
            assert forall|slot: int| 0 <= slot < code + 1 - 32 implies (#[trigger] seen@[slot]
                <==> holds_slot(set@, slot)) by {
                if holds_slot(before, slot) {
                    let i = choose|i: int|
                        0 <= i < before.len() && (#[trigger] before[i]).ch as u32 - 32 == slot;
                    assert(set@[i].ch as u32 - 32 == slot);
                }
                if holds_slot(set@, slot) && slot != code - 32 {
                    let i = choose|i: int|
                        0 <= i < set.len() && (#[trigger] set@[i]).ch as u32 - 32 == slot;
                    assert(before[i].ch as u32 - 32 == slot);
                }
                if slot == code - 32 && holds_slot(set@, slot) && !seen@[slot] {
                    let i = choose|i: int|
                        0 <= i < set.len() && (#[trigger] set@[i]).ch as u32 - 32 == slot;
                    assert((before[i].ch as u32) < code);
                }
            }
        }
        code += 1;
    }
    proof {
        assert forall|k: int| 0 <= k < char_set@.len() implies has_glyph(
            set@,
            glyph_char(#[trigger] char_set@[k]),
        ) by {
            let slot = glyph_slot(char_set@[k]);
            assert(marks_upto(char_set@, n as int, slot));
            assert(seen@[slot]);
            let i = choose|i: int|
                0 <= i < set.len() && (#[trigger] set@[i]).ch as u32 - 32 == slot;
            assert(set@[i].ch == glyph_char(char_set@[k]));
        }
        assert forall|i: int| 0 <= i < set.len() implies draws(char_set@, #[trigger] set[i].ch) by {
            let slot = set[i].ch as u32 - 32;
            assert(holds_slot(set@, slot));
            assert(seen@[slot]);
            let j = choose|j: int| 0 <= j < n && glyph_slot(#[trigger] char_set@[j]) == slot;
            assert(glyph_char(char_set@[j]) == set[i].ch);
        }
        assert(is_font_set(set@, char_set@));
        lemma_font_set_unique(set@, glyphs_of(char_set@), char_set@);
    }
    set
}

/// A string of characters has one set of candidate glyphs, and no other.
pub proof fn lemma_font_set_unique(a: Seq<AsciiFont>, b: Seq<AsciiFont>, chars: Seq<char>)
    requires
        is_font_set(a, chars),
        is_font_set(b, chars),
    ensures
        a == b,
{
    let n = if a.len() <= b.len() {
        a.len() as int
    } else {
        b.len() as int
    };
    lemma_font_set_prefix(a, b, chars, n);
    if a.len() < b.len() {
        let j = lemma_font_set_member(b, a, chars, n);
        assert(a[j].ch == b[j].ch);
        assert((b[j].ch as u32) < b[n].ch as u32);
    }
    if b.len() < a.len() {
        let j = lemma_font_set_member(a, b, chars, n);
        assert(a[j].ch == b[j].ch);
        assert((a[j].ch as u32) < a[n].ch as u32);
    }
    assert forall|i: int| 0 <= i < a.len() implies a[i] == b[i] by {
        assert(a[i].ch == b[i].ch);
        assert(is_printable(a[i].ch) && is_printable(b[i].ch));
        assert(a[i].data@ == b[i].data@);
        assert(a[i].data =~= b[i].data);
    }
    assert(a =~= b);
}

/// The glyph in place `i` of one set of candidates lies in every other set
/// for the same characters.
proof fn lemma_font_set_member(
    a: Seq<AsciiFont>,
    b: Seq<AsciiFont>,
    chars: Seq<char>,
    i: int,
) -> (j: int)
    requires
        is_font_set(a, chars),
        is_font_set(b, chars),
        0 <= i < a.len(),
    ensures
        0 <= j < b.len(),
        b[j].ch == a[i].ch,
{
    assert(draws(chars, a[i].ch));
    let k = choose|k: int| 0 <= k < chars.len() && glyph_char(#[trigger] chars[k]) == a[i].ch;
    assert(has_glyph(b, glyph_char(chars[k])));
    choose|j: int| 0 <= j < b.len() && (#[trigger] b[j]).ch == a[i].ch
}

/// Two sets of candidates for the same characters hold the same characters
/// in their first `n` places.
proof fn lemma_font_set_prefix(a: Seq<AsciiFont>, b: Seq<AsciiFont>, chars: Seq<char>, n: int)
    requires
        is_font_set(a, chars),
        is_font_set(b, chars),
        0 <= n <= a.len(),
        n <= b.len(),
    ensures
        forall|i: int| 0 <= i < n ==> (#[trigger] a[i]).ch == b[i].ch,
    decreases n,
{
    if n > 0 {
        lemma_font_set_prefix(a, b, chars, n - 1);
        let i = n - 1;
        let j = lemma_font_set_member(a, b, chars, i);
        if j < i {
            assert(a[j].ch == b[j].ch);
            assert((a[j].ch as u32) < a[i].ch as u32);
        }
        if j > i {
            assert((b[i].ch as u32) < b[j].ch as u32);
        }
        let m = lemma_font_set_member(b, a, chars, i);
        if m < i {
            assert(a[m].ch == b[m].ch);
            assert((b[m].ch as u32) < b[i].ch as u32);
        }
        if m > i {
            assert((a[i].ch as u32) < a[m].ch as u32);
        }
        assert(a[i].ch as u32 == b[i].ch as u32);
    }
}

/// A bitmap has quadrance 0 to itself.
pub proof fn lemma_quadrance_self(a: Seq<u8>)
    ensures
        quadrance(a, a) == 0,
{
    lemma_quadrance_upto_self(a, a.len() as int);
}

proof fn lemma_quadrance_upto_self(a: Seq<u8>, k: int)
    ensures
        quadrance_upto(a, a, k) == 0,
    decreases k,
{
    if k > 0 {
        lemma_quadrance_upto_self(a, k - 1);
    }
}

/// The quadrance of two bitmaps does not depend on their order.
pub proof fn lemma_quadrance_symmetric(a: Seq<u8>, b: Seq<u8>)
    requires
        a.len() == b.len(),
    ensures
        quadrance(a, b) == quadrance(b, a),
{
    lemma_quadrance_upto_symmetric(a, b, a.len() as int);
}

proof fn lemma_quadrance_upto_symmetric(a: Seq<u8>, b: Seq<u8>, k: int)
    ensures
        quadrance_upto(a, b, k) == quadrance_upto(b, a, k),
    decreases k,
{
    if k > 0 {
        lemma_quadrance_upto_symmetric(a, b, k - 1);
        let d = a[k - 1] - b[k - 1];
        let e = b[k - 1] - a[k - 1];
        assert(d * d == e * e) by (nonlinear_arith)
            requires
                e == -d,
        ;
    }
}

/// The quadrance of two bitmaps of one size is 0 exactly when they are equal,
/// and positive otherwise.
pub proof fn lemma_quadrance_positive(a: Seq<u8>, b: Seq<u8>)
    requires
        a.len() == b.len(),
    ensures
        quadrance(a, b) >= 0,
        a != b ==> quadrance(a, b) > 0,
        a == b ==> quadrance(a, b) == 0,
{
    lemma_quadrance_upto_bounds(a, b, a.len() as int);
    if a == b {
        lemma_quadrance_self(a);
    } else {
        if forall|i: int| 0 <= i < a.len() ==> a[i] == b[i] {
            assert(a =~= b);
        }
        let i = choose|i: int| 0 <= i < a.len() && a[i] != b[i];
        lemma_quadrance_upto_differs(a, b, a.len() as int, i);
    }
}

proof fn lemma_quadrance_upto_bounds(a: Seq<u8>, b: Seq<u8>, k: int)
    ensures
        quadrance_upto(a, b, k) >= 0,
    decreases k,
{
    if k > 0 {
        lemma_quadrance_upto_bounds(a, b, k - 1);
        let d = a[k - 1] - b[k - 1];
        assert(d * d >= 0) by (nonlinear_arith);
    }
}

proof fn lemma_quadrance_upto_differs(a: Seq<u8>, b: Seq<u8>, k: int, i: int)
    requires
        0 <= i < k,
        a[i] != b[i],
    ensures
        quadrance_upto(a, b, k) > 0,
    decreases k,
{
    lemma_quadrance_upto_bounds(a, b, k - 1);
    let d = a[k - 1] - b[k - 1];
    assert(d * d >= 0) by (nonlinear_arith);
    if i == k - 1 {
        assert(d * d > 0) by (nonlinear_arith)
            requires
                d != 0,
        ;
    } else {
        lemma_quadrance_upto_differs(a, b, k - 1, i);
    }
}

/// The denominator of a structural similarity is positive.
pub proof fn lemma_ssim_denominator_positive(x: Seq<u8>, y: Seq<u8>)
    ensures
        ssim_denominator(x, y) > 0,
{
    lemma_codeviation_self(x, x.len() as int);
    lemma_codeviation_self(y, y.len() as int);
    let sx = total(x);
    let sy = total(y);
    let left = 16 * (sx * sx + sy * sy) + 127449;
    let right = 8 * (codeviation(x, x) + codeviation(y, y)) + 19499697;
    assert(sx * sx >= 0 && sy * sy >= 0) by (nonlinear_arith);
    assert(left * right > 0) by (nonlinear_arith)
        requires
            left > 0,
            right > 0,
    ;
}

proof fn lemma_codeviation_self(x: Seq<u8>, k: int)
    ensures
        codeviation_upto(x, x, k) >= 0,
    decreases k,
{
    if k > 0 {
        lemma_codeviation_self(x, k - 1);
        let d = deviation(x, k - 1);
        assert(d * d >= 0) by (nonlinear_arith);
    }
}

/// A bitmap has structural similarity 1 to itself: numerator and denominator
/// are the same positive number.
pub proof fn lemma_ssim_self(a: Seq<u8>)
    ensures
        ssim_numerator(a, a) == ssim_denominator(a, a),
        ssim_denominator(a, a) > 0,
{
    lemma_ssim_denominator_positive(a, a);
}

/// Among the first `k` glyphs of a set, `quadrance_argmin` names one that no
/// other is nearer than, and the first of those.
pub proof fn lemma_quadrance_argmin(x: Seq<u8>, set: Seq<AsciiFont>, k: int)
    requires
        1 <= k <= set.len(),
    ensures
        0 <= quadrance_argmin(x, set, k) < k,
        forall|j: int|
            0 <= j < k ==> quadrance(x, set[quadrance_argmin(x, set, k)].data@) <= quadrance(
                x,
                #[trigger] set[j].data@,
            ),
        forall|j: int|
            0 <= j < quadrance_argmin(x, set, k) ==> quadrance(
                x,
                set[quadrance_argmin(x, set, k)].data@,
            ) < quadrance(x, #[trigger] set[j].data@),
    decreases k,
{
    if k > 1 {
        lemma_quadrance_argmin(x, set, k - 1);
    }
}

/// Among the first `k` glyphs of a set, `ssim_argmax` names one that no other
/// is more similar than, and the first of those.
pub proof fn lemma_ssim_argmax(x: Seq<u8>, set: Seq<AsciiFont>, k: int)
    requires
        1 <= k <= set.len(),
    ensures
        0 <= ssim_argmax(x, set, k) < k,
        forall|j: int|
            0 <= j < k ==> !more_similar(
                x,
                #[trigger] set[j].data@,
                set[ssim_argmax(x, set, k)].data@,
            ),
        forall|j: int|
            0 <= j < ssim_argmax(x, set, k) ==> more_similar(
                x,
                set[ssim_argmax(x, set, k)].data@,
                #[trigger] set[j].data@,
            ),
    decreases k,
{
    if k > 1 {
        lemma_ssim_argmax(x, set, k - 1);
        let before = ssim_argmax(x, set, k - 1);
        let last = set[k - 1].data@;
        let best = set[before].data@;
        if more_similar(x, last, best) {
            assert forall|j: int| 0 <= j < k implies !more_similar(
                x,
                #[trigger] set[j].data@,
                last,
            ) by {
                if j < k - 1 {
                    lemma_similarity_order(x, set[j].data@, best, last);
                }
            }
            assert forall|j: int| 0 <= j < k - 1 implies more_similar(
                x,
                last,
                #[trigger] set[j].data@,
            ) by {
                lemma_similarity_order(x, set[j].data@, best, last);
            }
        }
    }
}

/// Where `high` is more similar to `x` than `mid`, and `low` is not more
/// similar than `mid`, `high` is more similar than `low`.
proof fn lemma_similarity_order(x: Seq<u8>, low: Seq<u8>, mid: Seq<u8>, high: Seq<u8>)
    requires
        more_similar(x, high, mid),
        !more_similar(x, low, mid),
    ensures
        more_similar(x, high, low),
        !more_similar(x, low, high),
{
    lemma_ssim_denominator_positive(x, low);
    lemma_ssim_denominator_positive(x, mid);
    lemma_ssim_denominator_positive(x, high);
    let a = ssim_numerator(x, high);
    let b = ssim_denominator(x, high);
    let c = ssim_numerator(x, mid);
    let d = ssim_denominator(x, mid);
    let e = ssim_numerator(x, low);
    let f = ssim_denominator(x, low);
    assert(a * f > e * b) by (nonlinear_arith)
        requires
            a * d > c * b,
            e * d <= c * f,
            b > 0,
            d > 0,
            f > 0,
    ;
}

/// The five column bytes of the glyph in place `i` of the font, as one
/// number.
spec fn glyph_key(i: int) -> int {
    ASCII_FONT[i][0] + 256 * (ASCII_FONT[i][1] + 256 * (ASCII_FONT[i][2] + 256 * (ASCII_FONT[i][3]
        + 256 * ASCII_FONT[i][4])))
}

/// No two places of the font hold the same column bytes.
proof fn lemma_font_distinct(i: int, j: int)
    requires
        0 <= i < j < 95,
    ensures
        glyph_key(i) != glyph_key(j),
{
}

/// No column byte of the font has a bit set below the seventh row.
proof fn lemma_font_columns(i: int, x: int)
    requires
        0 <= i < 95,
        0 <= x < 5,
    ensures
        ASCII_FONT[i][x] < 128,
{
}

/// Two column bytes with the same seven dots are the same.
proof fn lemma_column_by_dots(a: u8, b: u8)
    requires
        a < 128,
        b < 128,
        forall|y: u8| y < 7 ==> #[trigger] dot(a, y) == dot(b, y),
    ensures
        a == b,
{
    assert(dot(a, 0) == dot(b, 0));
    assert(dot(a, 1) == dot(b, 1));
    assert(dot(a, 2) == dot(b, 2));
    assert(dot(a, 3) == dot(b, 3));
    assert(dot(a, 4) == dot(b, 4));
    assert(dot(a, 5) == dot(b, 5));
    assert(dot(a, 6) == dot(b, 6));
    assert(a == b) by (bit_vector)
        requires
            a < 128,
            b < 128,
            (a & (1u8 << 0u8) != 0) == (b & (1u8 << 0u8) != 0),
            (a & (1u8 << 1u8) != 0) == (b & (1u8 << 1u8) != 0),
            (a & (1u8 << 2u8) != 0) == (b & (1u8 << 2u8) != 0),
            (a & (1u8 << 3u8) != 0) == (b & (1u8 << 3u8) != 0),
            (a & (1u8 << 4u8) != 0) == (b & (1u8 << 4u8) != 0),
            (a & (1u8 << 5u8) != 0) == (b & (1u8 << 5u8) != 0),
            (a & (1u8 << 6u8) != 0) == (b & (1u8 << 6u8) != 0),
    ;
}

/// The glyphs of two different characters of the font differ, and their
/// quadrance is positive.
pub proof fn lemma_glyphs_differ(a: char, b: char)
    requires
        is_printable(a),
        is_printable(b),
        a != b,
    ensures
        glyph_data(a) != glyph_data(b),
        quadrance(glyph_data(a), glyph_data(b)) > 0,
{
    let i = a as u32 - 32;
    let j = b as u32 - 32;
    if i < j {
        lemma_font_distinct(i, j);
    } else {
        lemma_font_distinct(j, i);
    }
    if glyph_data(a) == glyph_data(b) {
        assert forall|x: int| 0 <= x < 5 implies #[trigger] ASCII_FONT[i][x]
            == ASCII_FONT[j][x] by {
            lemma_font_columns(i, x);
            lemma_font_columns(j, x);
            assert forall|y: u8| y < 7 implies #[trigger] dot(ASCII_FONT[i][x], y) == dot(
                ASCII_FONT[j][x],
                y,
            ) by {
                let k = y * 5 + x;
                assert(k % 5 == x && k / 5 == y as int);
                assert(glyph_data(a)[k] == dot(ASCII_FONT[i][x], y));
                assert(glyph_data(b)[k] == dot(ASCII_FONT[j][x], y));
            }
            lemma_column_by_dots(ASCII_FONT[i][x], ASCII_FONT[j][x]);
        }
        assert(glyph_key(i) == glyph_key(j));
    }
    lemma_quadrance_positive(glyph_data(a), glyph_data(b));
}

/// The sum of the samples of a bitmap is not negative.
proof fn lemma_total_upto(a: Seq<u8>, k: int)
    ensures
        total_upto(a, k) >= 0,
    decreases k,
{
    if k > 0 {
        lemma_total_upto(a, k - 1);
    }
}

/// Twice the codeviation of two bitmaps lies between the sum of their own
/// codeviations and its negative.
proof fn lemma_codeviation_bounds(x: Seq<u8>, y: Seq<u8>, k: int)
    ensures
        2 * codeviation_upto(x, y, k) <= codeviation_upto(x, x, k) + codeviation_upto(y, y, k),
        -2 * codeviation_upto(x, y, k) <= codeviation_upto(x, x, k) + codeviation_upto(y, y, k),
    decreases k,
{
    if k > 0 {
        lemma_codeviation_bounds(x, y, k - 1);
        let a = deviation(x, k - 1);
        let b = deviation(y, k - 1);
        assert(2 * (a * b) <= a * a + b * b && -2 * (a * b) <= a * a + b * b)
            by (nonlinear_arith);
    }
}

/// The structural similarity of two bitmaps of one size lies above -1 and
/// not above 1: the numerator lies above the negative of the denominator,
/// and not above the denominator.
pub proof fn lemma_ssim_range(x: Seq<u8>, y: Seq<u8>)
    requires
        x.len() == y.len(),
    ensures
        -ssim_denominator(x, y) < ssim_numerator(x, y) <= ssim_denominator(x, y),
{
    lemma_total_upto(x, x.len() as int);
    lemma_total_upto(y, y.len() as int);
    lemma_codeviation_bounds(x, y, x.len() as int);
    lemma_codeviation_self(x, x.len() as int);
    lemma_codeviation_self(y, y.len() as int);
    let sx = total(x);
    let sy = total(y);
    let luma_top = 32 * (sx * sy) + 127449;
    let luma_bottom = 16 * (sx * sx + sy * sy) + 127449;
    let shape_top = 16 * codeviation(x, y) + 19499697;
    let shape_bottom = 8 * (codeviation(x, x) + codeviation(y, y)) + 19499697;
    assert(0 <= sx * sy && 2 * (sx * sy) <= sx * sx + sy * sy) by (nonlinear_arith)
        requires
            0 <= sx,
            0 <= sy,
    ;
    assert(-(luma_bottom * shape_bottom) < luma_top * shape_top <= luma_bottom * shape_bottom)
        by (nonlinear_arith)
        requires
            0 < luma_top <= luma_bottom,
            -shape_bottom < shape_top <= shape_bottom,
    ;
}

/// The best match depends on nothing but the characters and the bitmaps of
/// the candidates in their order: the same candidates in the same order give
/// the same character.
pub proof fn lemma_nearest_determined(x: Seq<u8>, a: Seq<AsciiFont>, b: Seq<AsciiFont>)
    requires
        a.len() == b.len(),
        forall|i: int|
            0 <= i < a.len() ==> (#[trigger] a[i]).ch == b[i].ch && a[i].data@ == b[i].data@,
    ensures
        nearest_by_quadrance(x, a) == nearest_by_quadrance(x, b),
        nearest_by_ssim(x, a) == nearest_by_ssim(x, b),
{
    assert forall|i: int| 0 <= i < a.len() implies a[i] == b[i] by {
        assert(a[i].ch == b[i].ch);
        assert(a[i].data =~= b[i].data);
    }
    assert(a =~= b);
}

} // verus!
