//! Helpers that every way of drawing shares: the size of the output for a
//! requested size and an image, and the colour of a terminal for a colour of
//! the image.
//!
//! A requested width or height of 0 stands for "as the image's proportions
//! give it".
use crate::ansi::Color;
use crate::terminal_colors::{nearest_index, TermColor};
use vstd::prelude::*;

verus! {

/// `length * wanted / along` in whole numbers, which is the length that keeps
/// the proportion `length : along` beside a side of `wanted`. The quotient is
/// cut off at the largest `u32`. An image without extent along the divisor
/// gives the largest `u32` where the product is positive and 0 where it is
/// not.
pub open spec fn in_proportion(length: u32, wanted: u32, along: u32) -> u32 {
    if along == 0 {
        if length * wanted > 0 {
            u32::MAX
        } else {
            0
        }
    } else if length * wanted / (along as int) > u32::MAX {
        u32::MAX
    } else {
        (length * wanted / (along as int)) as u32
    }
}

/// The size of the output for an image of the size `old_dimensions` and the
/// requested size `new_dimensions`.
pub open spec fn actual_size(old_dimensions: (u32, u32), new_dimensions: (u32, u32)) -> (
    u32,
    u32,
) {
    if new_dimensions.0 == 0 && new_dimensions.1 == 0 {
        old_dimensions
    } else if new_dimensions.0 == 0 {
        (in_proportion(old_dimensions.0, new_dimensions.1, old_dimensions.1), new_dimensions.1)
    } else if new_dimensions.1 == 0 {
        (new_dimensions.0, in_proportion(old_dimensions.1, new_dimensions.0, old_dimensions.0))
    } else {
        new_dimensions
    }
}

/// The length that keeps the proportion `length : along` beside a side of
/// `wanted`.
fn proportional(length: u32, wanted: u32, along: u32) -> (r: u32)
    ensures
        r == in_proportion(length, wanted, along),
{
    assert(0 <= length * wanted <= 0xFFFF_FFFE_0000_0001) by (nonlinear_arith)
        requires
            0 <= length <= 0xFFFF_FFFF,
            0 <= wanted <= 0xFFFF_FFFF,
    ;
    let product: u64 = length as u64 * wanted as u64;
    if along == 0 {
        if product > 0 {
            u32::MAX
        } else {
            0
        }
    } else {
        let quotient: u64 = product / along as u64;
        if quotient > u32::MAX as u64 {
            u32::MAX
        } else {
            quotient as u32
        }
    }
}

/// The size of the output, keeping the proportions of the image where the
/// request leaves a side open.
///
/// * `(0, 0)` asks for the size of the image.
/// * `(0, h)` asks for the height `h` and the width in proportion.
/// * `(w, 0)` asks for the width `w` and the height in proportion.
/// * `(w, h)` asks for exactly that size.
pub fn get_actual_size(old_dimensions: (u32, u32), new_dimensions: (u32, u32)) -> (r: (u32, u32))
    ensures
        r == actual_size(old_dimensions, new_dimensions),
        new_dimensions.0 != 0 && new_dimensions.1 != 0 ==> r == new_dimensions,
        new_dimensions == (0u32, 0u32) ==> r == old_dimensions,
{
    let (img_w, img_h) = old_dimensions;
    let (new_width, new_height) = new_dimensions;
    if new_width == 0 && new_height == 0 {
        (img_w, img_h)
    } else if new_width == 0 {
        (proportional(img_w, new_height, img_h), new_height)
    } else if new_height == 0 {
        (new_width, proportional(img_h, new_width, img_w))
    } else {
        (new_width, new_height)
    }
}

/// The colour of the terminal's palette that is nearest to the given colour.
pub fn termcolor(r: u8, g: u8, b: u8) -> (color: Color)
    ensures
        color == Color::Fixed(nearest_index((r, g, b))),
{
    let tcolor: u8 = TermColor::from(r, g, b).index;
    Color::Fixed(tcolor)
}

/// The given colour, as a terminal shows it with 24 bits.
pub fn rgbcolor(r: u8, g: u8, b: u8) -> (color: Color)
    ensures
        color == Color::RGB(r, g, b),
{
    Color::RGB(r, g, b)
}

/// The size of the output has a side that is not 0, unless nothing was asked
/// for and the image has no extent at all.
pub proof fn lemma_actual_size_not_empty(old_dimensions: (u32, u32), new_dimensions: (u32, u32))
    ensures
        actual_size(old_dimensions, new_dimensions) == (0u32, 0u32) <==> old_dimensions == (
            0u32,
            0u32,
        ) && new_dimensions == (0u32, 0u32),
{
}

} // verus!
