//! Getting an image ready to be drawn: brightness, inversion, grey levels and
//! size.
use crate::ansi::FilterType;
use crate::image_buffer::{lemma_area_fits, GrayImage, ImageBuffer, RgbImage};
use vstd::prelude::*;

verus! {

/// The longest side of an image that can be resized: a pixel's place along
/// it, with a half added, is still held exactly in a 32-bit float.
pub const MAX_SIDE: u32 = 0x80_0000;

/// A level made brighter by `value`, cut off at 0 and 255.
pub open spec fn brightened(level: u8, value: i32) -> u8 {
    if level + value < 0 {
        0
    } else if level + value > 255 {
        255
    } else {
        (level + value) as u8
    }
}

/// A colour with each of its levels made brighter by `value`.
pub open spec fn brightened_colour(rgb: (u8, u8, u8), value: i32) -> (u8, u8, u8) {
    (brightened(rgb.0, value), brightened(rgb.1, value), brightened(rgb.2, value))
}

/// A colour with light and dark exchanged: each level `p` becomes `255 - p`.
pub open spec fn inverted(rgb: (u8, u8, u8)) -> (u8, u8, u8) {
    ((255 - rgb.0) as u8, (255 - rgb.1) as u8, (255 - rgb.2) as u8)
}

/// A colour with light and dark exchanged where `invert` is set, and as it
/// is where it is not.
pub open spec fn inverted_if(invert: bool, rgb: (u8, u8, u8)) -> (u8, u8, u8) {
    if invert {
        inverted(rgb)
    } else {
        rgb
    }
}

/// Whether `after` is the image `before` with every colour made brighter by
/// `value`.
pub open spec fn is_brightened(before: RgbImage, value: i32, after: RgbImage) -> bool {
    &&& after.width == before.width
    &&& after.height == before.height
    &&& after.data@.len() == before.data@.len()
    &&& forall|i: int|
        0 <= i < before.data@.len() ==> #[trigger] after.data@[i] == brightened_colour(
            before.data@[i],
            value,
        )
}

/// Whether `after` is the image `before` with light and dark exchanged where
/// `invert` is set, and the image as it is where it is not.
pub open spec fn is_inverted_if(invert: bool, before: RgbImage, after: RgbImage) -> bool {
    &&& after.width == before.width
    &&& after.height == before.height
    &&& after.data@.len() == before.data@.len()
    &&& forall|i: int|
        0 <= i < before.data@.len() ==> #[trigger] after.data@[i] == inverted_if(
            invert,
            before.data@[i],
        )
}

/// Whether `grey` holds the grey levels of the colours of `image`.
pub open spec fn is_grey_of(image: RgbImage, grey: GrayImage) -> bool {
    &&& grey.width == image.width
    &&& grey.height == image.height
    &&& grey.data@.len() == image.data@.len()
    &&& forall|i: int|
        0 <= i < image.data@.len() ==> #[trigger] grey.data@[i] == luma_level(image.data@[i])
}

/// The grey level of a colour: red, green and blue weigh 2126, 7152 and 722
/// parts in 10000.
pub open spec fn luma_level(rgb: (u8, u8, u8)) -> u8 {
    ((2126 * rgb.0 + 7152 * rgb.1 + 722 * rgb.2) / 10000) as u8
}

/// Whether an image of the given size can be resized, or be what resizing
/// gives: it is not empty, neither side is longer than `MAX_SIDE`, and its
/// pixels as four 32-bit floats each fit in memory.
pub open spec fn can_hold(width: u32, height: u32) -> bool {
    &&& 0 < width <= MAX_SIDE
    &&& 0 < height <= MAX_SIDE
    &&& 16 * (width * height) <= isize::MAX
}

/// Whether an image of the given size can be resized, or be what resizing
/// gives.
pub fn holds(width: u32, height: u32) -> (r: bool)
    ensures
        r == can_hold(width, height),
{
    proof {
        lemma_area_fits(width, height);
    }
    let area: u64 = width as u64 * height as u64;
    0 < width && width <= MAX_SIDE && 0 < height && height <= MAX_SIDE && area <= (
    isize::MAX as u64) / 16
}

/// A level made brighter by `value`.
fn brighter(level: u8, value: i32) -> (r: u8)
    ensures
        r == brightened(level, value),
{
    let sum: i64 = level as i64 + value as i64;
    if sum < 0 {
        0
    } else if sum > 255 {
        255
    } else {
        sum as u8
    }
}

/// The image with every level of every colour made brighter by `value`.
pub fn brighten(image: &RgbImage, value: i32) -> (r: RgbImage)
    ensures
        is_brightened(*image, value, r),
        r.width == image.width,
        r.height == image.height,
        r.data@.len() == image.data@.len(),
        forall|i: int|
            0 <= i < image.data@.len() ==> #[trigger] r.data@[i] == (
                brightened(image.data@[i].0, value),
                brightened(image.data@[i].1, value),
                brightened(image.data@[i].2, value),
            ),
{
    let n: usize = image.data.len();
    let mut data: Vec<(u8, u8, u8)> = Vec::new();
    let mut i: usize = 0;
    while i < n
        invariant
            i <= n,
            n == image.data@.len(),
            data@.len() == i,
            forall|j: int|
                0 <= j < i ==> #[trigger] data@[j] == (
                    brightened(image.data@[j].0, value),
                    brightened(image.data@[j].1, value),
                    brightened(image.data@[j].2, value),
                ),
        decreases n - i,
    {
        let p: (u8, u8, u8) = image.data[i];
        data.push((brighter(p.0, value), brighter(p.1, value), brighter(p.2, value)));
        i += 1;
    }
    ImageBuffer { width: image.width, height: image.height, data }
}

/// Turn every level `p` of every colour into `255 - p`.
pub fn invert(image: &mut RgbImage)
    ensures
        is_inverted_if(true, *old(image), *final(image)),
        final(image).width == old(image).width,
        final(image).height == old(image).height,
        final(image).data@.len() == old(image).data@.len(),
        forall|i: int|
            0 <= i < old(image).data@.len() ==> #[trigger] final(image).data@[i] == (
                (255 - old(image).data@[i].0) as u8,
                (255 - old(image).data@[i].1) as u8,
                (255 - old(image).data@[i].2) as u8,
            ),
{
    let n: usize = image.data.len();
    let mut i: usize = 0;
    while i < n
        invariant
            i <= n,
            n == image.data@.len(),
            image.width == old(image).width,
            image.height == old(image).height,
            image.data@.len() == old(image).data@.len(),
            forall|j: int|
                0 <= j < i ==> #[trigger] image.data@[j] == (
                    (255 - old(image).data@[j].0) as u8,
                    (255 - old(image).data@[j].1) as u8,
                    (255 - old(image).data@[j].2) as u8,
                ),
            forall|j: int| i <= j < n ==> #[trigger] image.data@[j] == old(image).data@[j],
        decreases n - i,
    {
        let p: (u8, u8, u8) = image.data[i];
        image.data[i] = (255 - p.0, 255 - p.1, 255 - p.2);
        i += 1;
    }
}

/// The grey level of a colour.
fn to_luma(rgb: (u8, u8, u8)) -> (level: u8)
    ensures
        level == luma_level(rgb),
{
    let sum: u32 = 2126 * rgb.0 as u32 + 7152 * rgb.1 as u32 + 722 * rgb.2 as u32;
    (sum / 10000) as u8
}

/// The grey image of a colour image.
pub fn to_luma8(image: &RgbImage) -> (r: GrayImage)
    ensures
        is_grey_of(*image, r),
        r.width == image.width,
        r.height == image.height,
        r.data@.len() == image.data@.len(),
        forall|i: int|
            0 <= i < image.data@.len() ==> #[trigger] r.data@[i] == luma_level(image.data@[i]),
{
    let n: usize = image.data.len();
    let mut data: Vec<u8> = Vec::new();
    let mut i: usize = 0;
    while i < n
        invariant
            i <= n,
            n == image.data@.len(),
            data@.len() == i,
            forall|j: int| 0 <= j < i ==> #[trigger] data@[j] == luma_level(image.data@[j]),
        decreases n - i,
    {
        data.push(to_luma(image.data[i]));
        i += 1;
    }
    ImageBuffer { width: image.width, height: image.height, data }
}

/// `imageops::resize` of the crate `image` on an `RgbImage`: an image of
/// exactly the size asked for. Where that is the size of the given image,
/// the result is a copy of it. Otherwise its pixels are sampled from the
/// given image with the given filter, in rounded arithmetic, and nothing is
/// claimed of them.
#[verifier::external_body]
fn resize(image: &RgbImage, width: u32, height: u32, filter: FilterType) -> (r: RgbImage)
    requires
        image.wf(),
        can_hold(image.width, image.height),
        can_hold(width, height),
        can_hold(image.width, height),
    ensures
        r.width == width,
        r.height == height,
        r.wf(),
        (width, height) == (image.width, image.height) ==> r.data@ == image.data@,
{
    let raw: Vec<u8> = image.data.iter().flat_map(|p| [p.0, p.1, p.2]).collect();
    let source = image::RgbImage::from_raw(image.width, image.height, raw).unwrap();
    let kernel = match filter {
        FilterType::CatmullRom => image::imageops::FilterType::CatmullRom,
        FilterType::Gaussian => image::imageops::FilterType::Gaussian,
        FilterType::Lanczos3 => image::imageops::FilterType::Lanczos3,
        FilterType::Nearest => image::imageops::FilterType::Nearest,
        FilterType::Triangle => image::imageops::FilterType::Triangle,
    };
    let target = image::imageops::resize(&source, width, height, kernel);
    let data = target.pixels().map(|p| (p[0], p[1], p[2])).collect();
    ImageBuffer { width, height, data }
}

/// The image brought to exactly the given size with the given filter, or
/// nothing where the image or the size asked for cannot be held. An image
/// that has the size asked for already is given back as it is.
pub fn resize_exact(image: &RgbImage, width: u32, height: u32, filter: FilterType) -> (r: Option<
    RgbImage,
>)
    requires
        image.wf(),
    ensures
        r is Some <==> can_hold(image.width, image.height) && can_hold(width, height) && can_hold(
            image.width,
            height,
        ),
        r is Some ==> r->0.width == width && r->0.height == height && r->0.wf(),
        r is Some && (width, height) == (image.width, image.height) ==> r->0.data@ == image.data@,
{
    if holds(image.width, image.height) && holds(width, height) && holds(image.width, height) {
        Some(resize(image, width, height, filter))
    } else {
        None
    }
}

} // verus!
