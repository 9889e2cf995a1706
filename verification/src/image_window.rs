//! Splitting an image into windows of one size for analysis.
//!
//! The windows lie side by side without overlap, row by row from the top
//! left. Each holds a copy of its pixels. Columns and rows of the image that
//! are left over on the right and at the bottom belong to no window.
use crate::image_buffer::{lemma_area_fits, lemma_index_in_range, ImageBuffer};
use vstd::prelude::*;

verus! {

/// A rectangle of pixels cut from an image, row by row.
#[derive(Debug, PartialEq, Clone)]
pub struct Window<P> {
    pub width: u32,
    pub height: u32,
    pub data: Vec<P>,
}

/// The windows of an image, row by row.
#[derive(Debug)]
pub struct ImageWindow<P> {
    pub windows_per_row: u32,
    pub windows_per_col: u32,
    pub image_width: u32,
    pub image_height: u32,
    pub windows: Vec<Window<P>>,
}

/// A window over colours.
pub type RgbWindow = Window<(u8, u8, u8)>;

/// A window over grey levels.
pub type GrayWindow = Window<u8>;

/// The windows of a colour image.
pub type RgbImageWindow = ImageWindow<(u8, u8, u8)>;

/// The windows of a grey image.
pub type GrayImageWindow = ImageWindow<u8>;

impl<P> Window<P> {
    /// Whether the window holds exactly one pixel for each place.
    pub open spec fn wf(&self) -> bool {
        self.data@.len() == self.width * self.height
    }

    /// The pixel in column `x` of row `y` of the window.
    pub open spec fn pixel(&self, x: int, y: int) -> P {
        self.data@[y * self.width + x]
    }

    /// The pixel in column `x` of row `y` of the window.
    pub fn get_pixel(&self, x: u32, y: u32) -> (p: &P)
        requires
            self.wf(),
            x < self.width,
            y < self.height,
        ensures
            *p == self.pixel(x as int, y as int),
    {
        proof {
            lemma_index_in_range(x as int, y as int, self.width as int, self.height as int);
            assert(0 <= y * self.width) by (nonlinear_arith)
                requires
                    0 <= y,
                    0 <= self.width,
            ;
        }
        let area: usize = self.data.len();
        assert(y * self.width + x < area);
        let index: usize = y as usize * self.width as usize + x as usize;
        &self.data[index]
    }

    /// The pixel in column `x` of row `y` of the window, or nothing where the
    /// window has no such place.
    pub fn get_pixel_checked(&self, x: u32, y: u32) -> (p: Option<&P>)
        ensures
            p is Some <==> x < self.width && y < self.height && y * self.width + x
                < self.data@.len(),
            p is Some ==> *p->0 == self.pixel(x as int, y as int),
            self.wf() ==> (p is Some <==> x < self.width && y < self.height),
    {
        proof {
            lemma_area_fits(y, self.width);
            if x < self.width && y < self.height {
                lemma_index_in_range(x as int, y as int, self.width as int, self.height as int);
            }
        }
        if x < self.width && y < self.height {
            let index: u64 = y as u64 * self.width as u64 + x as u64;
            if index < self.data.len() as u64 {
                return Some(&self.data[index as usize]);
            }
        }
        None
    }
}

impl<P> ImageWindow<P> {
    /// Whether the windows are as many as the two counts say, and each holds
    /// one pixel for each of its places.
    pub open spec fn wf(&self) -> bool {
        &&& self.windows_per_row > 0
        &&& self.windows@.len() == self.windows_per_row * self.windows_per_col
        &&& forall|k: int| 0 <= k < self.windows@.len() ==> (#[trigger] self.windows@[k]).wf()
    }

    /// Whether every window is of the given size.
    pub open spec fn all_of_size(&self, width: u32, height: u32) -> bool {
        forall|k: int|
            0 <= k < self.windows@.len() ==> (#[trigger] self.windows@[k]).width == width
                && self.windows@[k].height == height
    }

    /// The windows in rows: each row holds the windows that lie side by side
    /// in the image, from the left.
    pub fn rows(&self) -> (rows: Vec<Vec<&Window<P>>>)
        requires
            self.wf(),
        ensures
            rows@.len() == self.windows_per_col,
            forall|j: int|
                0 <= j < rows@.len() ==> (#[trigger] rows@[j])@.len() == self.windows_per_row,
            forall|j: int, i: int|
                0 <= j < self.windows_per_col && 0 <= i < self.windows_per_row ==> *(
                #[trigger] rows@[j]@[i]) == self.windows@[j * self.windows_per_row + i],
    {
        let mut rows: Vec<Vec<&Window<P>>> = Vec::new();
        let mut j: u32 = 0;
        while j < self.windows_per_col
            invariant
                self.wf(),
                j <= self.windows_per_col,
                rows@.len() == j,
                forall|b: int| 0 <= b < j ==> (#[trigger] rows@[b])@.len() == self.windows_per_row,
                forall|b: int, a: int|
                    0 <= b < j && 0 <= a < self.windows_per_row ==> *(#[trigger] rows@[b]@[a])
                        == self.windows@[b * self.windows_per_row + a],
            decreases self.windows_per_col - j,
        {
            let mut current: Vec<&Window<P>> = Vec::new();
            let mut i: u32 = 0;
            while i < self.windows_per_row
                invariant
                    self.wf(),
                    j < self.windows_per_col,
                    i <= self.windows_per_row,
                    current@.len() == i,
                    forall|a: int|
                        0 <= a < i ==> *(#[trigger] current@[a]) == self.windows@[j
                            * self.windows_per_row + a],
                decreases self.windows_per_row - i,
            {
                proof {
                    lemma_index_in_range(
                        i as int,
                        j as int,
                        self.windows_per_row as int,
                        self.windows_per_col as int,
                    );
                    assert(0 <= j * self.windows_per_row) by (nonlinear_arith)
                        requires
                            0 <= j,
                            0 <= self.windows_per_row,
                    ;
                }
                let count: usize = self.windows.len();
                assert(j * self.windows_per_row + i < count);
                let index: usize = j as usize * self.windows_per_row as usize + i as usize;
                current.push(&self.windows[index]);
                i += 1;
            }
            rows.push(current);
            j += 1;
        }
        rows
    }
}

/// Whether `window` holds the pixels of `image` in the rectangle of the given
/// size whose top left corner is `(left, top)`.
pub open spec fn is_cut<P>(
    window: Window<P>,
    image: ImageBuffer<P>,
    left: int,
    top: int,
    width: u32,
    height: u32,
) -> bool {
    &&& window.width == width
    &&& window.height == height
    &&& window.wf()
    &&& forall|a: int, b: int|
        0 <= a < width && 0 <= b < height ==> #[trigger] window.pixel(a, b) == image.data@[(top
            + b) * image.width + left + a]
}

/// Whether `split` holds the windows of the given size of `image`: as many in
/// a row as fit in the width, as many rows as fit in the height, window `i`
/// of row `j` cut at `(i * width, j * height)`.
pub open spec fn is_split<P>(
    split: ImageWindow<P>,
    image: ImageBuffer<P>,
    width: u32,
    height: u32,
) -> bool {
    &&& split.image_width == image.width
    &&& split.image_height == image.height
    &&& split.windows_per_row == image.width / width
    &&& split.windows_per_col == image.height / height
    &&& split.windows@.len() == split.windows_per_row * split.windows_per_col
    &&& forall|i: int, j: int|
        0 <= i < split.windows_per_row && 0 <= j < split.windows_per_col ==> is_cut(
            #[trigger] split.windows@[j * split.windows_per_row + i],
            image,
            i * width,
            j * height,
            width,
            height,
        )
}

/// Whether windows of the given size can be cut from an image of the given
/// size: they are not empty and not larger than the image.
pub open spec fn fits(width: u32, height: u32, image_width: u32, image_height: u32) -> bool {
    0 < width <= image_width && 0 < height <= image_height
}

/// Splitting an image into windows for analysis.
pub trait Windowing<P>: Sized {
    /// The image as the split sees it.
    spec fn image(self) -> ImageBuffer<P>;

    /// Split the image into windows of `width` by `height` pixels. Gives
    /// nothing where the windows are empty or larger than the image, or where
    /// they do not cover the image exactly.
    fn to_window_exact(self, width: u32, height: u32) -> (r: Option<ImageWindow<P>>)
        requires
            self.image().wf(),
        ensures
            r is Some <==> fits(width, height, self.image().width, self.image().height)
                && self.image().width % width == 0 && self.image().height % height == 0,
            r is Some ==> is_split(r->0, self.image(), width, height),
    ;

    /// Split the image into windows of `width` by `height` pixels. Gives
    /// nothing where the windows are empty or larger than the image. Up to
    /// `width - 1` columns and `height - 1` rows of the image are left out.
    fn to_window(self, width: u32, height: u32) -> (r: Option<ImageWindow<P>>)
        requires
            self.image().wf(),
        ensures
            r is Some <==> fits(width, height, self.image().width, self.image().height),
            r is Some ==> is_split(r->0, self.image(), width, height),
    ;
}

impl<P: Copy> Windowing<P> for ImageBuffer<P> {
    open spec fn image(self) -> ImageBuffer<P> {
        self
    }

    fn to_window_exact(self, width: u32, height: u32) -> (r: Option<ImageWindow<P>>) {
        if width == 0 || height == 0 || width > self.width || height > self.height {
            return None;
        }
        if self.width % width != 0 || self.height % height != 0 {
            return None;
        }
        Some(split(&self, width, height))
    }

    fn to_window(self, width: u32, height: u32) -> (r: Option<ImageWindow<P>>) {
        if width == 0 || height == 0 || width > self.width || height > self.height {
            return None;
        }
        Some(split(&self, width, height))
    }
}

/// The windows of the given size of an image.
fn split<P: Copy>(image: &ImageBuffer<P>, width: u32, height: u32) -> (r: ImageWindow<P>)
    requires
        image.wf(),
        fits(width, height, image.width, image.height),
    ensures
        is_split(r, *image, width, height),
{
    let windows_per_row: u32 = image.width / width;
    let windows_per_col: u32 = image.height / height;
    let mut windows: Vec<Window<P>> = Vec::new();
    let mut j: u32 = 0;
    while j < windows_per_col
        invariant
            image.wf(),
            fits(width, height, image.width, image.height),
            windows_per_row == image.width / width,
            windows_per_col == image.height / height,
            j <= windows_per_col,
            windows@.len() == j * windows_per_row,
            forall|a: int, b: int|
                0 <= a < windows_per_row && 0 <= b < j ==> is_cut(
                    #[trigger] windows@[b * windows_per_row + a],
                    *image,
                    a * width,
                    b * height,
                    width,
                    height,
                ),
        decreases windows_per_col - j,
    {
        let mut i: u32 = 0;
        while i < windows_per_row
            invariant
                image.wf(),
                fits(width, height, image.width, image.height),
                windows_per_row == image.width / width,
                windows_per_col == image.height / height,
                j < windows_per_col,
                i <= windows_per_row,
                windows@.len() == j * windows_per_row + i,
                forall|a: int, b: int|
                    0 <= a < windows_per_row && 0 <= b < j ==> is_cut(
                        #[trigger] windows@[b * windows_per_row + a],
                        *image,
                        a * width,
                        b * height,
                        width,
                        height,
                    ),
                forall|a: int|
                    0 <= a < i ==> is_cut(
                        #[trigger] windows@[j * windows_per_row + a],
                        *image,
                        a * width,
                        j * height,
                        width,
                        height,
                    ),
            decreases windows_per_row - i,
        {
            proof {
                lemma_window_inside(i as int, width as int, image.width as int);
                lemma_window_inside(j as int, height as int, image.height as int);
            }
            let window = cut(image, i * width, j * height, width, height);
            let ghost before = windows@;
            windows.push(window);
            proof {
                assert forall|a: int, b: int| 0 <= a < windows_per_row && 0 <= b < j implies is_cut(
                    #[trigger] windows@[b * windows_per_row + a],
                    *image,
                    a * width,
                    b * height,
                    width,
                    height,
                ) by {
                    lemma_index_in_range(a, b, windows_per_row as int, j as int);
                    assert(windows@[b * windows_per_row + a] == before[b * windows_per_row + a]);
                }
                assert forall|a: int| 0 <= a < i + 1 implies is_cut(
                    #[trigger] windows@[j * windows_per_row + a],
                    *image,
                    a * width,
                    j * height,
                    width,
                    height,
                ) by {
                    if a < i {
                        assert(windows@[j * windows_per_row + a] == before[j * windows_per_row
                            + a]);
                    }
                }
            }
            i += 1;
        }
        proof {
            assert((j + 1) * windows_per_row == j * windows_per_row + windows_per_row)
                by (nonlinear_arith);
        }
        j += 1;
    }
    proof {
        assert(windows_per_col * windows_per_row == windows_per_row * windows_per_col)
            by (nonlinear_arith);
    }
    ImageWindow {
        windows_per_row,
        windows_per_col,
        image_width: image.width,
        image_height: image.height,
        windows,
    }
}

/// The rectangle of the given size whose top left corner is `(left, top)`.
fn cut<P: Copy>(image: &ImageBuffer<P>, left: u32, top: u32, width: u32, height: u32) -> (r:
    Window<P>)
    requires
        image.wf(),
        left + width <= image.width,
        top + height <= image.height,
    ensures
        is_cut(r, *image, left as int, top as int, width, height),
{
    let mut data: Vec<P> = Vec::new();
    let mut b: u32 = 0;
    while b < height
        invariant
            image.wf(),
            left + width <= image.width,
            top + height <= image.height,
            b <= height,
            data@.len() == b * width,
            forall|x: int, y: int|
                0 <= x < width && 0 <= y < b ==> #[trigger] data@[y * width + x] == image.data@[(
                top + y) * image.width + left + x],
        decreases height - b,
    {
        let mut a: u32 = 0;
        while a < width
            invariant
                image.wf(),
                left + width <= image.width,
                top + height <= image.height,
                b < height,
                a <= width,
                data@.len() == b * width + a,
                forall|x: int, y: int|
                    0 <= x < width && 0 <= y < b ==> #[trigger] data@[y * width + x]
                        == image.data@[(top + y) * image.width + left + x],
                forall|x: int|
                    0 <= x < a ==> #[trigger] data@[b * width + x] == image.data@[(top + b)
                        * image.width + left + x],
            decreases width - a,
        {
            let p: P = *image.get_pixel(left + a, top + b);
            let ghost before = data@;
            data.push(p);
            proof {
                assert forall|x: int, y: int| 0 <= x < width && 0 <= y < b implies
                    #[trigger] data@[y * width + x] == image.data@[(top + y) * image.width + left
                    + x] by {
                    lemma_index_in_range(x, y, width as int, b as int);
                    assert(data@[y * width + x] == before[y * width + x]);
                }
            }
            a += 1;
        }
        proof {
            assert((b + 1) * width == b * width + width) by (nonlinear_arith);
        }
        b += 1;
    }
    let window = Window { width, height, data };
    proof {
        assert(height * width == width * height) by (nonlinear_arith);
    }
    window
}

/// The windows of an image are well formed, and all of the size that was
/// asked for.
pub proof fn lemma_split_wf<P>(
    split: ImageWindow<P>,
    image: ImageBuffer<P>,
    width: u32,
    height: u32,
)
    requires
        is_split(split, image, width, height),
        fits(width, height, image.width, image.height),
    ensures
        split.wf(),
        split.all_of_size(width, height),
{
    let per_row = split.windows_per_row as int;
    let per_col = split.windows_per_col as int;
    assert(image.width as int / width as int >= 1) by (nonlinear_arith)
        requires
            0 < width <= image.width,
    ;
    assert forall|k: int| 0 <= k < split.windows@.len() implies (#[trigger] split.windows@[k]).wf()
        && split.windows@[k].width == width && split.windows@[k].height == height by {
        let i = k % per_row;
        let j = k / per_row;
        assert(k == j * per_row + i && 0 <= i < per_row && 0 <= j < per_col) by (nonlinear_arith)
            requires
                0 <= k < per_row * per_col,
                0 < per_row,
                i == k % per_row,
                j == k / per_row,
        ;
        assert(is_cut(
            split.windows@[j * per_row + i],
            image,
            i * width,
            j * height,
            width,
            height,
        ));
    }
}

/// As many windows fit in a length as fit behind the first one, and the
/// first.
pub proof fn lemma_window_count(size: u32, length: u32)
    requires
        0 < size <= length,
    ensures
        length as int / size as int == (length - size) / (size as int) + 1,
{
    let most = (length - size) / (size as int);
    assert(length as int / size as int == most + 1) by (nonlinear_arith)
        requires
            0 < size <= length,
            most == (length - size) / (size as int),
    ;
}

/// Window number `i` of a row, counted from 0, lies inside the image.
pub proof fn lemma_window_inside(i: int, size: int, length: int)
    requires
        0 < size,
        0 <= length,
        0 <= i < length / size,
    ensures
        0 <= i * size,
        i * size + size <= length,
{
    assert(i * size + size <= (length / size) * size) by (nonlinear_arith)
        requires
            0 <= i < length / size,
            0 < size,
    ;
    assert((length / size) * size <= length) by (nonlinear_arith)
        requires
            0 < size,
            0 <= length,
    ;
    assert(0 <= i * size) by (nonlinear_arith)
        requires
            0 <= i,
            0 < size,
    ;
}

} // verus!
