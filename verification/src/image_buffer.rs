//! Pixel buffers: a rectangle of pixels held row by row.
//!
//! A grey image holds one sample for each pixel, a colour image a triple of
//! red, green and blue.
use vstd::prelude::*;

verus! {

/// A rectangle of `width` by `height` pixels, row by row from the top.
#[derive(Debug, Clone, PartialEq, Eq)]
pub struct ImageBuffer<P> {
    pub width: u32,
    pub height: u32,
    pub data: Vec<P>,
}

/// An image of grey levels.
pub type GrayImage = ImageBuffer<u8>;

/// An image of red, green and blue levels.
pub type RgbImage = ImageBuffer<(u8, u8, u8)>;

impl<P> ImageBuffer<P> {
    /// Whether the buffer holds exactly one pixel for each place.
    pub open spec fn wf(&self) -> bool {
        self.data@.len() == self.width * self.height
    }

    /// The pixel in column `x` of row `y`.
    pub open spec fn pixel(&self, x: int, y: int) -> P {
        self.data@[y * self.width + x]
    }

    /// An image over the given pixels, or nothing where their number is not
    /// `width * height`.
    pub fn from_raw(width: u32, height: u32, data: Vec<P>) -> (r: Option<Self>)
        ensures
            r is Some <==> data@.len() == width * height,
            r is Some ==> r->0.width == width && r->0.height == height && r->0.data@ == data@,
    {
        proof {
            lemma_area_fits(width, height);
        }
        let expected: u64 = width as u64 * height as u64;
        if data.len() as u64 == expected {
            Some(ImageBuffer { width, height, data })
        } else {
            None
        }
    }

    /// The width and the height.
    pub fn dimensions(&self) -> (r: (u32, u32))
        ensures
            r == (self.width, self.height),
    {
        (self.width, self.height)
    }

    /// The pixel in column `x` of row `y`.
    pub fn get_pixel(&self, x: u32, y: u32) -> (p: &P)
        requires
            self.wf(),
            x < self.width,
            y < self.height,
        ensures
            *p == self.pixel(x as int, y as int),
    {
        proof {
            lemma_index_in_range(x as int, y as int, self.width as int, self.height as int);
            assert(0 <= y * self.width) by (nonlinear_arith)
                requires
                    0 <= y,
                    0 <= self.width,
            ;
        }
        let area: usize = self.data.len();
        assert(y * self.width + x < area);
        let index: usize = y as usize * self.width as usize + x as usize;
        &self.data[index]
    }

    /// The pixel in column `x` of row `y`, or nothing where the image has no
    /// such place.
    pub fn get_pixel_checked(&self, x: u32, y: u32) -> (p: Option<&P>)
        requires
            self.wf(),
        ensures
            p is Some <==> x < self.width && y < self.height,
            p is Some ==> *p->0 == self.pixel(x as int, y as int),
    {
        if x < self.width && y < self.height {
            Some(self.get_pixel(x, y))
        } else {
            None
        }
    }
}

/// The area of an image fits in 64 bits.
pub proof fn lemma_area_fits(width: u32, height: u32)
    ensures
        0 <= width * height <= 0xFFFF_FFFE_0000_0001,
{
    assert(0 <= width * height <= 0xFFFF_FFFE_0000_0001) by (nonlinear_arith)
        requires
            0 <= width <= 0xFFFF_FFFF,
            0 <= height <= 0xFFFF_FFFF,
    ;
}

/// A place inside a rectangle has its index inside the rectangle's area.
pub proof fn lemma_index_in_range(x: int, y: int, width: int, height: int)
    requires
        0 <= x < width,
        0 <= y < height,
    ensures
        0 <= y * width + x < width * height,
        y * width <= (height - 1) * width,
{
    assert(y * width <= (height - 1) * width) by (nonlinear_arith)
        requires
            0 <= y <= height - 1,
            0 <= width,
    ;
    assert((height - 1) * width + width == width * height) by (nonlinear_arith);
    assert(0 <= y * width) by (nonlinear_arith)
        requires
            0 <= y,
            0 <= width,
    ;
}

} // verus!
