//! Drawing an image with Braille patterns of eight dots.
//!
//! The image is turned to black and white. Each character stands for a
//! window of 2 by 4 pixels, and shows a dot for each white pixel.
use crate::ansi::{AnsiImage, AnsiImageResult, Style, StyledCell};
use crate::grid::{build, is_rows};
use crate::image_binarize::{binarized, otsu_of, Threshold};
use crate::image_buffer::{GrayImage, RgbImage};
use crate::imageops::{brighten, is_brightened, is_grey_of, to_luma8};
use crate::unicode::code_point;
use vstd::prelude::*;

verus! {

/// How the characters are coloured.
#[derive(Debug, Clone, Copy, PartialEq, Eq)]
pub enum BraileColor {
    /// With the fixed colours of the settings.
    Fixed,
}

/// How the image is turned to black and white.
#[derive(Debug, Clone, Copy, PartialEq, Eq)]
pub enum BraileMode {
    /// With the threshold of the settings.
    ManualThreshold,
    /// With the threshold that Otsu's method finds.
    OtsuThreshold,
}

impl Default for BraileColor {
    fn default() -> (r: Self)
        ensures
            r == BraileColor::Fixed,
    {
        BraileColor::Fixed
    }
}

impl Default for BraileMode {
    fn default() -> (r: Self)
        ensures
            r == BraileMode::OtsuThreshold,
    {
        BraileMode::OtsuThreshold
    }
}

/// The settings for drawing with Braille patterns.
pub type AnsiBraile = AnsiImage<BraileMode, BraileColor>;

/// Whether a pixel shows as a dot: 1 for a white pixel, 0 for any other.
pub open spec fn dot(p: u8) -> int {
    p as int / 255
}

/// The pattern of the window of 2 by 4 pixels whose top left corner is
/// `(x, y)`, as a number: dot `k` counts for two to the power `k`. The dots
/// 0, 1 and 2 are the upper three of the left column, 3, 4 and 5 the upper
/// three of the right column, 6 and 7 the lowest of the left and of the right
/// column.
pub open spec fn braille_offset(luma: GrayImage, x: int, y: int) -> int {
    dot(luma.pixel(x, y)) + 2 * dot(luma.pixel(x, y + 1)) + 4 * dot(luma.pixel(x, y + 2)) + 8
        * dot(luma.pixel(x + 1, y)) + 16 * dot(luma.pixel(x + 1, y + 1)) + 32 * dot(
        luma.pixel(x + 1, y + 2),
    ) + 64 * dot(luma.pixel(x, y + 3)) + 128 * dot(luma.pixel(x + 1, y + 3))
}

/// The Braille pattern with the given number: the patterns follow each other
/// from the code point `0x2800`.
pub open spec fn braille_char(offset: int) -> char {
    (0x2800 + offset) as char
}

impl AnsiBraile {
    /// The style of every character.
    pub open spec fn style(&self) -> Style {
        self.fixed_style().marked(self.bold, self.blink, self.underline)
    }

    /// What a grey level becomes before it is drawn, in an image with the
    /// grey levels `data`: black or white by the threshold, and the other of
    /// the two where the settings invert.
    pub open spec fn prepared(&self, p: u8, data: Seq<u8>) -> u8 {
        let threshold = match self.mode {
            BraileMode::ManualThreshold => self.threshold,
            BraileMode::OtsuThreshold => otsu_of(data),
        };
        if self.invert {
            (255 - binarized(p, threshold)) as u8
        } else {
            binarized(p, threshold)
        }
    }

    /// Whether `cells` is the drawing of the black and white image `luma`:
    /// a character for each whole window of 2 by 4 pixels, and a line end in
    /// the same style after each row.
    pub open spec fn draws(&self, cells: Seq<StyledCell>, luma: GrayImage) -> bool {
        is_rows(
            cells,
            luma.width as int / 2,
            luma.height as int / 4,
            |x: int, y: int|
                StyledCell {
                    style: self.style(),
                    text: braille_char(braille_offset(luma, 2 * x, 4 * y)),
                },
            |y: int| StyledCell { style: self.style(), text: '\n' },
        )
    }

    /// Whether `cells` is the drawing of the grey image `grey`, and `luma`
    /// the black and white image that was made of it on the way.
    pub open spec fn is_drawing(
        &self,
        cells: Seq<StyledCell>,
        grey: GrayImage,
        luma: GrayImage,
    ) -> bool {
        &&& grey.wf()
        &&& luma.wf()
        &&& luma.width == grey.width
        &&& luma.height == grey.height
        &&& forall|i: int|
            0 <= i < grey.data@.len() ==> #[trigger] luma.data@[i] == self.prepared(
                grey.data@[i],
                grey.data@,
            )
        &&& self.draws(cells, luma)
    }

    /// Whether an image of the given size can be converted with these
    /// settings: the output is not empty, and the image and what it is
    /// resized to can be held.
    pub open spec fn can_convert(&self, image_dimensions: (u32, u32)) -> bool {
        (Self { scale: (2u32, 4u32), ..*self }).can_resize(image_dimensions)
    }

    /// These settings, with the given threshold between black and white.
    pub fn threshold(&self, value: u8) -> (r: Self)
        ensures
            r == (Self {
                mode: BraileMode::ManualThreshold,
                has_threshold: true,
                threshold: value,
                scale: (2u32, 4u32),
                ..*self
            }),
    {
        Self {
            mode: BraileMode::ManualThreshold,
            has_threshold: true,
            threshold: value,
            scale: (2, 4),
            ..*self
        }
    }

    /// These settings, with the threshold that Otsu's method finds.
    pub fn otsu_threshold(&self) -> (r: Self)
        ensures
            r == (Self { mode: BraileMode::OtsuThreshold, scale: (2u32, 4u32), ..*self }),
    {
        Self { mode: BraileMode::OtsuThreshold, scale: (2, 4), ..*self }
    }

    /// The colours of every character.
    pub fn get_color(&self) -> (style: Style)
        ensures
            style == self.fixed_style(),
    {
        match self.color {
            BraileColor::Fixed => self.get_fixed_color(),
        }
    }

    /// The style of every character: its colours, and the marks of the
    /// settings.
    pub fn get_style(&self) -> (style: Style)
        ensures
            style == self.style(),
    {
        let style = self.get_color();
        self.with_marks(style)
    }

    /// Whether `cells` is the drawing of the colour image `resized`: of its
    /// grey levels, turned to black and white and exchanged where the
    /// settings invert.
    pub open spec fn draws_resized(&self, cells: Seq<StyledCell>, resized: RgbImage) -> bool {
        exists|grey: GrayImage, luma: GrayImage|
            #[trigger] self.is_drawing(cells, grey, luma) && is_grey_of(resized, grey)
    }

    /// Draw an image with Braille patterns.
    ///
    /// The image is made brighter as the settings say and brought to the size
    /// of the output times 2 by 4 pixels; an image that has that size already
    /// is not resampled. Its grey levels are turned to black and white, and
    /// exchanged where the settings invert. Nothing is drawn where
    /// `can_convert` does not hold.
    pub fn convert(&self, image: &RgbImage) -> (r: Option<AnsiImageResult>)
        requires
            image.wf(),
        ensures
            r is Some <==> self.can_convert((image.width, image.height)),
            r is Some ==> exists|resized: RgbImage|
                {
                    &&& #[trigger] self.draws_resized(r->0.data@, resized)
                    &&& resized.wf()
                    &&& (resized.width as int, resized.height as int) == (Self {
                        scale: (2u32, 4u32),
                        ..*self
                    }).working_size((image.width, image.height))
                    &&& (resized.width, resized.height) == (image.width, image.height)
                        ==> is_brightened(*image, self.brighten, resized)
                },
    {
        let settings = Self { scale: (2, 4), ..*self };
        let bright = brighten(image, self.brighten);
        let resized = match settings.image_resize_with_scale(&bright) {
            Some(resized) => resized,
            None => {
                return None;
            },
        };
        proof {
            if (resized.width, resized.height) == (image.width, image.height) {
                assert(resized.data@ == bright.data@);
                assert(is_brightened(*image, self.brighten, resized));
            }
        }
        let mut luma = to_luma8(&resized);
        let ghost grey = luma;
        let result = self.render(&mut luma);
        assert(self.is_drawing(result.data@, grey, luma) && is_grey_of(resized, grey));
        assert(self.draws_resized(result.data@, resized));
        let ghost cells = result.data@;
        let r = Some(result);
        assert(r->0.data@ == cells);
        r
    }

    /// Turn a grey image to black and white, and draw it. The image is left
    /// as it was drawn.
    pub fn render(&self, luma: &mut GrayImage) -> (r: AnsiImageResult)
        requires
            old(luma).wf(),
        ensures
            self.is_drawing(r.data@, *old(luma), *final(luma)),
    {
        match self.mode {
            BraileMode::ManualThreshold => {
                luma.threshold(self.threshold);
            },
            BraileMode::OtsuThreshold => {
                luma.otsu_threshold();
            },
        }
        if self.invert {
            luma.invert();
        }
        self.braile(luma)
    }

    /// Draw a black and white image: a character for each whole window of 2
    /// by 4 pixels, with a dot for each white pixel.
    pub fn braile(&self, luma: &GrayImage) -> (r: AnsiImageResult)
        requires
            luma.wf(),
        ensures
            self.draws(r.data@, *luma),
    {
        let style = self.get_style();
        let width: u32 = luma.width / 2;
        let height: u32 = luma.height / 4;
        let cell = |x: u32, y: u32| -> (c: StyledCell)
            requires
                x < width,
                y < height,
            ensures
                c == (StyledCell {
                    style: self.style(),
                    text: braille_char(braille_offset(*luma, 2 * x, 4 * y)),
                }),
            {
                let ch: char = window_analysis(luma, 2 * x, 4 * y);
                style.paint(ch)
            };
        let end = |y: u32| -> (c: StyledCell)
            ensures
                c == (StyledCell { style: self.style(), text: '\n' }),
            { style.paint('\n') };
        let data = build(width, height, cell, end);
        AnsiImageResult { data }
    }
}

/// Whether a pixel shows as a dot.
fn is_dot(luma: &GrayImage, x: u32, y: u32) -> (r: u8)
    requires
        luma.wf(),
        x < luma.width,
        y < luma.height,
    ensures
        r == dot(luma.pixel(x as int, y as int)),
        r <= 1,
{
    *luma.get_pixel(x, y) / 255
}

/// The Braille pattern for the window of 2 by 4 pixels whose top left corner
/// is `(x, y)`: a dot for each white pixel.
pub fn window_analysis(luma: &GrayImage, x: u32, y: u32) -> (ch: char)
    requires
        luma.wf(),
        x + 1 < luma.width,
        y + 3 < luma.height,
    ensures
        ch == braille_char(braille_offset(*luma, x as int, y as int)),
{
    let mut count: u8 = 0;
    count += is_dot(luma, x, y);
    count += 2 * is_dot(luma, x, y + 1);
    count += 4 * is_dot(luma, x, y + 2);
    count += 8 * is_dot(luma, x + 1, y);
    count += 16 * is_dot(luma, x + 1, y + 1);
    count += 32 * is_dot(luma, x + 1, y + 2);
    count += 64 * is_dot(luma, x, y + 3);
    count += 128 * is_dot(luma, x + 1, y + 3);
    get_braile(count)
}

/// The Braille pattern with the given number.
pub fn get_braile(offset: u8) -> (ch: char)
    ensures
        ch == braille_char(offset as int),
        ch as u32 == 0x2800 + offset,
{
    code_point(offset as u32 + 0x2800)
}

} // verus!
