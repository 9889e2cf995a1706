//! Drawing an image with ASCII characters.
//!
//! Each character of the output stands for one pixel of the colour image,
//! which gives its colour, and for a patch of the grey image, which gives its
//! shape: the character whose glyph is most like the patch, or, in the
//! gradient mode, the character whose place in the character set matches the
//! grey level.
use crate::ansi::{line_end, AnsiImage, AnsiImageResult, Color, Style, StyledCell};
use crate::ascii_font::{
    font_set,
    glyphs_of,
    maximize_structural_similarity,
    minimize_quadrance,
    nearest_by_quadrance,
    nearest_by_ssim,
    AsciiFont,
};
use crate::grid::{build, is_rows};
use crate::image_buffer::{GrayImage, RgbImage};
use crate::imageops::{
    brighten,
    can_hold,
    invert,
    inverted_if,
    is_brightened,
    is_inverted_if,
    luma_level,
    resize_exact,
    to_luma8,
};
use crate::terminal_colors::{nearest_index, TermColor};
use vstd::prelude::*;

verus! {

/// How the characters are coloured.
#[derive(Debug, Clone, Copy, PartialEq, Eq)]
pub enum AsciiColor {
    /// With the colour of the pixel.
    Truecolor,
    /// With the colour of the terminal's palette nearest to the pixel's.
    Terminalcolor,
    /// With the fixed colours of the settings.
    Fixed,
}

/// How the characters are chosen.
#[derive(Debug, Clone, Copy, PartialEq, Eq)]
pub enum AsciiMode {
    /// By the grey level of one pixel.
    Gradient,
    /// By the quadrance of the glyphs to a patch of 5 by 7 pixels.
    PatternQuadrance,
    /// By the structural similarity of the glyphs to a patch of 5 by 7 pixels.
    PatternSsim,
}

impl Default for AsciiColor {
    fn default() -> (r: Self)
        ensures
            r == AsciiColor::Fixed,
    {
        AsciiColor::Fixed
    }
}

impl Default for AsciiMode {
    fn default() -> (r: Self)
        ensures
            r == AsciiMode::PatternQuadrance,
    {
        AsciiMode::PatternQuadrance
    }
}

/// The settings for drawing with ASCII characters.
pub type AnsiAscii = AnsiImage<AsciiMode, AsciiColor>;

/// The pixels across and down that one character stands for.
pub open spec fn ascii_scale(mode: AsciiMode) -> (u32, u32) {
    match mode {
        AsciiMode::Gradient => (1, 1),
        AsciiMode::PatternQuadrance => (5, 7),
        AsciiMode::PatternSsim => (5, 7),
    }
}

/// The patch of 5 by 7 grey levels that the character in column `x` of row
/// `y` stands for, row by row.
pub open spec fn patch(luma: GrayImage, x: int, y: int) -> Seq<u8> {
    Seq::new(35, |i: int| luma.pixel(5 * x + i % 5, 7 * y + i / 5))
}

/// The character of `chars` for the grey level `p`: the levels 0 to 255 are
/// laid evenly over the places of `chars`. The space where `chars` is empty.
pub open spec fn gradient_char(p: u8, chars: Seq<char>) -> char {
    if chars.len() == 0 {
        ' '
    } else {
        chars[p * (chars.len() - 1) / 255]
    }
}

impl AnsiAscii {
    /// The colours of the character that stands for a pixel of the colour
    /// `rgb`.
    pub open spec fn color_of(&self, rgb: (u8, u8, u8)) -> Style {
        match self.color {
            AsciiColor::Truecolor => Style {
                foreground: Some(Color::RGB(rgb.0, rgb.1, rgb.2)),
                ..Style::plain()
            },
            AsciiColor::Terminalcolor => Style {
                foreground: Some(Color::Fixed(nearest_index(rgb))),
                ..Style::plain()
            },
            AsciiColor::Fixed => self.fixed_style(),
        }
    }

    /// The style of the character that stands for a pixel of the colour
    /// `rgb`.
    pub open spec fn style_of(&self, rgb: (u8, u8, u8)) -> Style {
        self.color_of(rgb).marked(self.bold, self.blink, self.underline)
    }

    /// The cell in column `x` of row `y` in the gradient mode.
    pub open spec fn gradient_cell(
        &self,
        rgb: RgbImage,
        luma: GrayImage,
        chars: Seq<char>,
        x: int,
        y: int,
    ) -> StyledCell {
        StyledCell {
            style: self.style_of(rgb.pixel(x, y)),
            text: gradient_char(luma.pixel(x, y), chars),
        }
    }

    /// The cell in column `x` of row `y` where glyphs are matched by
    /// quadrance.
    pub open spec fn quadrance_cell(
        &self,
        rgb: RgbImage,
        luma: GrayImage,
        set: Seq<AsciiFont>,
        x: int,
        y: int,
    ) -> StyledCell {
        StyledCell {
            style: self.style_of(rgb.pixel(x, y)),
            text: nearest_by_quadrance(patch(luma, x, y), set),
        }
    }

    /// The cell in column `x` of row `y` where glyphs are matched by
    /// structural similarity.
    pub open spec fn ssim_cell(
        &self,
        rgb: RgbImage,
        luma: GrayImage,
        set: Seq<AsciiFont>,
        x: int,
        y: int,
    ) -> StyledCell {
        StyledCell {
            style: self.style_of(rgb.pixel(x, y)),
            text: nearest_by_ssim(patch(luma, x, y), set),
        }
    }

    /// Whether `cells` is the drawing of the colour image `rgb` and the grey
    /// image `luma` with the characters `chars`, in the mode of these
    /// settings.
    pub open spec fn draws(
        &self,
        cells: Seq<StyledCell>,
        rgb: RgbImage,
        luma: GrayImage,
        chars: Seq<char>,
    ) -> bool {
        match self.mode {
            AsciiMode::Gradient => is_rows(
                cells,
                rgb.width as int,
                rgb.height as int,
                |x: int, y: int| self.gradient_cell(rgb, luma, chars, x, y),
                |y: int| line_end(),
            ),
            AsciiMode::PatternQuadrance => is_rows(
                cells,
                rgb.width as int,
                rgb.height as int,
                |x: int, y: int| self.quadrance_cell(rgb, luma, glyphs_of(chars), x, y),
                |y: int| line_end(),
            ),
            AsciiMode::PatternSsim => is_rows(
                cells,
                rgb.width as int,
                rgb.height as int,
                |x: int, y: int| self.ssim_cell(rgb, luma, glyphs_of(chars), x, y),
                |y: int| line_end(),
            ),
        }
    }

    /// Whether `luma` holds the grey levels that are drawn of the image
    /// `resized`: the grey level of each of its colours, taken after light
    /// and dark are exchanged where the settings invert.
    pub open spec fn is_prepared(&self, resized: RgbImage, luma: GrayImage) -> bool {
        &&& luma.width == resized.width
        &&& luma.height == resized.height
        &&& luma.data@.len() == resized.data@.len()
        &&& forall|i: int|
            0 <= i < resized.data@.len() ==> #[trigger] luma.data@[i] == luma_level(
                inverted_if(self.invert, resized.data@[i]),
            )
    }

    /// Whether `cells` is the drawing, at the size `size` of the output, of
    /// an image `resized` that was brought to the pixels that the output
    /// stands for.
    ///
    /// The grey levels of `resized`, inverted where the settings say so, give
    /// the characters. The colours come from an image of the size of the
    /// output: `resized` itself, inverted where the settings say so, where it
    /// has that size, and what resizing makes of it where it has not.
    pub open spec fn draws_resized(
        &self,
        cells: Seq<StyledCell>,
        resized: RgbImage,
        size: (u32, u32),
        chars: Seq<char>,
    ) -> bool {
        exists|rgb: RgbImage, luma: GrayImage|
            {
                &&& #[trigger] self.draws(cells, rgb, luma, chars)
                &&& rgb.wf()
                &&& luma.wf()
                &&& (rgb.width, rgb.height) == size
                &&& self.is_prepared(resized, luma)
                &&& size == (resized.width, resized.height) ==> is_inverted_if(
                    self.invert,
                    resized,
                    rgb,
                )
            }
    }

    /// Whether an image of the size `dimensions`, brought to the pixels that
    /// the output stands for, can be drawn at the size `size` of the output:
    /// it has the size of the output times the pixels that a character
    /// stands for, and the image and what it is resized to can be held.
    pub open spec fn can_draw(&self, dimensions: (u32, u32), size: (u32, u32)) -> bool {
        &&& dimensions.0 == size.0 * ascii_scale(self.mode).0
        &&& dimensions.1 == size.1 * ascii_scale(self.mode).1
        &&& can_hold(dimensions.0, dimensions.1)
        &&& can_hold(size.0, size.1)
        &&& can_hold(dimensions.0, size.1)
    }

    /// Whether an image of the given size can be converted with these
    /// settings: the output is not empty, and the image and what it is
    /// resized to can be held.
    pub open spec fn can_convert(&self, image_dimensions: (u32, u32)) -> bool {
        let settings = Self { scale: ascii_scale(self.mode), ..*self };
        let size = settings.size_aspect_ratio_spec(image_dimensions);
        let (width, height) = settings.working_size(image_dimensions);
        &&& settings.can_resize(image_dimensions)
        &&& can_hold(size.0, size.1)
        &&& can_hold(width as u32, size.1)
    }

    /// These settings, colouring each character as its pixel.
    pub fn true_color(&self) -> (r: Self)
        ensures
            r == (Self { color: AsciiColor::Truecolor, ..*self }),
    {
        Self { color: AsciiColor::Truecolor, ..*self }
    }

    /// These settings, colouring each character with the colour of the
    /// terminal's palette nearest to its pixel.
    pub fn terminal_color(&self) -> (r: Self)
        ensures
            r == (Self { color: AsciiColor::Terminalcolor, ..*self }),
    {
        Self { color: AsciiColor::Terminalcolor, ..*self }
    }

    /// These settings, choosing characters by grey level.
    pub fn gradient(&self) -> (r: Self)
        ensures
            r == (Self { mode: AsciiMode::Gradient, scale: (1u32, 1u32), ..*self }),
    {
        Self { mode: AsciiMode::Gradient, scale: (1, 1), ..*self }
    }

    /// These settings, choosing characters by the quadrance of their glyphs.
    pub fn pattern_quadrance(&self) -> (r: Self)
        ensures
            r == (Self { mode: AsciiMode::PatternQuadrance, scale: (5u32, 7u32), ..*self }),
    {
        Self { mode: AsciiMode::PatternQuadrance, scale: (5, 7), ..*self }
    }

    /// These settings, choosing characters by the shape of their glyphs: by
    /// their quadrance.
    pub fn pattern(&self) -> (r: Self)
        ensures
            r == (Self { mode: AsciiMode::PatternQuadrance, scale: (5u32, 7u32), ..*self }),
    {
        self.pattern_quadrance()
    }

    /// These settings, choosing characters by the structural similarity of
    /// their glyphs.
    pub fn pattern_ssim(&self) -> (r: Self)
        ensures
            r == (Self { mode: AsciiMode::PatternSsim, scale: (5u32, 7u32), ..*self }),
    {
        Self { mode: AsciiMode::PatternSsim, scale: (5, 7), ..*self }
    }

    /// The colours of the character that stands for a pixel of the given
    /// colour.
    pub fn get_color(&self, r: u8, g: u8, b: u8) -> (style: Style)
        ensures
            style == self.color_of((r, g, b)),
    {
        match self.color {
            AsciiColor::Truecolor => Color::RGB(r, g, b).normal(),
            AsciiColor::Terminalcolor => {
                let index: u8 = TermColor::from(r, g, b).index;
                Color::Fixed(index).normal()
            },
            AsciiColor::Fixed => self.get_fixed_color(),
        }
    }

    /// The style of the character that stands for a pixel of the given
    /// colour: its colours, and the marks of the settings.
    pub fn get_style(&self, r: u8, g: u8, b: u8) -> (style: Style)
        ensures
            style == self.style_of((r, g, b)),
    {
        let style = self.get_color(r, g, b);
        self.with_marks(style)
    }

    /// The pixels across and down that one character stands for in the mode
    /// of these settings.
    pub fn sampling(&self) -> (scale: (u32, u32))
        ensures
            scale == ascii_scale(self.mode),
    {
        match self.mode {
            AsciiMode::Gradient => (1, 1),
            AsciiMode::PatternQuadrance => (5, 7),
            AsciiMode::PatternSsim => (5, 7),
        }
    }

    /// Draw an image with the characters of `char_set`.
    ///
    /// The image is made brighter as the settings say and brought to the size
    /// of the output times the pixels that a character stands for; an image
    /// that has that size already is not resampled. What comes of it is drawn
    /// as `convert_resized` says. Nothing is drawn where `can_convert` does
    /// not hold.
    pub fn convert(&self, image: &RgbImage, char_set: &str) -> (r: Option<AnsiImageResult>)
        requires
            image.wf(),
        ensures
            r is Some <==> self.can_convert((image.width, image.height)),
            r is Some ==> exists|resized: RgbImage|
                {
                    &&& #[trigger] self.draws_resized(
                        r->0.data@,
                        resized,
                        self.size_aspect_ratio_spec((image.width, image.height)),
                        char_set@,
                    )
                    &&& resized.wf()
                    &&& (resized.width as int, resized.height as int) == (Self {
                        scale: ascii_scale(self.mode),
                        ..*self
                    }).working_size((image.width, image.height))
                    &&& (resized.width, resized.height) == (image.width, image.height)
                        ==> is_brightened(*image, self.brighten, resized)
                },
    {
        let settings = Self { scale: self.sampling(), ..*self };
        let size: (u32, u32) = settings.size_aspect_ratio(image.dimensions());
        let bright = brighten(image, self.brighten);
        let resized = match settings.image_resize_with_scale(&bright) {
            Some(resized) => resized,
            None => {
                return None;
            },
        };
        let ghost handed = resized;
        proof {
            assert(settings.working_size((image.width, image.height)) == (
                size.0 * ascii_scale(self.mode).0,
                size.1 * ascii_scale(self.mode).1,
            ));
            if (resized.width, resized.height) == (image.width, image.height) {
                assert(resized.data@ == bright.data@);
                assert(is_brightened(*image, self.brighten, handed));
            }
        }
        match self.convert_resized(resized, size, char_set) {
            Some(result) => {
                assert(size == self.size_aspect_ratio_spec((image.width, image.height)));
                assert(self.draws_resized(
                    result.data@,
                    handed,
                    self.size_aspect_ratio_spec((image.width, image.height)),
                    char_set@,
                ));
                let ghost cells = result.data@;
                let r = Some(result);
                assert(r->0.data@ == cells);
                r
            },
            None => None,
        }
    }

    /// Draw, at the size `size` of the output, an image that was brought to
    /// the pixels that the output stands for.
    ///
    /// Light and dark of the image are exchanged where the settings invert.
    /// Its grey levels then give the characters, and the image brought to the
    /// size of the output gives their colours; an image that has the size of
    /// the output already gives them as it is. Nothing is drawn where
    /// `can_draw` does not hold.
    pub fn convert_resized(&self, resized: RgbImage, size: (u32, u32), char_set: &str) -> (r:
        Option<AnsiImageResult>)
        requires
            resized.wf(),
        ensures
            r is Some <==> self.can_draw((resized.width, resized.height), size),
            r is Some ==> self.draws_resized(r->0.data@, resized, size, char_set@),
    {
        let scale: (u32, u32) = self.sampling();
        proof {
            crate::image_buffer::lemma_area_fits(size.0, scale.0);
            crate::image_buffer::lemma_area_fits(size.1, scale.1);
        }
        if size.0 as u64 * scale.0 as u64 != resized.width as u64 || size.1 as u64 * scale.1 as u64
            != resized.height as u64 {
            return None;
        }
        let mut shown = resized;
        if self.invert {
            invert(&mut shown);
        }
        let ghost inverted_image = shown;
        assert(is_inverted_if(self.invert, resized, inverted_image));
        let luma = to_luma8(&shown);
        let rgb = match resize_exact(&shown, size.0, size.1, self.filter) {
            Some(rgb) => rgb,
            None => {
                return None;
            },
        };
        proof {
            assert(self.is_prepared(resized, luma)) by {
                assert forall|i: int| 0 <= i < resized.data@.len() implies
                    #[trigger] luma.data@[i] == luma_level(
                    inverted_if(self.invert, resized.data@[i]),
                ) by {
                    assert(inverted_image.data@[i] == inverted_if(self.invert, resized.data@[i]));
                }
            }
            if size == (resized.width, resized.height) {
                assert(rgb.data@ == inverted_image.data@);
                assert(is_inverted_if(self.invert, resized, rgb));
            }
        }
        let result = self.render(&rgb, &luma, char_set);
        assert(self.draws(result.data@, rgb, luma, char_set@));
        let ghost cells = result.data@;
        let r = Some(result);
        assert(r->0.data@ == cells);
        r
    }

    /// Draw the colour image `rgb` and the grey image `luma` with the
    /// characters of `char_set`, in the mode of these settings. The grey
    /// image holds, for each pixel of the colour image, the patch that the
    /// mode looks at.
    pub fn render(&self, rgb: &RgbImage, luma: &GrayImage, char_set: &str) -> (r: AnsiImageResult)
        requires
            rgb.wf(),
            luma.wf(),
            luma.width == rgb.width * ascii_scale(self.mode).0,
            luma.height == rgb.height * ascii_scale(self.mode).1,
        ensures
            self.draws(r.data@, *rgb, *luma, char_set@),
    {
        let ghost scale = ascii_scale(self.mode);
        match self.mode {
            AsciiMode::Gradient => {
                assert(rgb.width * scale.0 == rgb.width && rgb.height * scale.1 == rgb.height)
                    by (nonlinear_arith)
                    requires
                        scale == (1u32, 1u32),
                ;
                let chars: Vec<char> = characters(char_set);
                self.ascii_gradient(rgb, luma, &chars)
            },
            AsciiMode::PatternQuadrance => {
                let ascii_font_set: Vec<AsciiFont> = font_set(char_set);
                self.ascii_pattern_quadrance(rgb, luma, &ascii_font_set)
            },
            AsciiMode::PatternSsim => {
                let ascii_font_set: Vec<AsciiFont> = font_set(char_set);
                self.ascii_pattern_ssim(rgb, luma, &ascii_font_set)
            },
        }
    }

    /// Draw an image with the glyphs of `font_set`, each character the one
    /// whose glyph has the least quadrance to its patch of the grey image.
    pub fn ascii_pattern_quadrance(
        &self,
        rgb: &RgbImage,
        luma: &GrayImage,
        font_set: &Vec<AsciiFont>,
    ) -> (r: AnsiImageResult)
        requires
            rgb.wf(),
            luma.wf(),
            luma.width == rgb.width * 5,
            luma.height == rgb.height * 7,
        ensures
            is_rows(
                r.data@,
                rgb.width as int,
                rgb.height as int,
                |x: int, y: int| self.quadrance_cell(*rgb, *luma, font_set@, x, y),
                |y: int| line_end(),
            ),
    {
        let width: u32 = rgb.width;
        let height: u32 = rgb.height;
        let cell = |x: u32, y: u32| -> (c: StyledCell)
            requires
                x < width,
                y < height,
            ensures
                c == self.quadrance_cell(*rgb, *luma, font_set@, x as int, y as int),
            {
                let p: (u8, u8, u8) = *rgb.get_pixel(x, y);
                let style = self.get_style(p.0, p.1, p.2);
                let ch: char = window_analysis_quadrance(luma, x, y, font_set);
                style.paint(ch)
            };
        let end = |y: u32| -> (c: StyledCell)
            ensures
                c == line_end(),
            { Style::new().paint('\n') };
        let data = build(width, height, cell, end);
        AnsiImageResult { data }
    }

    /// Draw an image with the glyphs of `font_set`, each character the one
    /// whose glyph is most similar in structure to its patch of the grey
    /// image.
    pub fn ascii_pattern_ssim(
        &self,
        rgb: &RgbImage,
        luma: &GrayImage,
        font_set: &Vec<AsciiFont>,
    ) -> (r: AnsiImageResult)
        requires
            rgb.wf(),
            luma.wf(),
            luma.width == rgb.width * 5,
            luma.height == rgb.height * 7,
        ensures
            is_rows(
                r.data@,
                rgb.width as int,
                rgb.height as int,
                |x: int, y: int| self.ssim_cell(*rgb, *luma, font_set@, x, y),
                |y: int| line_end(),
            ),
    {
        let width: u32 = rgb.width;
        let height: u32 = rgb.height;
        let cell = |x: u32, y: u32| -> (c: StyledCell)
            requires
                x < width,
                y < height,
            ensures
                c == self.ssim_cell(*rgb, *luma, font_set@, x as int, y as int),
            {
                let p: (u8, u8, u8) = *rgb.get_pixel(x, y);
                let style = self.get_style(p.0, p.1, p.2);
                let ch: char = window_analysis_ssim(luma, x, y, font_set);
                style.paint(ch)
            };
        let end = |y: u32| -> (c: StyledCell)
            ensures
                c == line_end(),
            { Style::new().paint('\n') };
        let data = build(width, height, cell, end);
        AnsiImageResult { data }
    }

    /// Draw an image with the characters of `char_set`, each character the
    /// one whose place in `char_set` matches the grey level of its pixel.
    pub fn ascii_gradient(&self, rgb: &RgbImage, luma: &GrayImage, char_set: &Vec<char>) -> (r:
        AnsiImageResult)
        requires
            rgb.wf(),
            luma.wf(),
            luma.width == rgb.width,
            luma.height == rgb.height,
        ensures
            is_rows(
                r.data@,
                rgb.width as int,
                rgb.height as int,
                |x: int, y: int| self.gradient_cell(*rgb, *luma, char_set@, x, y),
                |y: int| line_end(),
            ),
    {
        let width: u32 = rgb.width;
        let height: u32 = rgb.height;
        let cell = |x: u32, y: u32| -> (c: StyledCell)
            requires
                x < width,
                y < height,
            ensures
                c == self.gradient_cell(*rgb, *luma, char_set@, x as int, y as int),
            {
                let p: (u8, u8, u8) = *rgb.get_pixel(x, y);
                let style = self.get_style(p.0, p.1, p.2);
                let ch: char = luma_mapping(luma, x, y, char_set);
                style.paint(ch)
            };
        let end = |y: u32| -> (c: StyledCell)
            ensures
                c == line_end(),
            { Style::new().paint('\n') };
        let data = build(width, height, cell, end);
        AnsiImageResult { data }
    }
}

/// The characters of a string, in their order.
pub fn characters(text: &str) -> (chars: Vec<char>)
    ensures
        chars@ == text@,
{
    let n: usize = text.unicode_len();
    let mut chars: Vec<char> = Vec::new();
    let mut i: usize = 0;
    while i < n
        invariant
            i <= n,
            n == text@.len(),
            chars@ == text@.subrange(0, i as int),
        decreases n - i,
    {
        chars.push(text.get_char(i));
        assert(chars@ =~= text@.subrange(0, i + 1));
        i += 1;
    }
    assert(chars@ =~= text@);
    chars
}

/// The patch of 5 by 7 grey levels that the character in column `x` of row
/// `y` stands for, as a bitmap.
fn sample(win: &GrayImage, x: u32, y: u32) -> (font: AsciiFont)
    requires
        win.wf(),
        5 * x + 5 <= win.width,
        7 * y + 7 <= win.height,
    ensures
        font.data@ == patch(*win, x as int, y as int),
{
    let mut data: [u8; 35] = [0u8; 35];
    let mut j: u32 = 0;
    while j < 7
        invariant
            j <= 7,
            win.wf(),
            5 * x + 5 <= win.width,
            7 * y + 7 <= win.height,
            forall|k: int| 0 <= k < j * 5 ==> data@[k] == patch(*win, x as int, y as int)[k],
        decreases 7 - j,
    {
        let mut i: u32 = 0;
        while i < 5
            invariant
                i <= 5,
                j < 7,
                win.wf(),
                5 * x + 5 <= win.width,
                7 * y + 7 <= win.height,
                forall|k: int|
                    0 <= k < j * 5 + i ==> data@[k] == patch(*win, x as int, y as int)[k],
            decreases 5 - i,
        {
            let index: usize = (j * 5 + i) as usize;
            assert(index as int % 5 == i && index as int / 5 == j);
            data[index] = *win.get_pixel(5 * x + i, 7 * y + j);
            i += 1;
        }
        j += 1;
    }
    assert(data@ =~= patch(*win, x as int, y as int));
    AsciiFont { ch: ' ', data }
}

/// The character of `font_set` whose glyph has the least quadrance to the
/// patch that the character in column `x` of row `y` stands for.
pub fn window_analysis_quadrance(win: &GrayImage, x: u32, y: u32, font_set: &Vec<AsciiFont>) -> (ch:
    char)
    requires
        win.wf(),
        5 * x + 5 <= win.width,
        7 * y + 7 <= win.height,
    ensures
        ch == nearest_by_quadrance(patch(*win, x as int, y as int), font_set@),
{
    let font = sample(win, x, y);
    minimize_quadrance(&font, font_set)
}

/// The character of `font_set` whose glyph is most similar in structure to
/// the patch that the character in column `x` of row `y` stands for.
pub fn window_analysis_ssim(win: &GrayImage, x: u32, y: u32, font_set: &Vec<AsciiFont>) -> (ch:
    char)
    requires
        win.wf(),
        5 * x + 5 <= win.width,
        7 * y + 7 <= win.height,
    ensures
        ch == nearest_by_ssim(patch(*win, x as int, y as int), font_set@),
{
    let font = sample(win, x, y);
    maximize_structural_similarity(&font, font_set)
}

/// The character of `char_set` for the grey level of the pixel in column `x`
/// of row `y`: level 0 gives the first character, level 255 the last, and the
/// levels between them the characters between them, evenly. An empty
/// `char_set` gives the space.
pub fn luma_mapping(luma: &GrayImage, x: u32, y: u32, char_set: &Vec<char>) -> (ch: char)
    requires
        luma.wf(),
        x < luma.width,
        y < luma.height,
    ensures
        ch == gradient_char(luma.pixel(x as int, y as int), char_set@),
{
    let p: u8 = *luma.get_pixel(x, y);
    let len: usize = char_set.len();
    if len == 0 {
        return ' ';
    }
    let last: u128 = (len - 1) as u128;
    assert(p * last / 255 <= last) by (nonlinear_arith)
        requires
            0 <= p <= 255,
            0 <= last,
    ;
    assert(0 <= p * last <= 255 * 0xFFFF_FFFF_FFFF_FFFF) by (nonlinear_arith)
        requires
            0 <= p <= 255,
            0 <= last <= 0xFFFF_FFFF_FFFF_FFFF,
    ;
    let index: u128 = p as u128 * last / 255;
    char_set[index as usize]
}

} // verus!
