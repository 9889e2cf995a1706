//! Drawing an image with coloured blocks.
//!
//! In the whole mode each character is a space on the colour of one pixel.
//! In the half mode each character is an upper half block: its own colour is
//! that of a pixel, the colour behind it that of the pixel below.
use crate::ansi::{AnsiImage, AnsiImageResult, Color, Style, StyledCell};
use crate::grid::{build, is_rows};
use crate::image_buffer::RgbImage;
use crate::image_window::{
    fits,
    is_split,
    lemma_split_wf,
    RgbImageWindow,
    RgbWindow,
    Windowing,
};
use crate::imageops::{brighten, invert, is_brightened, is_inverted_if};
use crate::terminal_colors::{nearest_index, TermColor};
use vstd::prelude::*;

verus! {

/// How the blocks are coloured.
#[derive(Debug, Clone, Copy, PartialEq, Eq)]
pub enum BlockColor {
    /// With the colours of the pixels.
    Truecolor,
    /// With the colours of the terminal's palette nearest to the pixels'.
    Terminalcolor,
}

/// What a block stands for.
#[derive(Debug, Clone, Copy, PartialEq, Eq)]
pub enum BlockMode {
    /// One pixel.
    Whole,
    /// Two pixels, one above the other.
    Half,
}

impl Default for BlockColor {
    fn default() -> (r: Self)
        ensures
            r == BlockColor::Truecolor,
    {
        BlockColor::Truecolor
    }
}

impl Default for BlockMode {
    fn default() -> (r: Self)
        ensures
            r == BlockMode::Half,
    {
        BlockMode::Half
    }
}

/// The settings for drawing with blocks.
pub type AnsiBlock = AnsiImage<BlockMode, BlockColor>;

/// The pixels across and down that one block stands for.
pub open spec fn block_scale(mode: BlockMode) -> (u32, u32) {
    match mode {
        BlockMode::Whole => (1, 1),
        BlockMode::Half => (1, 2),
    }
}

/// The upper half block.
pub const UPPER_BLOCK: char = '\u{2580}';

impl AnsiBlock {
    /// The colours of a block in front of which lies `front` and behind
    /// which lies `back`.
    pub open spec fn color_of(&self, front: (u8, u8, u8), back: (u8, u8, u8)) -> Style {
        match self.color {
            BlockColor::Truecolor => Style {
                foreground: Some(Color::RGB(front.0, front.1, front.2)),
                background: Some(Color::RGB(back.0, back.1, back.2)),
                ..Style::plain()
            },
            BlockColor::Terminalcolor => Style {
                foreground: Some(Color::Fixed(nearest_index(front))),
                background: Some(Color::Fixed(nearest_index(back))),
                ..Style::plain()
            },
        }
    }

    /// The style of a block in front of which lies `front` and behind which
    /// lies `back`.
    pub open spec fn style_of(&self, front: (u8, u8, u8), back: (u8, u8, u8)) -> Style {
        self.color_of(front, back).marked(self.bold, self.blink, self.underline)
    }

    /// The style of the block for a window, in the whole mode: black on the
    /// colour of the window's pixel.
    pub open spec fn whole_style(&self, window: RgbWindow) -> Style {
        self.style_of((0, 0, 0), window.pixel(0, 0))
    }

    /// The style of the block for a window, in the half mode: the colour of
    /// the upper pixel on the colour of the lower.
    pub open spec fn half_style(&self, window: RgbWindow) -> Style {
        self.style_of(window.pixel(0, 0), window.pixel(0, 1))
    }

    /// Whether `cells` is the drawing of the windows `rgb` in the whole mode:
    /// a space for each window, and after each row a line end in the style of
    /// the row's last block.
    pub open spec fn draws_whole(&self, cells: Seq<StyledCell>, rgb: RgbImageWindow) -> bool {
        let per_row = rgb.windows_per_row as int;
        is_rows(
            cells,
            per_row,
            rgb.windows_per_col as int,
            |x: int, y: int|
                StyledCell { style: self.whole_style(rgb.windows@[y * per_row + x]), text: ' ' },
            |y: int|
                StyledCell {
                    style: self.whole_style(rgb.windows@[y * per_row + per_row - 1]),
                    text: '\n',
                },
        )
    }

    /// Whether `cells` is the drawing of the windows `rgb` in the half mode:
    /// an upper half block for each window, and after each row a line end in
    /// the style of the row's last block.
    pub open spec fn draws_half(&self, cells: Seq<StyledCell>, rgb: RgbImageWindow) -> bool {
        let per_row = rgb.windows_per_row as int;
        is_rows(
            cells,
            per_row,
            rgb.windows_per_col as int,
            |x: int, y: int|
                StyledCell {
                    style: self.half_style(rgb.windows@[y * per_row + x]),
                    text: UPPER_BLOCK,
                },
            |y: int|
                StyledCell {
                    style: self.half_style(rgb.windows@[y * per_row + per_row - 1]),
                    text: '\n',
                },
        )
    }

    /// Whether `cells` is the drawing of the image `rgb` in the mode of these
    /// settings: of its windows of one pixel in the whole mode, of its
    /// windows of two pixels, one above the other, in the half mode.
    pub open spec fn draws(&self, cells: Seq<StyledCell>, rgb: RgbImage) -> bool {
        exists|windows: RgbImageWindow|
            {
                &&& #[trigger] is_split(
                    windows,
                    rgb,
                    block_scale(self.mode).0,
                    block_scale(self.mode).1,
                )
                &&& match self.mode {
                    BlockMode::Whole => self.draws_whole(cells, windows),
                    BlockMode::Half => self.draws_half(cells, windows),
                }
            }
    }

    /// Whether `cells` is the drawing of the image `rgb` with these settings:
    /// of the image with light and dark exchanged where the settings invert,
    /// of the image as it is where they do not.
    pub open spec fn renders(&self, cells: Seq<StyledCell>, rgb: RgbImage) -> bool {
        exists|drawn: RgbImage|
            #[trigger] is_inverted_if(self.invert, rgb, drawn) && self.draws(cells, drawn)
    }

    /// Whether an image of the given size can be converted with these
    /// settings: the output is not empty, and the image and what it is
    /// resized to can be held.
    pub open spec fn can_convert(&self, image_dimensions: (u32, u32)) -> bool {
        (Self { scale: block_scale(self.mode), ..*self }).can_resize(image_dimensions)
    }

    /// These settings, colouring each block as its pixels.
    pub fn true_color(&self) -> (r: Self)
        ensures
            r == (Self { color: BlockColor::Truecolor, ..*self }),
    {
        Self { color: BlockColor::Truecolor, ..*self }
    }

    /// These settings, colouring each block with the colours of the
    /// terminal's palette nearest to its pixels.
    pub fn terminal_color(&self) -> (r: Self)
        ensures
            r == (Self { color: BlockColor::Terminalcolor, ..*self }),
    {
        Self { color: BlockColor::Terminalcolor, ..*self }
    }

    /// These settings, with a block for two pixels, one above the other.
    pub fn half(&self) -> (r: Self)
        ensures
            r == (Self { mode: BlockMode::Half, scale: (1u32, 2u32), ..*self }),
    {
        Self { mode: BlockMode::Half, scale: (1, 2), ..*self }
    }

    /// These settings, with a block for each pixel.
    pub fn whole(&self) -> (r: Self)
        ensures
            r == (Self { mode: BlockMode::Whole, scale: (1u32, 1u32), ..*self }),
    {
        Self { mode: BlockMode::Whole, scale: (1, 1), ..*self }
    }

    /// The colours of a block in front of which lies the colour `(r, g, b)`
    /// and behind which lies the colour `(br, bg, bb)`.
    pub fn get_color(&self, r: u8, g: u8, b: u8, br: u8, bg: u8, bb: u8) -> (style: Style)
        ensures
            style == self.color_of((r, g, b), (br, bg, bb)),
    {
        match self.color {
            BlockColor::Truecolor => Color::RGB(r, g, b).on(Color::RGB(br, bg, bb)),
            BlockColor::Terminalcolor => {
                let frgd_index: u8 = TermColor::from(r, g, b).index;
                let bkgd_index: u8 = TermColor::from(br, bg, bb).index;
                Color::Fixed(frgd_index).on(Color::Fixed(bkgd_index))
            },
        }
    }

    /// The style of a block: its colours, and the marks of the settings.
    pub fn get_style(&self, r: u8, g: u8, b: u8, br: u8, bg: u8, bb: u8) -> (style: Style)
        ensures
            style == self.style_of((r, g, b), (br, bg, bb)),
    {
        let style = self.get_color(r, g, b, br, bg, bb);
        self.with_marks(style)
    }

    /// The pixels across and down that one block stands for in the mode of
    /// these settings.
    pub fn sampling(&self) -> (scale: (u32, u32))
        ensures
            scale == block_scale(self.mode),
    {
        match self.mode {
            BlockMode::Whole => (1, 1),
            BlockMode::Half => (1, 2),
        }
    }

    /// Draw an image with blocks.
    ///
    /// The image is made brighter as the settings say and brought to the size
    /// of the output times the pixels that a block stands for; an image that
    /// has that size already is not resampled. What comes of it is drawn as
    /// `render` says, inverted where the settings say so. Nothing is drawn
    /// where `can_convert` does not hold.
    pub fn convert(&self, image: &RgbImage) -> (r: Option<AnsiImageResult>)
        requires
            image.wf(),
        ensures
            r is Some <==> self.can_convert((image.width, image.height)),
            r is Some ==> exists|resized: RgbImage|
                {
                    &&& #[trigger] self.renders(r->0.data@, resized)
                    &&& resized.wf()
                    &&& (resized.width as int, resized.height as int) == (Self {
                        scale: block_scale(self.mode),
                        ..*self
                    }).working_size((image.width, image.height))
                    &&& (resized.width, resized.height) == (image.width, image.height)
                        ==> is_brightened(*image, self.brighten, resized)
                },
    {
        let settings = Self { scale: self.sampling(), ..*self };
        let bright = brighten(image, self.brighten);
        let resized = match settings.image_resize_with_scale(&bright) {
            Some(resized) => resized,
            None => {
                return None;
            },
        };
        let ghost handed = resized;
        proof {
            let size = settings.size_aspect_ratio_spec((image.width, image.height));
            lemma_scaled_fits(size.0, block_scale(self.mode).0, resized.width);
            lemma_scaled_fits(size.1, block_scale(self.mode).1, resized.height);
            if (resized.width, resized.height) == (image.width, image.height) {
                assert(resized.data@ == bright.data@);
                assert(is_brightened(*image, self.brighten, handed));
            }
        }
        match self.render(resized) {
            Some(result) => {
                assert(self.renders(result.data@, handed));
                let ghost cells = result.data@;
                let r = Some(result);
                assert(r->0.data@ == cells);
                r
            },
            None => None,
        }
    }

    /// Draw an image in the mode of these settings, with light and dark
    /// exchanged where the settings invert. Nothing is drawn where the image
    /// is smaller than the pixels that a block stands for.
    pub fn render(&self, rgb: RgbImage) -> (r: Option<AnsiImageResult>)
        requires
            rgb.wf(),
        ensures
            r is Some <==> fits(
                block_scale(self.mode).0,
                block_scale(self.mode).1,
                rgb.width,
                rgb.height,
            ),
            r is Some ==> self.renders(r->0.data@, rgb),
    {
        let mut drawn = rgb;
        if self.invert {
            invert(&mut drawn);
        }
        let ghost shown = drawn;
        assert(is_inverted_if(self.invert, rgb, shown));
        match self.mode {
            BlockMode::Half => {
                match drawn.to_window(1, 2) {
                    Some(rgb_window) => {
                        proof {
                            lemma_split_wf(rgb_window, shown, 1, 2);
                        }
                        let result = self.convertion_half(&rgb_window);
                        assert(is_split(
                            rgb_window,
                            shown,
                            block_scale(self.mode).0,
                            block_scale(self.mode).1,
                        ));
                        assert(self.draws(result.data@, shown));
                        Some(result)
                    },
                    None => None,
                }
            },
            BlockMode::Whole => {
                match drawn.to_window(1, 1) {
                    Some(rgb_window) => {
                        proof {
                            lemma_split_wf(rgb_window, shown, 1, 1);
                        }
                        let result = self.convertion_whole(&rgb_window);
                        assert(is_split(
                            rgb_window,
                            shown,
                            block_scale(self.mode).0,
                            block_scale(self.mode).1,
                        ));
                        assert(self.draws(result.data@, shown));
                        Some(result)
                    },
                    None => None,
                }
            },
        }
    }

    /// Draw windows of one pixel and more: a space on the colour of each
    /// window's first pixel.
    pub fn convertion_whole(&self, rgb: &RgbImageWindow) -> (r: AnsiImageResult)
        requires
            rgb.wf(),
            forall|k: int|
                0 <= k < rgb.windows@.len() ==> (#[trigger] rgb.windows@[k]).width >= 1
                    && rgb.windows@[k].height >= 1,
        ensures
            self.draws_whole(r.data@, *rgb),
    {
        let rows = rgb.rows();
        let width: u32 = rgb.windows_per_row;
        let height: u32 = rgb.windows_per_col;
        let cell = |x: u32, y: u32| -> (c: StyledCell)
            requires
                x < width,
                y < height,
            ensures
                c == (StyledCell {
                    style: self.whole_style(rgb.windows@[y * width + x]),
                    text: ' ',
                }),
            {
                proof {
                    crate::grid::lemma_grid_index(x as int, y as int, width as int, height as int);
                }
                let window: &RgbWindow = rows[y as usize][x as usize];
                assert(*window == rgb.windows@[y * width + x]);
                let p: (u8, u8, u8) = *window.get_pixel(0, 0);
                self.get_style(0, 0, 0, p.0, p.1, p.2).paint(' ')
            };
        let end = |y: u32| -> (c: StyledCell)
            requires
                y < height,
            ensures
                c == (StyledCell {
                    style: self.whole_style(rgb.windows@[y * width + width - 1]),
                    text: '\n',
                }),
            {
                proof {
                    crate::grid::lemma_grid_index(
                        width as int - 1,
                        y as int,
                        width as int,
                        height as int,
                    );
                }
                let window: &RgbWindow = rows[y as usize][(width - 1) as usize];
                assert(*window == rgb.windows@[y * width + (width - 1)]);
                let p: (u8, u8, u8) = *window.get_pixel(0, 0);
                self.get_style(0, 0, 0, p.0, p.1, p.2).paint('\n')
            };
        let data = build(width, height, cell, end);
        AnsiImageResult { data }
    }

    /// Draw windows of one pixel across and two down, and more: an upper
    /// half block in the colour of each window's first pixel, on the colour
    /// of the pixel below it.
    pub fn convertion_half(&self, rgb: &RgbImageWindow) -> (r: AnsiImageResult)
        requires
            rgb.wf(),
            forall|k: int|
                0 <= k < rgb.windows@.len() ==> (#[trigger] rgb.windows@[k]).width >= 1
                    && rgb.windows@[k].height >= 2,
        ensures
            self.draws_half(r.data@, *rgb),
    {
        let rows = rgb.rows();
        let width: u32 = rgb.windows_per_row;
        let height: u32 = rgb.windows_per_col;
        let cell = |x: u32, y: u32| -> (c: StyledCell)
            requires
                x < width,
                y < height,
            ensures
                c == (StyledCell {
                    style: self.half_style(rgb.windows@[y * width + x]),
                    text: UPPER_BLOCK,
                }),
            {
                proof {
                    crate::grid::lemma_grid_index(x as int, y as int, width as int, height as int);
                }
                let window: &RgbWindow = rows[y as usize][x as usize];
                assert(*window == rgb.windows@[y * width + x]);
                let upper: (u8, u8, u8) = *window.get_pixel(0, 0);
                let lower: (u8, u8, u8) = *window.get_pixel(0, 1);
                self.get_style(upper.0, upper.1, upper.2, lower.0, lower.1, lower.2).paint(
                    UPPER_BLOCK,
                )
            };
        let end = |y: u32| -> (c: StyledCell)
            requires
                y < height,
            ensures
                c == (StyledCell {
                    style: self.half_style(rgb.windows@[y * width + width - 1]),
                    text: '\n',
                }),
            {
                proof {
                    crate::grid::lemma_grid_index(
                        width as int - 1,
                        y as int,
                        width as int,
                        height as int,
                    );
                }
                let window: &RgbWindow = rows[y as usize][(width - 1) as usize];
                assert(*window == rgb.windows@[y * width + (width - 1)]);
                let upper: (u8, u8, u8) = *window.get_pixel(0, 0);
                let lower: (u8, u8, u8) = *window.get_pixel(0, 1);
                self.get_style(upper.0, upper.1, upper.2, lower.0, lower.1, lower.2).paint('\n')
            };
        let data = build(width, height, cell, end);
        AnsiImageResult { data }
    }
}

/// A size times a scale that is not 0 is at least the scale.
proof fn lemma_scaled_fits(size: u32, scale: u32, length: u32)
    requires
        0 < length == size * scale,
        0 < scale,
    ensures
        scale <= length,
{
    assert(scale <= size * scale) by (nonlinear_arith)
        requires
            0 < size * scale,
            0 < scale,
            0 <= size,
    ;
}

} // verus!
