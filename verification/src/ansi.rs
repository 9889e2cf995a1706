//! What is common to every way of drawing an image with characters: the
//! settings of a conversion, the styled characters that come out of it, and
//! their text with the escape sequences that a terminal understands.
use crate::func::{actual_size, get_actual_size};
use crate::image_buffer::RgbImage;
use crate::imageops::{can_hold, resize_exact};
use vstd::prelude::*;

verus! {

/// A colour of a terminal: one of the 256 of its palette, or red, green and
/// blue levels.
#[derive(Debug, Clone, Copy, PartialEq, Eq)]
pub enum Color {
    Fixed(u8),
    RGB(u8, u8, u8),
}

/// How a character is shown.
#[derive(Debug, Clone, Copy, PartialEq, Eq)]
pub struct Style {
    pub foreground: Option<Color>,
    pub background: Option<Color>,
    pub is_bold: bool,
    pub is_blink: bool,
    pub is_underline: bool,
}

/// A character with its style. The end of a row is the character `'\n'`.
#[derive(Debug, Clone, Copy, PartialEq, Eq)]
pub struct StyledCell {
    pub style: Style,
    pub text: char,
}

/// The outcome of a conversion: the cells row by row, each row closed by a
/// line end.
#[derive(Debug, Clone, PartialEq, Eq)]
pub struct AnsiImageResult {
    pub data: Vec<StyledCell>,
}

/// The way an image is resampled when its size changes.
#[derive(Debug, Clone, Copy, PartialEq, Eq)]
pub enum FilterType {
    CatmullRom,
    Gaussian,
    Lanczos3,
    Nearest,
    Triangle,
}

/// The settings of a conversion, for a way of drawing `T` and a way of
/// colouring `S`.
#[derive(Debug)]
pub struct AnsiImage<T, S> {
    pub invert: bool,
    pub bold: bool,
    pub blink: bool,
    pub underline: bool,
    pub has_foreground: bool,
    pub has_background: bool,
    pub has_threshold: bool,
    pub foreground: (u8, u8, u8),
    pub background: (u8, u8, u8),
    pub threshold: u8,
    pub brighten: i32,
    pub filter: FilterType,
    /// The size of the output in characters; 0 leaves a side open.
    pub size: (u32, u32),
    /// The pixels that one character stands for, across and down.
    pub scale: (u32, u32),
    pub color: S,
    pub mode: T,
}

/// The text that a terminal shows as the given cells: their characters, with
/// the escape sequences that switch from each cell's style to the next.
pub uninterp spec fn ansi_text(cells: Seq<StyledCell>) -> Seq<char>;

/// The cell that closes a row where the line end carries no style.
pub open spec fn line_end() -> StyledCell {
    StyledCell { style: Style::plain(), text: '\n' }
}

/// The filter that a name stands for; an unknown name stands for `Nearest`.
pub open spec fn filter_named(name: Seq<char>) -> FilterType {
    if name == "CATMULLROM"@ {
        FilterType::CatmullRom
    } else if name == "GAUSSIAN"@ {
        FilterType::Gaussian
    } else if name == "LANCZOS"@ {
        FilterType::Lanczos3
    } else if name == "TRIANGLE"@ {
        FilterType::Triangle
    } else {
        FilterType::Nearest
    }
}

impl Color {
    /// The style with this colour in front and nothing else.
    pub fn normal(self) -> (style: Style)
        ensures
            style == (Style { foreground: Some(self), ..Style::plain() }),
    {
        Style {
            foreground: Some(self),
            background: None,
            is_bold: false,
            is_blink: false,
            is_underline: false,
        }
    }

    /// The style with this colour in front of the colour `background`.
    pub fn on(self, background: Color) -> (style: Style)
        ensures
            style == (Style {
                foreground: Some(self),
                background: Some(background),
                ..Style::plain()
            }),
    {
        Style {
            foreground: Some(self),
            background: Some(background),
            is_bold: false,
            is_blink: false,
            is_underline: false,
        }
    }
}

impl Style {
    /// The style that changes nothing.
    pub open spec fn plain() -> Style {
        Style {
            foreground: None,
            background: None,
            is_bold: false,
            is_blink: false,
            is_underline: false,
        }
    }

    /// This style with the three marks set that are asked for.
    pub open spec fn marked(self, bold: bool, blink: bool, underline: bool) -> Style {
        Style {
            is_bold: self.is_bold || bold,
            is_blink: self.is_blink || blink,
            is_underline: self.is_underline || underline,
            ..self
        }
    }

    /// The style that changes nothing.
    pub fn new() -> (style: Style)
        ensures
            style == Style::plain(),
    {
        Style {
            foreground: None,
            background: None,
            is_bold: false,
            is_blink: false,
            is_underline: false,
        }
    }

    /// This style, in bold.
    pub fn bold(&self) -> (style: Style)
        ensures
            style == (Style { is_bold: true, ..*self }),
    {
        Style { is_bold: true, ..*self }
    }

    /// This style, blinking.
    pub fn blink(&self) -> (style: Style)
        ensures
            style == (Style { is_blink: true, ..*self }),
    {
        Style { is_blink: true, ..*self }
    }

    /// This style, underlined.
    pub fn underline(&self) -> (style: Style)
        ensures
            style == (Style { is_underline: true, ..*self }),
    {
        Style { is_underline: true, ..*self }
    }

    /// The cell that shows `text` in this style.
    pub fn paint(&self, text: char) -> (cell: StyledCell)
        ensures
            cell == (StyledCell { style: *self, text }),
    {
        StyledCell { style: *self, text }
    }
}

/// `ANSIStrings` of the crate `ansi_term`, shown as text: the characters of
/// the cells in their order, before each the escape sequence that leads from
/// the style of the cell before it to its own, and a reset at the end where
/// the last style is not plain. The text depends on the cells alone.
#[verifier::external_body]
fn paint_all(cells: &Vec<StyledCell>) -> (text: String)
    ensures
        text@ == ansi_text(cells@),
{
    let colour = |c: &Color| match *c {
        Color::Fixed(index) => ansi_term::Colour::Fixed(index),
        Color::RGB(r, g, b) => ansi_term::Colour::RGB(r, g, b),
    };
    let painted: Vec<ansi_term::ANSIString> = cells.iter().map(|cell| ansi_term::Style {
        foreground: cell.style.foreground.as_ref().map(colour),
        background: cell.style.background.as_ref().map(colour),
        is_bold: cell.style.is_bold,
        is_blink: cell.style.is_blink,
        is_underline: cell.style.is_underline,
        ..ansi_term::Style::new()
    }.paint(cell.text.to_string())).collect();
    ansi_term::ANSIStrings(&painted).to_string()
}

/// `terminal_size` of the crate of that name: the columns and rows of the
/// terminal that the standard output is, where it is one. Nothing is known of
/// the outcome beforehand.
#[verifier::external_body]
pub(crate) fn terminal_dimensions() -> (r: Option<(u16, u16)>) {
    terminal_size::terminal_size().map(|(w, h)| (w.0, h.0))
}

impl AnsiImageResult {
    /// The result with no cell.
    pub fn new() -> (r: Self)
        ensures
            r.data@ == Seq::<StyledCell>::empty(),
    {
        AnsiImageResult { data: Vec::new() }
    }

    /// The text that shows the result on a terminal.
    pub fn to_ansi_string(&self) -> (text: String)
        ensures
            text@ == ansi_text(self.data@),
    {
        paint_all(&self.data)
    }
}

/// The settings that every way of drawing shares.
pub trait Ansinator: Sized {
    /// The settings before any was chosen.
    fn new() -> Self;

    /// These settings with the style marks, the fixed colours, the threshold
    /// and the inversion taken back.
    fn normal(&self) -> Self;

    /// These settings, with bold characters.
    fn bold(&self) -> Self;

    /// These settings, with blinking characters.
    fn blink(&self) -> Self;

    /// These settings, with underlined characters.
    fn underline(&self) -> Self;

    /// These settings, with a fixed colour for the characters.
    fn set_foreground(&self, foreground: (u8, u8, u8)) -> Self;

    /// These settings, with a fixed colour behind the characters.
    fn set_background(&self, background: (u8, u8, u8)) -> Self;

    /// These settings, with light and dark exchanged.
    fn invert(&self) -> Self;

    /// These settings, with the image made brighter by `value`.
    fn brighten(&self, value: i32) -> Self;

    /// These settings, with the filter of the given name.
    fn filter(&self, filter: &str) -> Self;

    /// These settings, with the size of the terminal where it is known.
    fn fullscreen(&self) -> Self;

    /// These settings, with the given size of the output.
    fn size(&self, x: u32, y: u32) -> Self;
}

impl<T: Default + Copy, S: Default + Copy> Ansinator for AnsiImage<T, S> {
    fn new() -> (r: Self)
        ensures
            call_ensures(S::default, (), r.color),
            call_ensures(T::default, (), r.mode),
            !r.invert && !r.bold && !r.blink && !r.underline,
            !r.has_foreground && !r.has_background && !r.has_threshold,
            r.foreground == (255u8, 255u8, 255u8),
            r.background == (0u8, 0u8, 0u8),
            r.threshold == 127,
            r.size == (0u32, 0u32),
            r.scale == (1u32, 1u32),
            r.brighten == 0,
            r.filter == FilterType::Nearest,
    {
        Self {
            color: S::default(),
            mode: T::default(),
            invert: false,
            bold: false,
            blink: false,
            underline: false,
            has_foreground: false,
            has_background: false,
            has_threshold: false,
            foreground: (255, 255, 255),
            background: (0, 0, 0),
            threshold: 127,
            size: (0, 0),
            scale: (1, 1),
            brighten: 0,
            filter: FilterType::Nearest,
        }
    }

    fn bold(&self) -> (r: Self)
        ensures
            r == (Self { bold: true, ..*self }),
    {
        Self { bold: true, ..*self }
    }

    fn blink(&self) -> (r: Self)
        ensures
            r == (Self { blink: true, ..*self }),
    {
        Self { blink: true, ..*self }
    }

    fn underline(&self) -> (r: Self)
        ensures
            r == (Self { underline: true, ..*self }),
    {
        Self { underline: true, ..*self }
    }

    fn invert(&self) -> (r: Self)
        ensures
            r == (Self { invert: true, ..*self }),
    {
        Self { invert: true, ..*self }
    }

    fn normal(&self) -> (r: Self)
        ensures
            r == (Self {
                invert: false,
                bold: false,
                blink: false,
                underline: false,
                has_foreground: false,
                has_background: false,
                has_threshold: false,
                ..*self
            }),
    {
        Self {
            invert: false,
            bold: false,
            blink: false,
            underline: false,
            has_foreground: false,
            has_background: false,
            has_threshold: false,
            ..*self
        }
    }

    fn set_foreground(&self, foreground: (u8, u8, u8)) -> (r: Self)
        ensures
            r == (Self { has_foreground: true, foreground, ..*self }),
    {
        Self { has_foreground: true, foreground, ..*self }
    }

    fn set_background(&self, background: (u8, u8, u8)) -> (r: Self)
        ensures
            r == (Self { has_background: true, background, ..*self }),
    {
        Self { has_background: true, background, ..*self }
    }

    fn brighten(&self, value: i32) -> (r: Self)
        ensures
            r == (Self { brighten: value, ..*self }),
    {
        Self { brighten: value, ..*self }
    }

    fn filter(&self, filter: &str) -> (r: Self)
        ensures
            r == (Self { filter: filter_named(filter@), ..*self }),
    {
        let name: String = String::from_str(filter);
        let filter: FilterType = if name == String::from_str("CATMULLROM") {
            FilterType::CatmullRom
        } else if name == String::from_str("GAUSSIAN") {
            FilterType::Gaussian
        } else if name == String::from_str("LANCZOS") {
            FilterType::Lanczos3
        } else if name == String::from_str("TRIANGLE") {
            FilterType::Triangle
        } else {
            FilterType::Nearest
        };
        Self { filter, ..*self }
    }

    fn fullscreen(&self) -> (r: Self)
        ensures
            r == (Self { size: r.size, ..*self }),
    {
        self.with_terminal(terminal_dimensions())
    }

    fn size(&self, x: u32, y: u32) -> (r: Self)
        ensures
            r == (Self { size: (x, y), ..*self }),
    {
        Self { size: (x, y), ..*self }
    }
}

impl<T: Copy, S: Copy> AnsiImage<T, S> {
    /// The style of the fixed colours: the foreground where one was set, the
    /// background where one was set, behind black characters where no
    /// foreground was, and the terminal's own colours where neither was.
    pub open spec fn fixed_style(&self) -> Style {
        let front = Color::RGB(self.foreground.0, self.foreground.1, self.foreground.2);
        let back = Color::RGB(self.background.0, self.background.1, self.background.2);
        if self.has_foreground && self.has_background {
            Style { foreground: Some(front), background: Some(back), ..Style::plain() }
        } else if self.has_foreground {
            Style { foreground: Some(front), ..Style::plain() }
        } else if self.has_background {
            Style {
                foreground: Some(Color::RGB(0, 0, 0)),
                background: Some(back),
                ..Style::plain()
            }
        } else {
            Style::plain()
        }
    }

    /// The style of the fixed colours.
    pub fn get_fixed_color(&self) -> (style: Style)
        ensures
            style == self.fixed_style(),
    {
        let (r, g, b) = self.foreground;
        let (br, bg, bb) = self.background;
        if self.has_foreground && self.has_background {
            Color::RGB(r, g, b).on(Color::RGB(br, bg, bb))
        } else if self.has_foreground {
            Color::RGB(r, g, b).normal()
        } else if self.has_background {
            Color::RGB(0, 0, 0).on(Color::RGB(br, bg, bb))
        } else {
            Style::new()
        }
    }

    /// The given style with the marks of these settings: bold, blinking and
    /// underlined, each where it was asked for.
    pub fn with_marks(&self, style: Style) -> (r: Style)
        ensures
            r == style.marked(self.bold, self.blink, self.underline),
    {
        let mut style = style;
        if self.bold {
            style = style.bold();
        }
        if self.blink {
            style = style.blink();
        }
        if self.underline {
            style = style.underline();
        }
        style
    }

    /// These settings, with the size of a terminal of the given columns and
    /// rows; unchanged where the terminal's size is not known.
    pub fn with_terminal(&self, terminal: Option<(u16, u16)>) -> (r: Self)
        ensures
            r == (Self {
                size: match terminal {
                    Some((w, h)) => (w as u32, h as u32),
                    None => self.size,
                },
                ..*self
            }),
    {
        let (width, height): (u32, u32) = match terminal {
            Some((w, h)) => (w as u32, h as u32),
            None => self.size,
        };
        Self { size: (width, height), ..*self }
    }

    /// The size of the output for an image of the given size.
    pub open spec fn size_aspect_ratio_spec(&self, image_dimensions: (u32, u32)) -> (u32, u32) {
        actual_size(image_dimensions, self.size)
    }

    /// The size of the output for an image of the given size: the size that
    /// was asked for, with a side that was left open taken from the image's
    /// proportions.
    pub fn size_aspect_ratio(&self, image_dimensions: (u32, u32)) -> (r: (u32, u32))
        ensures
            r == self.size_aspect_ratio_spec(image_dimensions),
    {
        get_actual_size(image_dimensions, self.size)
    }

    /// The size in pixels to which an image of the given size is brought
    /// before it is drawn: the size of the output times the scale.
    pub open spec fn working_size(&self, image_dimensions: (u32, u32)) -> (int, int) {
        let size = actual_size(image_dimensions, self.size);
        (size.0 * self.scale.0, size.1 * self.scale.1)
    }

    /// The size in pixels to which an image of the given size is brought
    /// before it is drawn. Nothing where a side would be 0 or too long for a
    /// `u32`.
    pub fn scaled_size(&self, image_dimensions: (u32, u32)) -> (r: Option<(u32, u32)>)
        ensures
            r is Some <==> 0 < self.working_size(image_dimensions).0 <= u32::MAX && 0
                < self.working_size(image_dimensions).1 <= u32::MAX,
            match r {
                Some(size) => (size.0 as int, size.1 as int) == self.working_size(image_dimensions),
                None => true,
            },
    {
        let size: (u32, u32) = self.size_aspect_ratio(image_dimensions);
        proof {
            crate::image_buffer::lemma_area_fits(size.0, self.scale.0);
            crate::image_buffer::lemma_area_fits(size.1, self.scale.1);
        }
        let new_width: u64 = size.0 as u64 * self.scale.0 as u64;
        let new_height: u64 = size.1 as u64 * self.scale.1 as u64;
        if new_width == 0 || new_height == 0 || new_width > u32::MAX as u64 || new_height
            > u32::MAX as u64 {
            None
        } else {
            Some((new_width as u32, new_height as u32))
        }
    }

    /// Whether an image of the given size can be brought to its working
    /// size: that size has no side of 0 and none too long for a `u32`, and
    /// the image and what it is resized to can be held.
    pub open spec fn can_resize(&self, image_dimensions: (u32, u32)) -> bool {
        let (width, height) = self.working_size(image_dimensions);
        &&& 0 < width <= u32::MAX
        &&& 0 < height <= u32::MAX
        &&& can_hold(image_dimensions.0, image_dimensions.1)
        &&& can_hold(width as u32, height as u32)
        &&& can_hold(image_dimensions.0, height as u32)
    }

    /// The image brought to its working size with the filter of these
    /// settings: the size of the output times the scale. An image that has
    /// its working size already is given back as it is. Nothing where
    /// `can_resize` does not hold.
    pub fn image_resize_with_scale(&self, image: &RgbImage) -> (r: Option<RgbImage>)
        requires
            image.wf(),
        ensures
            r is Some <==> self.can_resize((image.width, image.height)),
            r is Some ==> r->0.wf() && (r->0.width as int, r->0.height as int)
                == self.working_size((image.width, image.height)),
            r is Some && (image.width as int, image.height as int) == self.working_size(
                (image.width, image.height),
            ) ==> r->0.data@ == image.data@,
    {
        match self.scaled_size(image.dimensions()) {
            Some((new_width, new_height)) => {
                resize_exact(image, new_width, new_height, self.filter)
            },
            None => None,
        }
    }
}

} // verus!
