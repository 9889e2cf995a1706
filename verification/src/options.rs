//! From the options of a command to the settings of a conversion.
//!
//! Each way of drawing has its options: plain values, as a command line
//! gives them. The settings are built from them in a fixed order, so that an
//! option that comes later overrides what an earlier one has set. Where the
//! options ask for the size of the terminal, the terminal is asked once, and
//! the settings follow from its answer.
use crate::ansi::{filter_named, terminal_dimensions, AnsiImage, Ansinator, FilterType};
use crate::ascii::{AnsiAscii, AsciiColor, AsciiMode};
use crate::block::{AnsiBlock, BlockColor, BlockMode};
use crate::braile::{AnsiBraile, BraileColor, BraileMode};
use crate::uniblock::{AnsiUniblock, UniblockColor, UniblockMode};
use vstd::prelude::*;

verus! {

/// The options for drawing with ASCII characters.
#[derive(Debug, Clone, PartialEq, Eq)]
pub struct AsciiOptions {
    pub bold: bool,
    pub blink: bool,
    pub underline: bool,
    /// Colour each character as its pixel.
    pub rgbcolor: bool,
    /// Colour each character with the nearest colour of the palette.
    pub termcolor: bool,
    pub frgdcolor: Option<(u8, u8, u8)>,
    pub bkgdcolor: Option<(u8, u8, u8)>,
    /// Take the size of the terminal.
    pub fullscreen: bool,
    pub width: u32,
    pub height: u32,
    pub filter: String,
    pub invert: bool,
    pub brightness: i32,
    /// `GRADIENT`, `PATTERN_QUADRANCE` or `PATTERN_SSIM`.
    pub luma_mode: String,
}

/// The options for drawing with blocks.
#[derive(Debug, Clone, PartialEq, Eq)]
pub struct BlockOptions {
    pub bold: bool,
    pub blink: bool,
    /// Colour with the nearest colours of the palette.
    pub termcolor: bool,
    /// Take the size of the terminal.
    pub fullscreen: bool,
    pub width: u32,
    pub height: u32,
    pub filter: String,
    pub invert: bool,
    pub brightness: i32,
    /// `HALF` or `WHOLE`.
    pub block_mode: String,
}

/// The options for drawing with Braille patterns, and with sextants.
#[derive(Debug, Clone, PartialEq, Eq)]
pub struct DotOptions {
    pub bold: bool,
    pub blink: bool,
    pub frgdcolor: Option<(u8, u8, u8)>,
    pub bkgdcolor: Option<(u8, u8, u8)>,
    /// Take the size of the terminal.
    pub fullscreen: bool,
    pub width: u32,
    pub height: u32,
    pub filter: String,
    pub invert: bool,
    pub brightness: i32,
    /// The threshold between black and white; Otsu's method where none is
    /// given.
    pub threshold: Option<u8>,
}

/// The way of choosing characters that a name stands for; an unknown name
/// stands for the quadrance of the glyphs.
pub open spec fn ascii_mode_named(name: Seq<char>) -> AsciiMode {
    if name == "GRADIENT"@ {
        AsciiMode::Gradient
    } else if name == "PATTERN_SSIM"@ {
        AsciiMode::PatternSsim
    } else {
        AsciiMode::PatternQuadrance
    }
}

/// What a block stands for under a name; an unknown name stands for two
/// pixels.
pub open spec fn block_mode_named(name: Seq<char>) -> BlockMode {
    if name == "WHOLE"@ {
        BlockMode::Whole
    } else {
        BlockMode::Half
    }
}

/// The size of the output that the options ask for, where the terminal's
/// answer for its columns and rows is `terminal`: the size given, or, where
/// the size of the terminal is asked for, the terminal's, and `(0, 0)` where
/// that is not known.
pub open spec fn asked_size(
    fullscreen: bool,
    width: u32,
    height: u32,
    terminal: Option<(u16, u16)>,
) -> (u32, u32) {
    if fullscreen {
        match terminal {
            Some((w, h)) => (w as u32, h as u32),
            None => (0, 0),
        }
    } else {
        (width, height)
    }
}

/// The terminal's answer for its columns and rows where the options ask for
/// its size; the terminal is not asked where they do not.
fn terminal_if(fullscreen: bool) -> (r: Option<(u16, u16)>)
    ensures
        !fullscreen ==> r is None,
{
    if fullscreen {
        terminal_dimensions()
    } else {
        None
    }
}

/// The colour that an option gives, and the colour `unset` where it gives
/// none.
pub open spec fn colour_or(option: Option<(u8, u8, u8)>, unset: (u8, u8, u8)) -> (u8, u8, u8) {
    match option {
        Some(colour) => colour,
        None => unset,
    }
}

impl AsciiOptions {
    /// The settings that these options ask for, with the given size of the
    /// output.
    pub open spec fn settings_for(&self, size: (u32, u32)) -> AnsiAscii {
        let mode = ascii_mode_named(self.luma_mode@);
        AnsiImage {
            invert: self.invert,
            bold: self.bold,
            blink: self.blink,
            underline: self.underline,
            has_foreground: self.frgdcolor is Some,
            has_background: self.bkgdcolor is Some,
            has_threshold: false,
            foreground: colour_or(self.frgdcolor, (255, 255, 255)),
            background: colour_or(self.bkgdcolor, (0, 0, 0)),
            threshold: 127,
            brighten: self.brightness,
            filter: filter_named(self.filter@),
            size,
            scale: crate::ascii::ascii_scale(mode),
            color: if self.termcolor {
                AsciiColor::Terminalcolor
            } else if self.rgbcolor {
                AsciiColor::Truecolor
            } else {
                AsciiColor::Fixed
            },
            mode,
        }
    }

    /// The settings that these options ask for, where the terminal's
    /// answer for its columns and rows is `terminal`.
    pub fn settings_with(&self, terminal: Option<(u16, u16)>) -> (r: AnsiAscii)
        ensures
            r == self.settings_for(
                asked_size(self.fullscreen, self.width, self.height, terminal),
            ),
    {
        let ascii = AnsiAscii::new();
        let ascii = if self.bold {
            ascii.bold()
        } else {
            ascii
        };
        let ascii = if self.blink {
            ascii.blink()
        } else {
            ascii
        };
        let ascii = if self.underline {
            ascii.underline()
        } else {
            ascii
        };
        let ascii = if self.rgbcolor {
            ascii.true_color()
        } else {
            ascii
        };
        let ascii = if self.termcolor {
            ascii.terminal_color()
        } else {
            ascii
        };
        let ascii = match self.frgdcolor {
            Some(colour) => ascii.set_foreground(colour),
            None => ascii,
        };
        let ascii = match self.bkgdcolor {
            Some(colour) => ascii.set_background(colour),
            None => ascii,
        };
        let ascii = if self.fullscreen {
            ascii.with_terminal(terminal)
        } else {
            ascii.size(self.width, self.height)
        };
        let ascii = ascii.filter(self.filter.as_str());
        let ascii = if self.invert {
            ascii.invert()
        } else {
            ascii
        };
        let ascii = ascii.brighten(self.brightness);
        if self.luma_mode == String::from_str("GRADIENT") {
            ascii.gradient()
        } else if self.luma_mode == String::from_str("PATTERN_SSIM") {
            ascii.pattern_ssim()
        } else {
            ascii.pattern_quadrance()
        }
    }

    /// The settings that these options ask for. The terminal is asked
    /// for its size where the options ask for it; the settings are those of
    /// `settings_with` for its answer.
    pub fn settings(&self) -> (r: AnsiAscii)
        ensures
            exists|terminal: Option<(u16, u16)>|
                r == self.settings_for(
                    #[trigger] asked_size(self.fullscreen, self.width, self.height, terminal),
                ),
            r == self.settings_for(r.size),
            !self.fullscreen ==> r.size == (self.width, self.height),
    {
        let terminal = terminal_if(self.fullscreen);
        self.settings_with(terminal)
    }
}

impl BlockOptions {
    /// The settings that these options ask for, with the given size of the
    /// output.
    pub open spec fn settings_for(&self, size: (u32, u32)) -> AnsiBlock {
        let mode = block_mode_named(self.block_mode@);
        AnsiImage {
            invert: self.invert,
            bold: self.bold,
            blink: self.blink,
            underline: false,
            has_foreground: false,
            has_background: false,
            has_threshold: false,
            foreground: (255, 255, 255),
            background: (0, 0, 0),
            threshold: 127,
            brighten: self.brightness,
            filter: filter_named(self.filter@),
            size,
            scale: crate::block::block_scale(mode),
            color: if self.termcolor {
                BlockColor::Terminalcolor
            } else {
                BlockColor::Truecolor
            },
            mode,
        }
    }

    /// The settings that these options ask for, where the terminal's
    /// answer for its columns and rows is `terminal`.
    pub fn settings_with(&self, terminal: Option<(u16, u16)>) -> (r: AnsiBlock)
        ensures
            r == self.settings_for(
                asked_size(self.fullscreen, self.width, self.height, terminal),
            ),
    {
        let block = AnsiBlock::new();
        let block = if self.bold {
            block.bold()
        } else {
            block
        };
        let block = if self.blink {
            block.blink()
        } else {
            block
        };
        let block = if self.termcolor {
            block.terminal_color()
        } else {
            block.true_color()
        };
        let block = if self.fullscreen {
            block.with_terminal(terminal)
        } else {
            block.size(self.width, self.height)
        };
        let block = block.filter(self.filter.as_str());
        let block = if self.invert {
            block.invert()
        } else {
            block
        };
        let block = block.brighten(self.brightness);
        if self.block_mode == String::from_str("WHOLE") {
            block.whole()
        } else {
            block.half()
        }
    }

    /// The settings that these options ask for. The terminal is asked
    /// for its size where the options ask for it; the settings are those of
    /// `settings_with` for its answer.
    pub fn settings(&self) -> (r: AnsiBlock)
        ensures
            exists|terminal: Option<(u16, u16)>|
                r == self.settings_for(
                    #[trigger] asked_size(self.fullscreen, self.width, self.height, terminal),
                ),
            r == self.settings_for(r.size),
            !self.fullscreen ==> r.size == (self.width, self.height),
    {
        let terminal = terminal_if(self.fullscreen);
        self.settings_with(terminal)
    }
}

impl DotOptions {
    /// The settings for Braille patterns that these options ask for, with
    /// the given size of the output.
    pub open spec fn braile_settings_for(&self, size: (u32, u32)) -> AnsiBraile {
        AnsiImage {
            invert: self.invert,
            bold: self.bold,
            blink: self.blink,
            underline: false,
            has_foreground: self.frgdcolor is Some,
            has_background: self.bkgdcolor is Some,
            has_threshold: self.threshold is Some,
            foreground: colour_or(self.frgdcolor, (255, 255, 255)),
            background: colour_or(self.bkgdcolor, (0, 0, 0)),
            threshold: match self.threshold {
                Some(value) => value,
                None => 127,
            },
            brighten: self.brightness,
            filter: filter_named(self.filter@),
            size,
            scale: (2, 4),
            color: BraileColor::Fixed,
            mode: if self.threshold is Some {
                BraileMode::ManualThreshold
            } else {
                BraileMode::OtsuThreshold
            },
        }
    }

    /// The settings for sextants that these options ask for, with the given
    /// size of the output.
    pub open spec fn uniblock_settings_for(&self, size: (u32, u32)) -> AnsiUniblock {
        AnsiImage {
            invert: self.invert,
            bold: self.bold,
            blink: self.blink,
            underline: false,
            has_foreground: self.frgdcolor is Some,
            has_background: self.bkgdcolor is Some,
            has_threshold: self.threshold is Some,
            foreground: colour_or(self.frgdcolor, (255, 255, 255)),
            background: colour_or(self.bkgdcolor, (0, 0, 0)),
            threshold: match self.threshold {
                Some(value) => value,
                None => 127,
            },
            brighten: self.brightness,
            filter: filter_named(self.filter@),
            size,
            scale: (2, 3),
            color: UniblockColor::Fixed,
            mode: if self.threshold is Some {
                UniblockMode::ManualThreshold
            } else {
                UniblockMode::OtsuThreshold
            },
        }
    }

    /// The settings for Braille patterns that these options ask for, where the terminal's
    /// answer for its columns and rows is `terminal`.
    pub fn braile_settings_with(&self, terminal: Option<(u16, u16)>) -> (r: AnsiBraile)
        ensures
            r == self.braile_settings_for(
                asked_size(self.fullscreen, self.width, self.height, terminal),
            ),
    {
        let braile = AnsiBraile::new();
        let braile = if self.bold {
            braile.bold()
        } else {
            braile
        };
        let braile = if self.blink {
            braile.blink()
        } else {
            braile
        };
        let braile = match self.frgdcolor {
            Some(colour) => braile.set_foreground(colour),
            None => braile,
        };
        let braile = match self.bkgdcolor {
            Some(colour) => braile.set_background(colour),
            None => braile,
        };
        let braile = if self.fullscreen {
            braile.with_terminal(terminal)
        } else {
            braile.size(self.width, self.height)
        };
        let braile = braile.filter(self.filter.as_str());
        let braile = if self.invert {
            braile.invert()
        } else {
            braile
        };
        let braile = braile.brighten(self.brightness);
        match self.threshold {
            Some(value) => braile.threshold(value),
            None => braile.otsu_threshold(),
        }
    }

    /// The settings for Braille patterns that these options ask for. The terminal is asked
    /// for its size where the options ask for it; the settings are those of
    /// `braile_settings_with` for its answer.
    pub fn braile_settings(&self) -> (r: AnsiBraile)
        ensures
            exists|terminal: Option<(u16, u16)>|
                r == self.braile_settings_for(
                    #[trigger] asked_size(self.fullscreen, self.width, self.height, terminal),
                ),
            r == self.braile_settings_for(r.size),
            !self.fullscreen ==> r.size == (self.width, self.height),
    {
        let terminal = terminal_if(self.fullscreen);
        self.braile_settings_with(terminal)
    }

    /// The settings for sextants that these options ask for, where the terminal's
    /// answer for its columns and rows is `terminal`.
    pub fn uniblock_settings_with(&self, terminal: Option<(u16, u16)>) -> (r: AnsiUniblock)
        ensures
            r == self.uniblock_settings_for(
                asked_size(self.fullscreen, self.width, self.height, terminal),
            ),
    {
        let uniblock = AnsiUniblock::new();
        let uniblock = if self.bold {
            uniblock.bold()
        } else {
            uniblock
        };
        let uniblock = if self.blink {
            uniblock.blink()
        } else {
            uniblock
        };
        let uniblock = match self.frgdcolor {
            Some(colour) => uniblock.set_foreground(colour),
            None => uniblock,
        };
        let uniblock = match self.bkgdcolor {
            Some(colour) => uniblock.set_background(colour),
            None => uniblock,
        };
        let uniblock = if self.fullscreen {
            uniblock.with_terminal(terminal)
        } else {
            uniblock.size(self.width, self.height)
        };
        let uniblock = uniblock.filter(self.filter.as_str());
        let uniblock = if self.invert {
            uniblock.invert()
        } else {
            uniblock
        };
        let uniblock = uniblock.brighten(self.brightness);
        match self.threshold {
            Some(value) => uniblock.threshold(value),
            None => uniblock.otsu_threshold(),
        }
    }

    /// The settings for sextants that these options ask for. The terminal is asked
    /// for its size where the options ask for it; the settings are those of
    /// `uniblock_settings_with` for its answer.
    pub fn uniblock_settings(&self) -> (r: AnsiUniblock)
        ensures
            exists|terminal: Option<(u16, u16)>|
                r == self.uniblock_settings_for(
                    #[trigger] asked_size(self.fullscreen, self.width, self.height, terminal),
                ),
            r == self.uniblock_settings_for(r.size),
            !self.fullscreen ==> r.size == (self.width, self.height),
    {
        let terminal = terminal_if(self.fullscreen);
        self.uniblock_settings_with(terminal)
    }
}

} // verus!
