//! Drawing images with the characters of a terminal.
//!
//! An image becomes rows of styled characters: ASCII characters chosen by
//! their shape or by a gradient, Braille patterns of eight dots, sextants, or
//! coloured blocks. The styles are colours of 24 bits or of the terminal's
//! palette of 256, and bold, blinking or underlined text.
//!
//! The settings of a conversion are built step by step; every step gives new
//! settings and leaves the old ones as they were. A conversion brings the
//! image to the size of the output, looks at the pixels that each character
//! stands for, and gives the cells row by row, each row closed by a line
//! end.

pub mod ansi;
pub mod ascii;
pub mod ascii_font;
pub mod block;
pub mod braile;
pub mod func;
pub mod grid;
pub mod image_binarize;
pub mod image_buffer;
pub mod image_window;
pub mod imageops;
pub mod options;
pub mod terminal_colors;
pub mod unicode;
pub mod uniblock;
pub mod wide;
