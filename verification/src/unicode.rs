//! Characters by their code points.
use vstd::prelude::*;

verus! {

/// Whether `code` is the code point of a character: any number up to
/// `0x10FFFF` that is not a surrogate.
pub open spec fn is_scalar_value(code: u32) -> bool {
    code <= 0xD7FF || (0xE000 <= code && code <= 0x10FFFF)
}

/// `char::from_u32` of the standard library: the character with the given
/// code point, and nothing where no character has it.
pub assume_specification[ char::from_u32 ](code: u32) -> (r: Option<char>)
    ensures
        r is Some <==> is_scalar_value(code),
        r is Some ==> r->0 as u32 == code,
;

/// The character with the given code point.
pub fn code_point(code: u32) -> (ch: char)
    requires
        is_scalar_value(code),
    ensures
        ch as u32 == code,
{
    match char::from_u32(code) {
        Some(ch) => ch,
        None => ' ',
    }
}

} // verus!
