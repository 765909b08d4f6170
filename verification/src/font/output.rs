//! Shared pieces of the font pack output: the pack magic, and the clamping
//! of font and glyph counts into their one-byte wire form.

pub mod bin;

use vstd::prelude::*;

verus! {

/// The eight magic bytes opening every font pack.
pub open spec fn spec_font_pack_header() -> Seq<u8> {
    seq![70u8, 79u8, 78u8, 84u8, 80u8, 65u8, 67u8, 75u8]
}

/// The eight magic bytes opening every font pack.
pub fn font_pack_header() -> (r: Vec<u8>)
    ensures
        r@ == spec_font_pack_header(),
{
    let r = vec![70u8, 79u8, 78u8, 84u8, 80u8, 65u8, 67u8, 75u8];
    proof {
        assert(r@ =~= spec_font_pack_header());
    }
    r
}

/// A count that does not fit its one-byte wire form.
#[derive(Debug, Clone, PartialEq, Eq)]
pub enum FontLimitError {
    /// Nothing to pack.
    Empty,
    /// More entries than the format can carry.
    TooMany { count: usize },
}

/// The most fonts a pack can carry.
pub const MAX_FONTS_LENGTH: usize = 127;

/// The most glyphs a font can carry.
pub const MAX_GLYPHS_LENGTH: usize = 256;

/// Clamps the number of fonts into one byte: a full pack of 127 is stored as
/// zero; an empty pack and anything larger are refused.
pub fn get_fonts_length(length: usize) -> (r: Result<u8, FontLimitError>)
    ensures
        length == 0 ==> r == Err::<u8, FontLimitError>(FontLimitError::Empty),
        1 <= length < MAX_FONTS_LENGTH ==> r == Ok::<u8, FontLimitError>(length as u8),
        length == MAX_FONTS_LENGTH ==> r == Ok::<u8, FontLimitError>(0u8),
        length > MAX_FONTS_LENGTH ==> r == Err::<u8, FontLimitError>(
            FontLimitError::TooMany { count: length },
        ),
{
    if length == 0 {
        Err(FontLimitError::Empty)
    } else if length < MAX_FONTS_LENGTH {
        Ok(length as u8)
    } else if length == MAX_FONTS_LENGTH {
        Ok(0)
    } else {
        Err(FontLimitError::TooMany { count: length })
    }
}

/// Clamps the number of glyphs into one byte: a full code page of 256 is
/// stored as zero; an empty font and anything larger are refused.
pub fn get_glyphs_length(length: usize) -> (r: Result<u8, FontLimitError>)
    ensures
        length == 0 ==> r == Err::<u8, FontLimitError>(FontLimitError::Empty),
        1 <= length < MAX_GLYPHS_LENGTH ==> r == Ok::<u8, FontLimitError>(length as u8),
        length == MAX_GLYPHS_LENGTH ==> r == Ok::<u8, FontLimitError>(0u8),
        length > MAX_GLYPHS_LENGTH ==> r == Err::<u8, FontLimitError>(
            FontLimitError::TooMany { count: length },
        ),
{
    if length == 0 {
        Err(FontLimitError::Empty)
    } else if length < MAX_GLYPHS_LENGTH {
        Ok(length as u8)
    } else if length == MAX_GLYPHS_LENGTH {
        Ok(0)
    } else {
        Err(FontLimitError::TooMany { count: length })
    }
}

} // verus!
