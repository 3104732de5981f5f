//! The three fonts a text row can use, and the glyph widths that the slide
//! animation needs to decide which characters are on screen.

use vstd::prelude::*;

verus! {

/// Font of a text row.
#[derive(Debug, Clone, Copy, PartialEq, Eq, Structural)]
pub enum Font {
    /// embedded-graphics' built-in 6x9 font.
    Default,
    /// ProFont at 7 points, 5x9 pixels per glyph.
    ProFont,
    /// The IBM code page 437 font, 8x8 pixels per glyph.
    Ibm,
}

impl Font {
    /// Width of one glyph in pixels.
    pub open spec fn glyph_width_spec(self) -> int {
        match self {
            Font::Default => 6,
            Font::ProFont => 5,
            Font::Ibm => 8,
        }
    }

    /// Width of one glyph in pixels, read from the font's own description.
    pub fn glyph_width(&self) -> (width: u32)
        ensures
            width == self.glyph_width_spec(),
            width > 0,
    {
        match self {
            Font::Default => default_font_width(),
            Font::ProFont => profont_width(),
            Font::Ibm => ibm_font_width(),
        }
    }
}

/// Reads the glyph width of `embedded_graphics::mono_font::ascii::FONT_6X9`.
/// Trusted: the constant is declared with a character size of 6 by 9 pixels.
#[verifier::external_body]
fn default_font_width() -> (width: u32)
    ensures
        width == 6,
{
    embedded_graphics::mono_font::ascii::FONT_6X9.character_size.width
}

/// Reads the glyph width of `profont::PROFONT_7_POINT`.
/// Trusted: the constant is declared with a character size of 5 by 9 pixels.
#[verifier::external_body]
fn profont_width() -> (width: u32)
    ensures
        width == 5,
{
    profont::PROFONT_7_POINT.character_size.width
}

/// Reads the glyph width of `ibm437::IBM437_8X8_NORMAL`.
/// Trusted: the constant is declared with a character size of 8 by 8 pixels.
#[verifier::external_body]
fn ibm_font_width() -> (width: u32)
    ensures
        width == 8,
{
    ibm437::IBM437_8X8_NORMAL.character_size.width
}

} // verus!
