//! The unit of painting: one grid position's request for one frame.

use crate::gfx::color::Color;
use crate::gfx::point::Point;
use crate::output::escape::LOWER_HALF_BLOCK;
use crate::output::painter::PaintMode;
use vstd::prelude::*;
use vstd::utf8::encode_utf8;

verus! {

/// A glyph that occupies one or more columns of the grid.
#[derive(Clone, Debug)]
pub struct Grapheme {
    /// The text of the glyph: one grapheme cluster, possibly several code
    /// points.
    pub char: String,
    /// Zero in the column that owns the glyph; positive in each further column
    /// that the glyph covers.
    pub index: usize,
    /// The number of columns that the glyph covers.
    pub width: u32,
    /// The color the glyph is drawn in.
    pub color: Color,
}

/// What to show at one grid position.
///
/// Without a grapheme the cell is a column of a bitmap row: two pixels, one
/// above the other. With a grapheme it is text laid over those two pixels.
#[derive(Clone, Debug)]
pub struct Cell {
    /// Where the cell is painted.
    pub cursor: Point,
    pub grapheme: Option<Grapheme>,
    /// The color of the upper pixel.
    pub top: Color,
    /// The color of the lower pixel.
    pub bottom: Color,
}

impl Cell {
    /// What [`Cell::is_placeholder`] returns.
    pub open spec fn spec_is_placeholder(&self) -> bool {
        self.grapheme matches Some(grapheme) && grapheme.index > 0
    }

    /// What [`Cell::mode`] returns.
    pub open spec fn spec_mode(&self) -> PaintMode {
        if self.grapheme is Some {
            PaintMode::Text
        } else {
            PaintMode::Bitmap
        }
    }

    /// What [`Cell::width`] returns.
    pub open spec fn spec_width(&self) -> u32 {
        match self.grapheme {
            Some(grapheme) => grapheme.width,
            None => 1,
        }
    }

    /// What [`Cell::background`] returns.
    pub open spec fn spec_background(&self) -> Color {
        if self.grapheme is Some {
            self.top.blend(self.bottom)
        } else {
            self.top
        }
    }

    /// What [`Cell::foreground`] returns.
    pub open spec fn spec_foreground(&self) -> Color {
        match self.grapheme {
            Some(grapheme) => grapheme.color,
            None => self.bottom,
        }
    }

    /// What [`Cell::glyph`] returns, as a sequence.
    pub open spec fn glyph_bytes(&self) -> Seq<u8> {
        match self.grapheme {
            Some(grapheme) => encode_utf8(grapheme.char@),
            None => LOWER_HALF_BLOCK@,
        }
    }

    /// Whether the cell only reserves a column for a glyph that an earlier
    /// column owns. Painting such a cell does nothing.
    #[verifier::when_used_as_spec(spec_is_placeholder)]
    pub fn is_placeholder(&self) -> (placeholder: bool)
        ensures
            placeholder == self.spec_is_placeholder(),
    {
        match &self.grapheme {
            Some(grapheme) => grapheme.index > 0,
            None => false,
        }
    }

    /// The rendering mode the cell is painted in: text with a grapheme, bitmap
    /// without.
    #[verifier::when_used_as_spec(spec_mode)]
    pub fn mode(&self) -> (mode: PaintMode)
        ensures
            mode == self.spec_mode(),
    {
        match &self.grapheme {
            Some(_) => PaintMode::Text,
            None => PaintMode::Bitmap,
        }
    }

    /// The number of columns the cursor advances by when the cell is painted.
    #[verifier::when_used_as_spec(spec_width)]
    pub fn width(&self) -> (width: u32)
        ensures
            width == self.spec_width(),
    {
        match &self.grapheme {
            Some(grapheme) => grapheme.width,
            None => 1,
        }
    }

    /// The background the cell is painted on: the upper pixel for a bitmap
    /// cell, the mean of both pixels behind text.
    #[verifier::when_used_as_spec(spec_background)]
    pub fn background(&self) -> (color: Color)
        ensures
            color == self.spec_background(),
    {
        match &self.grapheme {
            Some(_) => self.top.avg_with(self.bottom),
            None => self.top,
        }
    }

    /// The foreground the cell is painted in: the lower pixel for a bitmap
    /// cell, the glyph's own color for text.
    #[verifier::when_used_as_spec(spec_foreground)]
    pub fn foreground(&self) -> (color: Color)
        ensures
            color == self.spec_foreground(),
    {
        match &self.grapheme {
            Some(grapheme) => grapheme.color,
            None => self.bottom,
        }
    }

    /// The bytes that draw the cell: the lower half block for a bitmap cell,
    /// the glyph's text in UTF-8 otherwise.
    pub fn glyph(&self) -> (bytes: &[u8])
        ensures
            bytes@ == self.glyph_bytes(),
    {
        match &self.grapheme {
            Some(grapheme) => grapheme.char.as_str().as_bytes(),
            None => LOWER_HALF_BLOCK.as_slice(),
        }
    }
}

} // verus!
