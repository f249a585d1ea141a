//! The stateful encoder from cells to terminal bytes.
//!
//! A [`Painter`] remembers what it last told the terminal: the rendering mode,
//! where the cursor will be, and both colors. Painting a cell sends only the
//! sequences whose effect the terminal does not already show, then the glyph.
//! The bytes gather in a buffer that [`Painter::end`] hands out for writing.

use crate::gfx::color::Color;
use crate::gfx::point::Point;
use crate::output::cell::Cell;
use crate::output::escape::{
    cursor_to, frame_end, push_bytes, push_cursor_to, push_frame_end, push_set_indexed,
    push_set_rgb, set_indexed, set_rgb, Layer, ENTER_BITMAP, FRAME_START, LEAVE_BITMAP,
};
use vstd::prelude::*;
use vstd::utf8::encode_utf8_decode_utf8;

verus! {

/// The two rendering modes of the terminal protocol.
#[derive(Clone, Copy, Debug, PartialEq, Eq, Structural)]
pub enum PaintMode {
    Text,
    Bitmap,
}

impl PaintMode {
    /// The marker that switches the terminal to this mode.
    pub open spec fn marker(self) -> Seq<u8> {
        match self {
            PaintMode::Bitmap => ENTER_BITMAP@,
            PaintMode::Text => LEAVE_BITMAP@,
        }
    }

    fn marker_bytes(self) -> (bytes: &'static [u8])
        ensures
            bytes@ == self.marker(),
    {
        match self {
            PaintMode::Bitmap => ENTER_BITMAP.as_slice(),
            PaintMode::Text => LEAVE_BITMAP.as_slice(),
        }
    }
}

/// What the terminal was last told about one of its two colors.
#[derive(Clone, Copy, Debug)]
pub struct LayerState {
    /// The color last requested, before any quantization.
    pub color: Option<Color>,
    /// The palette index last sent.
    pub code: Option<u8>,
}

impl LayerState {
    /// Nothing is known of the terminal's color.
    pub open spec fn unknown() -> LayerState {
        LayerState { color: None, code: None }
    }

    /// The bytes sent when `color` is requested: none if it is the color last
    /// requested; the 24-bit sequence with true color; otherwise the palette
    /// sequence, unless the color's palette index is the one last sent.
    pub open spec fn escape(self, layer: Layer, true_color: bool, color: Color) -> Seq<u8> {
        if self.color == Some(color) {
            Seq::empty()
        } else if true_color {
            set_rgb(layer, color)
        } else if self.code == Some(color.quantized()) {
            Seq::empty()
        } else {
            set_indexed(layer, color.quantized())
        }
    }

    /// What is known after `color` was requested. With true color the palette
    /// index is left alone.
    pub open spec fn request(self, true_color: bool, color: Color) -> LayerState {
        LayerState {
            color: Some(color),
            code: if self.color == Some(color) || true_color {
                self.code
            } else {
                Some(color.quantized())
            },
        }
    }

    fn set(&mut self, out: &mut Vec<u8>, layer: Layer, true_color: bool, color: Color)
        ensures
            *final(self) == old(self).request(true_color, color),
            final(out)@ == old(out)@ + old(self).escape(layer, true_color, color),
    {
        if self.color != Some(color) {
            self.color = Some(color);
            if true_color {
                push_set_rgb(out, layer, color);
            } else {
                let code = color.to_xterm();
                if self.code != Some(code) {
                    self.code = Some(code);
                    push_set_indexed(out, layer, code);
                }
            }
        }
    }
}

/// The state of a [`Painter`] as plain values.
#[verifier::ext_equal]
pub struct PainterView {
    /// The mode whose marker was sent last.
    pub mode: PaintMode,
    /// Where the terminal's cursor is expected to be, as (column, row); `None`
    /// when that is not known.
    pub cursor: Option<(nat, nat)>,
    /// Whether colors are sent as 24-bit values rather than palette indices.
    pub true_color: bool,
    pub background: LayerState,
    pub foreground: LayerState,
    /// The bytes produced since the last [`Painter::end`].
    pub buffer: Seq<u8>,
}

impl PainterView {
    /// A painter that has sent nothing yet.
    pub open spec fn initial(true_color: bool) -> PainterView {
        PainterView {
            mode: PaintMode::Text,
            cursor: None,
            true_color,
            background: LayerState::unknown(),
            foreground: LayerState::unknown(),
            buffer: Seq::empty(),
        }
    }

    /// The cursor movement sent before `cell`: none if the cursor is expected
    /// at the cell's position already.
    pub open spec fn reposition(self, cell: Cell) -> Seq<u8> {
        if self.cursor == Some((cell.cursor.x as nat, cell.cursor.y as nat)) {
            Seq::empty()
        } else {
            cursor_to(cell.cursor.x as nat, cell.cursor.y as nat)
        }
    }

    /// The mode marker sent with `cell`: none if the painter is in the cell's
    /// mode already.
    pub open spec fn toggle(self, cell: Cell) -> Seq<u8> {
        if self.mode == cell.mode() {
            Seq::empty()
        } else {
            cell.mode().marker()
        }
    }

    /// The background sequence sent with `cell`.
    pub open spec fn background_escape(self, cell: Cell) -> Seq<u8> {
        self.background.escape(Layer::Background, self.true_color, cell.background())
    }

    /// The foreground sequence sent with `cell`.
    pub open spec fn foreground_escape(self, cell: Cell) -> Seq<u8> {
        self.foreground.escape(Layer::Foreground, self.true_color, cell.foreground())
    }

    /// All the bytes that painting `cell` produces: nothing for a placeholder;
    /// otherwise cursor movement, background, foreground and mode marker, each
    /// only where needed, and then the glyph.
    pub open spec fn emitted(self, cell: Cell) -> Seq<u8> {
        if cell.is_placeholder() {
            Seq::empty()
        } else {
            self.reposition(cell) + self.background_escape(cell) + self.foreground_escape(cell)
                + self.toggle(cell) + cell.glyph_bytes()
        }
    }

    /// The state after painting `cell`. A placeholder changes nothing. Any
    /// other cell leaves the painter in the cell's mode, with the cell's
    /// colors, and with the cursor expected behind the glyph.
    pub open spec fn paint(self, cell: Cell) -> PainterView {
        if cell.is_placeholder() {
            self
        } else {
            PainterView {
                mode: cell.mode(),
                cursor: Some(((cell.cursor.x + cell.width()) as nat, cell.cursor.y as nat)),
                true_color: self.true_color,
                background: self.background.request(self.true_color, cell.background()),
                foreground: self.foreground.request(self.true_color, cell.foreground()),
                buffer: self.buffer + self.emitted(cell),
            }
        }
    }

    /// The state after painting `cells` one after the other.
    pub open spec fn paint_all(self, cells: Seq<Cell>) -> PainterView
        decreases cells.len(),
    {
        if cells.len() == 0 {
            self
        } else {
            self.paint_all(cells.drop_last()).paint(cells.last())
        }
    }

    /// The state after a frame began.
    pub open spec fn begin(self) -> PainterView {
        PainterView { buffer: self.buffer + FRAME_START@, ..self }
    }

    /// The state after a frame ended: the buffer is empty and the cursor is
    /// not trusted any more. Mode and colors stay for the next frame.
    pub open spec fn end(self) -> PainterView {
        PainterView { cursor: None, buffer: Seq::empty(), ..self }
    }

    /// The state after forgetting what the terminal shows: mode, cursor and
    /// colors are those of a new painter.
    pub open spec fn reset(self) -> PainterView {
        PainterView {
            mode: PaintMode::Text,
            cursor: None,
            background: LayerState::unknown(),
            foreground: LayerState::unknown(),
            ..self
        }
    }
}

/// The bytes of one finished frame, in the order they are to be written.
#[derive(Debug)]
pub struct Frame {
    /// Everything painted since the frame began.
    pub body: Vec<u8>,
    /// The sequence that parks and shows the cursor, where the caller asked
    /// for it. It is written after the body, as a write of its own.
    pub restore: Option<Vec<u8>>,
}

/// Whether a color capability hint, as terminals announce it, turns true color
/// on: it does when it reads exactly `truecolor` or `24bit`.
pub open spec fn enables_true_color(hint: Option<&str>) -> bool {
    hint matches Some(value) && (value@ == "truecolor"@ || value@ == "24bit"@)
}

fn same_bytes(a: &[u8], b: &[u8]) -> (same: bool)
    ensures
        same == (a@ == b@),
{
    if a.len() != b.len() {
        return false;
    }
    let mut i: usize = 0;
    while i < a.len()
        invariant
            a@.len() == b@.len(),
            i <= a@.len(),
            a@.take(i as int) == b@.take(i as int),
        decreases a@.len() - i,
    {
        if a[i] != b[i] {
            return false;
        }
        assert(a@.take(i + 1) == a@.take(i as int).push(a@[i as int]));
        assert(b@.take(i + 1) == b@.take(i as int).push(b@[i as int]));
        i = i + 1;
    }
    assert(a@ == a@.take(i as int));
    assert(b@ == b@.take(i as int));
    true
}

fn same_text(a: &str, b: &str) -> (same: bool)
    ensures
        same == (a@ == b@),
{
    proof {
        encode_utf8_decode_utf8(a@);
        encode_utf8_decode_utf8(b@);
    }
    same_bytes(a.as_bytes(), b.as_bytes())
}

/// Decides from a color capability hint whether true color starts switched
/// on. `None` stands for a hint that is absent.
pub fn supports_true_color(hint: Option<&str>) -> (enabled: bool)
    ensures
        enabled == enables_true_color(hint),
{
    match hint {
        Some(value) => same_text(value, "truecolor") || same_text(value, "24bit"),
        None => false,
    }
}

/// The differential encoder.
pub struct Painter {
    mode: PaintMode,
    buffer: Vec<u8>,
    cursor: Option<(u64, u32)>,
    true_color: bool,
    background: LayerState,
    foreground: LayerState,
}

impl View for Painter {
    type V = PainterView;

    closed spec fn view(&self) -> PainterView {
        PainterView {
            mode: self.mode,
            cursor: match self.cursor {
                Some((column, row)) => Some((column as nat, row as nat)),
                None => None,
            },
            true_color: self.true_color,
            background: self.background,
            foreground: self.foreground,
            buffer: self.buffer@,
        }
    }
}

impl Painter {
    /// A painter that has sent nothing yet. True color starts on or off as
    /// the color capability hint says.
    pub fn new(hint: Option<&str>) -> (painter: Painter)
        ensures
            painter@ == PainterView::initial(enables_true_color(hint)),
    {
        Painter {
            mode: PaintMode::Text,
            buffer: Vec::new(),
            cursor: None,
            true_color: supports_true_color(hint),
            background: LayerState { color: None, code: None },
            foreground: LayerState { color: None, code: None },
        }
    }

    pub fn true_color(&self) -> (enabled: bool)
        ensures
            enabled == self@.true_color,
    {
        self.true_color
    }

    pub fn set_true_color(&mut self, true_color: bool)
        ensures
            final(self)@ == (PainterView { true_color, ..old(self)@ }),
    {
        self.true_color = true_color
    }

    /// Starts a frame: the cursor is hidden while the frame is painted.
    pub fn begin(&mut self)
        ensures
            final(self)@ == old(self)@.begin(),
    {
        push_bytes(&mut self.buffer, FRAME_START.as_slice());
    }

    /// Paints one cell. A placeholder is skipped. For any other cell the
    /// buffer receives, in this order and each only where the terminal does not
    /// show it already: the cursor movement to the cell, its background, its
    /// foreground, the marker of its mode; and then the glyph.
    pub fn paint(&mut self, cell: &Cell)
        ensures
            final(self)@ == old(self)@.paint(*cell),
            cell.is_placeholder() ==> final(self)@ == old(self)@,
    {
        if cell.is_placeholder() {
            return;
        }
        let ghost before = self@;
        let mode = cell.mode();
        let toggle = self.mode != mode;
        self.mode = mode;

        let at = cell.cursor;
        if self.cursor != Some((at.x as u64, at.y)) {
            push_cursor_to(&mut self.buffer, at.x, at.y);
        }
        self.cursor = Some((at.x as u64 + cell.width() as u64, at.y));

        self.background.set(&mut self.buffer, Layer::Background, self.true_color, cell.background());
        self.foreground.set(&mut self.buffer, Layer::Foreground, self.true_color, cell.foreground());

        if toggle {
            push_bytes(&mut self.buffer, mode.marker_bytes());
        }
        push_bytes(&mut self.buffer, cell.glyph());
        assert(self.buffer@ == before.buffer + before.emitted(*cell));
    }

    /// Ends a frame and hands out its bytes. With a `cursor`, the frame also
    /// carries the sequence that parks the cursor there and shows it again.
    pub fn end(&mut self, cursor: Option<Point>) -> (frame: Frame)
        ensures
            final(self)@ == old(self)@.end(),
            frame.body@ == old(self)@.buffer,
            match cursor {
                Some(at) => frame.restore matches Some(bytes) && bytes@ == frame_end(
                    at.x as nat,
                    at.y as nat,
                ),
                None => frame.restore is None,
            },
    {
        self.cursor = None;
        let mut body: Vec<u8> = Vec::new();
        core::mem::swap(&mut self.buffer, &mut body);
        let restore = match cursor {
            Some(at) => {
                let mut bytes: Vec<u8> = Vec::new();
                push_frame_end(&mut bytes, at.x, at.y);
                Some(bytes)
            },
            None => None,
        };
        Frame { body, restore }
    }

    /// Forgets what the terminal shows: mode, cursor and both colors are
    /// again those of a new painter, so that the next cells send their colors
    /// and positions in full. The bytes gathered so far stay, and so does the
    /// choice of true color.
    pub fn reset(&mut self)
        ensures
            final(self)@ == old(self)@.reset(),
    {
        self.mode = PaintMode::Text;
        self.cursor = None;
        self.background = LayerState { color: None, code: None };
        self.foreground = LayerState { color: None, code: None };
    }
}

} // verus!
