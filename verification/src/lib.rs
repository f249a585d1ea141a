//! A differential terminal painter.
//!
//! A grid of cells, each either a text glyph or a pair of stacked pixels, is
//! encoded as a stream of ANSI/VT control sequences. The encoder remembers what
//! it last sent to the terminal (cursor, colors, rendering mode) and emits a
//! sequence only where the request differs from that.
//!
//! - [`gfx`] holds colors, their quantization to the 256-color palette, and
//!   grid coordinates.
//! - [`output`] holds the cells, the byte-exact control sequences, the
//!   [`Painter`](output::painter::Painter) itself, and the laws it obeys.
//!
//! The painter writes nothing by itself: a frame's bytes are handed to the
//! caller, who owns the terminal.

pub mod gfx;
pub mod output;
