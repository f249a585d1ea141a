//! The control sequences of the terminal protocol, as byte strings.
//!
//! Every sequence is given twice: as a `Seq<u8>` for contracts to speak of,
//! and as an encoder that appends exactly those bytes to an output buffer.

use crate::gfx::color::Color;
use vstd::prelude::*;
use vstd::utf8::{
    encode_scalar, encode_utf8, is_ascii_chars_encode_utf8, last_continuation_byte,
    leading_byte_width_3, second_last_continuation_byte,
};

verus! {

/// `ESC [`, the control sequence introducer.
pub const CSI: [u8; 2] = [0x1b, 0x5b];

/// `;`, which separates the parameters of a sequence.
pub const SEPARATOR: u8 = 0x3b;

/// `H`, the final byte of a cursor movement.
pub const CURSOR_POSITION: u8 = 0x48;

/// `m`, the final byte of a sequence that sets colors or attributes.
pub const GRAPHIC_RENDITION: u8 = 0x6d;

/// `2`, the parameter that announces a 24-bit color.
pub const DIRECT_COLOR: u8 = 0x32;

/// `5`, the parameter that announces a palette index.
pub const INDEXED_COLOR: u8 = 0x35;

/// `48`, the parameter that selects the background.
pub const SELECT_BACKGROUND: [u8; 2] = [0x34, 0x38];

/// `38`, the parameter that selects the foreground.
pub const SELECT_FOREGROUND: [u8; 2] = [0x33, 0x38];

/// `0`, the first of the ten ASCII digits.
pub const DIGIT_ZERO: u8 = 0x30;

/// `ESC[?25l` `ESC[?12l`: hide the cursor and stop it from blinking.
pub const FRAME_START: [u8; 12] = [
    0x1b, 0x5b, 0x3f, 0x32, 0x35, 0x6c,
    0x1b, 0x5b, 0x3f, 0x31, 0x32, 0x6c,
];

/// `ESC[?25h` `ESC[?12h`: show the cursor and let it blink again.
pub const CURSOR_ON: [u8; 12] = [
    0x1b, 0x5b, 0x3f, 0x32, 0x35, 0x68,
    0x1b, 0x5b, 0x3f, 0x31, 0x32, 0x68,
];

/// `ESC[1m` `ESC[4m`: bold and underline on. The pair marks the start of a run
/// of bitmap cells; it is a protocol marker, not a request for bold text.
pub const ENTER_BITMAP: [u8; 8] = [0x1b, 0x5b, 0x31, 0x6d, 0x1b, 0x5b, 0x34, 0x6d];

/// `ESC[22m` `ESC[24m`: bold and underline off, the end of a run of bitmap
/// cells.
pub const LEAVE_BITMAP: [u8; 10] = [0x1b, 0x5b, 0x32, 0x32, 0x6d, 0x1b, 0x5b, 0x32, 0x34, 0x6d];

/// U+2584 LOWER HALF BLOCK in UTF-8: the glyph of a bitmap cell, whose lower
/// half shows the foreground color and whose upper half the background.
pub const LOWER_HALF_BLOCK: [u8; 3] = [0xe2, 0x96, 0x84];

/// Which of the terminal's two colors a sequence sets.
#[derive(Clone, Copy, Debug, PartialEq, Eq, Structural)]
pub enum Layer {
    Background,
    Foreground,
}

impl Layer {
    /// The parameter that selects this layer.
    pub open spec fn selector(self) -> Seq<u8> {
        match self {
            Layer::Background => SELECT_BACKGROUND@,
            Layer::Foreground => SELECT_FOREGROUND@,
        }
    }
}

/// The decimal digits of `n` in ASCII, most significant first, without
/// leading zeros (`0` is the single digit `0`).
pub open spec fn decimal(n: nat) -> Seq<u8>
    decreases n,
{
    if n < 10 {
        seq![(DIGIT_ZERO + n) as u8]
    } else {
        decimal(n / 10).push((DIGIT_ZERO + n % 10) as u8)
    }
}

/// The number that a string of ASCII digits stands for.
pub open spec fn decimal_value(digits: Seq<u8>) -> nat
    decreases digits.len(),
{
    if digits.len() == 0 {
        0
    } else {
        (10 * decimal_value(digits.drop_last()) + (digits.last() - DIGIT_ZERO)) as nat
    }
}

/// The digits of a number are ASCII digits, begin with a zero only for zero
/// itself, and stand for that number.
pub proof fn lemma_decimal_reads_back(n: nat)
    ensures
        decimal(n).len() >= 1,
        forall|i: int|
            0 <= i < decimal(n).len() ==> DIGIT_ZERO <= #[trigger] decimal(n)[i] <= DIGIT_ZERO + 9,
        decimal(n)[0] == DIGIT_ZERO <==> n == 0,
        decimal_value(decimal(n)) == n,
    decreases n,
{
    if n >= 10 {
        lemma_decimal_reads_back(n / 10);
        let digits = decimal(n);
        assert(digits.drop_last() == decimal(n / 10));
        assert(digits[0] == decimal(n / 10)[0]);
    } else {
        let digits = decimal(n);
        assert(digits.drop_last() == Seq::<u8>::empty());
        assert(decimal_value(digits.drop_last()) == 0);
    }
}

/// `ESC[{row+1};{column+1}H`: move the cursor to a zero-based grid position.
/// The terminal counts rows and columns from one and takes the row first.
pub open spec fn cursor_to(column: nat, row: nat) -> Seq<u8> {
    CSI@ + decimal(row + 1) + seq![SEPARATOR] + decimal(column + 1) + seq![CURSOR_POSITION]
}

/// `ESC[48;2;{r};{g};{b}m` or `ESC[38;2;{r};{g};{b}m`: set a layer to a 24-bit
/// color.
pub open spec fn set_rgb(layer: Layer, color: Color) -> Seq<u8> {
    CSI@ + layer.selector() + seq![SEPARATOR, DIRECT_COLOR, SEPARATOR] + decimal(color.r as nat)
        + seq![SEPARATOR] + decimal(color.g as nat) + seq![SEPARATOR] + decimal(color.b as nat)
        + seq![GRAPHIC_RENDITION]
}

/// `ESC[48;5;{index}m` or `ESC[38;5;{index}m`: set a layer to a palette entry.
pub open spec fn set_indexed(layer: Layer, index: u8) -> Seq<u8> {
    CSI@ + layer.selector() + seq![SEPARATOR, INDEXED_COLOR, SEPARATOR] + decimal(index as nat)
        + seq![GRAPHIC_RENDITION]
}

/// `ESC[{row+1};{column+1}H` `ESC[?25h` `ESC[?12h`: park the cursor at a grid
/// position and make it visible and blinking again.
pub open spec fn frame_end(column: nat, row: nat) -> Seq<u8> {
    cursor_to(column, row) + CURSOR_ON@
}

/// The fixed sequences, read as text.
pub proof fn lemma_sequences_as_text()
    ensures
        CSI@ == encode_utf8("\x1b["@),
        SELECT_BACKGROUND@ == encode_utf8("48"@),
        SELECT_FOREGROUND@ == encode_utf8("38"@),
        FRAME_START@ == encode_utf8("\x1b[?25l\x1b[?12l"@),
        CURSOR_ON@ == encode_utf8("\x1b[?25h\x1b[?12h"@),
        ENTER_BITMAP@ == encode_utf8("\x1b[1m\x1b[4m"@),
        LEAVE_BITMAP@ == encode_utf8("\x1b[22m\x1b[24m"@),
{
    reveal_strlit("\x1b[");
    reveal_strlit("48");
    reveal_strlit("38");
    reveal_strlit("\x1b[?25l\x1b[?12l");
    reveal_strlit("\x1b[?25h\x1b[?12h");
    reveal_strlit("\x1b[1m\x1b[4m");
    reveal_strlit("\x1b[22m\x1b[24m");
    is_ascii_chars_encode_utf8("\x1b["@);
    is_ascii_chars_encode_utf8("48"@);
    is_ascii_chars_encode_utf8("38"@);
    is_ascii_chars_encode_utf8("\x1b[?25l\x1b[?12l"@);
    is_ascii_chars_encode_utf8("\x1b[?25h\x1b[?12h"@);
    is_ascii_chars_encode_utf8("\x1b[1m\x1b[4m"@);
    is_ascii_chars_encode_utf8("\x1b[22m\x1b[24m"@);
}

/// The glyph of a bitmap cell is the character U+2584 in UTF-8.
pub proof fn lemma_lower_half_block_is_utf8()
    ensures
        LOWER_HALF_BLOCK@ == encode_utf8(seq!['\u{2584}']),
{
    let block = seq!['\u{2584}'];
    assert(block.drop_first() == Seq::<char>::empty());
    assert(encode_utf8(block) == encode_scalar(0x2584u32) + encode_utf8(block.drop_first()));
    assert(leading_byte_width_3(0x2584u32) == 0xe2u8) by (bit_vector);
    assert(second_last_continuation_byte(0x2584u32) == 0x96u8) by (bit_vector);
    assert(last_continuation_byte(0x2584u32) == 0x84u8) by (bit_vector);
}

/// Appends `bytes` to `out`.
pub fn push_bytes(out: &mut Vec<u8>, bytes: &[u8])
    ensures
        final(out)@ == old(out)@ + bytes@,
{
    out.extend_from_slice(bytes);
}

/// Appends the decimal digits of `n` to `out`.
pub fn push_decimal(out: &mut Vec<u8>, n: u64)
    ensures
        final(out)@ == old(out)@ + decimal(n as nat),
    decreases n,
{
    if n >= 10 {
        push_decimal(out, n / 10);
    }
    let digit: u8 = (n % 10) as u8;
    out.push(DIGIT_ZERO + digit);
}

/// Appends the sequence that moves the cursor to column `column`, row `row`.
pub fn push_cursor_to(out: &mut Vec<u8>, column: u32, row: u32)
    ensures
        final(out)@ == old(out)@ + cursor_to(column as nat, row as nat),
{
    push_bytes(out, CSI.as_slice());
    push_decimal(out, row as u64 + 1);
    out.push(SEPARATOR);
    push_decimal(out, column as u64 + 1);
    out.push(CURSOR_POSITION);
}

fn push_selector(out: &mut Vec<u8>, layer: Layer)
    ensures
        final(out)@ == old(out)@ + layer.selector(),
{
    match layer {
        Layer::Background => push_bytes(out, SELECT_BACKGROUND.as_slice()),
        Layer::Foreground => push_bytes(out, SELECT_FOREGROUND.as_slice()),
    }
}

/// Appends the sequence that sets `layer` to the 24-bit color `color`.
pub fn push_set_rgb(out: &mut Vec<u8>, layer: Layer, color: Color)
    ensures
        final(out)@ == old(out)@ + set_rgb(layer, color),
{
    push_bytes(out, CSI.as_slice());
    push_selector(out, layer);
    out.push(SEPARATOR);
    out.push(DIRECT_COLOR);
    out.push(SEPARATOR);
    push_decimal(out, color.r as u64);
    out.push(SEPARATOR);
    push_decimal(out, color.g as u64);
    out.push(SEPARATOR);
    push_decimal(out, color.b as u64);
    out.push(GRAPHIC_RENDITION);
}

/// Appends the sequence that sets `layer` to the palette entry `index`.
pub fn push_set_indexed(out: &mut Vec<u8>, layer: Layer, index: u8)
    ensures
        final(out)@ == old(out)@ + set_indexed(layer, index),
{
    push_bytes(out, CSI.as_slice());
    push_selector(out, layer);
    out.push(SEPARATOR);
    out.push(INDEXED_COLOR);
    out.push(SEPARATOR);
    push_decimal(out, index as u64);
    out.push(GRAPHIC_RENDITION);
}

/// Appends the sequence that parks the cursor at column `column`, row `row`,
/// and shows it again.
pub fn push_frame_end(out: &mut Vec<u8>, column: u32, row: u32)
    ensures
        final(out)@ == old(out)@ + frame_end(column as nat, row as nat),
{
    push_cursor_to(out, column, row);
    push_bytes(out, CURSOR_ON.as_slice());
}

} // verus!
