//! Unbuffered terminal display mode
//!
//! This mode uses the 7x7 pixel [MarioChrome](https://github.com/techninja/MarioChron/) font to
//! draw characters to the display without needing a framebuffer. It will write characters from top
//! left to bottom right in an 8x8 pixel grid, restarting at the top left of the display once full.

use display_interface::DisplayError;
use vstd::prelude::*;
use vstd::std_specs::convert::FromSpecImpl;

use crate::brightness::Brightness;
use crate::command::{AddrMode, Command, Page};
use crate::interface::{
    append_steps, carried_out, command, filled, filled_vec, handed_over, push_command, push_step, ran_to,
    settle_addr_mode, settle_cursor, view_steps, DisplayInterface, Handed, Step, StepView,
};
use crate::mode::buffered_graphics::bit_of;
use crate::mode::displaymode::DisplayModeTrait;
use crate::mode::BasicMode;
use crate::properties::{area_plan, area_steps, DisplayProperties};
use crate::rotation::{rotation_plan, rotation_steps, DisplayRotation};
use crate::size::{
    offset_x_for, visible_offset_x, DisplaySize, DisplaySize128x32, DisplaySize128x64,
    DisplaySize64x48, DisplaySize72x40, DisplaySize96x16,
};
use crate::{
    addr_mode_plan, brightness_plan, brightness_steps, command_steps, data_steps, init_body,
    init_plan, init_steps, lemma_init_body_no_mode_changes, rotated_dims, Ssd1306,
};

verus! {

/// Number of 8 x 8 pixel character cells of a display of size `SIZE`.
pub open spec fn char_cells<SIZE: DisplaySize>() -> int {
    SIZE::width_spec() * SIZE::height_spec() / 64
}

/// Extends the [`DisplaySize`] trait to include number of characters that can fit on the
/// display.
pub trait TerminalDisplaySize: DisplaySize {
    /// The number of characters that can fit on the display at once (w * h / (8 * 8))
    fn char_num() -> (r: u8)
        ensures
            r as int == Self::width_spec() * Self::height_spec() / 64,
    ;

    /// Every character cell of the display, turned either way, lies in the driver's 128
    /// rows of page addresses.
    proof fn lemma_terminal_geometry()
        ensures
            Self::offset_y_spec() + Self::width_spec() <= 128,
    ;
}

impl TerminalDisplaySize for DisplaySize128x64 {
    fn char_num() -> (r: u8) {
        128
    }

    proof fn lemma_terminal_geometry() {
    }
}

impl TerminalDisplaySize for DisplaySize128x32 {
    fn char_num() -> (r: u8) {
        64
    }

    proof fn lemma_terminal_geometry() {
    }
}

impl TerminalDisplaySize for DisplaySize96x16 {
    fn char_num() -> (r: u8) {
        24
    }

    proof fn lemma_terminal_geometry() {
    }
}

impl TerminalDisplaySize for DisplaySize72x40 {
    fn char_num() -> (r: u8) {
        assert(72 * 40 / 64 == 45) by (nonlinear_arith);
        45
    }

    proof fn lemma_terminal_geometry() {
    }
}

impl TerminalDisplaySize for DisplaySize64x48 {
    fn char_num() -> (r: u8) {
        assert(64 * 48 / 64 == 48) by (nonlinear_arith);
        48
    }

    proof fn lemma_terminal_geometry() {
    }
}

/// Glyphs of the printable ASCII characters from `'!'` (0x21) to `'~'` (0x7e), in order:
/// eight columns from left to right, each a byte whose least significant bit is the top
/// pixel.
pub const FONT: [[u8; 8]; 94] = [
    // '!'
    [0x00, 0x00, 0x2f, 0x00, 0x00, 0x00, 0x00, 0x00],
    // '"'
    [0x00, 0x03, 0x00, 0x03, 0x00, 0x00, 0x00, 0x00],
    // '#'
    [0x00, 0x12, 0x3f, 0x12, 0x12, 0x3f, 0x12, 0x00],
    // '$'
    [0x00, 0x2e, 0x2a, 0x7f, 0x2a, 0x3a, 0x00, 0x00],
    // '%'
    [0x00, 0x23, 0x13, 0x08, 0x04, 0x32, 0x31, 0x00],
    // '&'
    [0x00, 0x10, 0x2a, 0x25, 0x2a, 0x10, 0x20, 0x00],
    // "'"
    [0x00, 0x02, 0x01, 0x00, 0x00, 0x00, 0x00, 0x00],
    // '('
    [0x00, 0x1e, 0x21, 0x00, 0x00, 0x00, 0x00, 0x00],
    // ')'
    [0x00, 0x21, 0x1e, 0x00, 0x00, 0x00, 0x00, 0x00],
    // '*'
    [0x00, 0x08, 0x2a, 0x1c, 0x2a, 0x08, 0x00, 0x00],
    // '+'
    [0x00, 0x08, 0x08, 0x3e, 0x08, 0x08, 0x00, 0x00],
    // ','
    [0x00, 0x80, 0x60, 0x00, 0x00, 0x00, 0x00, 0x00],
    // '-'
    [0x00, 0x08, 0x08, 0x08, 0x08, 0x08, 0x00, 0x00],
    // '.'
    [0x00, 0x30, 0x30, 0x00, 0x00, 0x00, 0x00, 0x00],
    // '/'
    [0x00, 0x20, 0x10, 0x08, 0x04, 0x02, 0x00, 0x00],
    // '0'
    [0x00, 0x1e, 0x31, 0x29, 0x25, 0x23, 0x1e, 0x00],
    // '1'
    [0x00, 0x22, 0x21, 0x3f, 0x20, 0x20, 0x20, 0x00],
    // '2'
    [0x00, 0x32, 0x29, 0x29, 0x29, 0x29, 0x26, 0x00],
    // '3'
    [0x00, 0x12, 0x21, 0x21, 0x25, 0x25, 0x1a, 0x00],
    // '4'
    [0x00, 0x18, 0x14, 0x12, 0x3f, 0x10, 0x00, 0x00],
    // '5'
    [0x00, 0x17, 0x25, 0x25, 0x25, 0x25, 0x19, 0x00],
    // '6'
    [0x00, 0x1e, 0x25, 0x25, 0x25, 0x25, 0x18, 0x00],
    // '7'
    [0x00, 0x01, 0x01, 0x31, 0x09, 0x05, 0x03, 0x00],
    // '8'
    [0x00, 0x1a, 0x25, 0x25, 0x25, 0x25, 0x1a, 0x00],
    // '9'
    [0x00, 0x06, 0x29, 0x29, 0x29, 0x29, 0x1e, 0x00],
    // ':'
    [0x00, 0x24, 0x00, 0x00, 0x00, 0x00, 0x00, 0x00],
    // ';'
    [0x00, 0x80, 0x64, 0x00, 0x00, 0x00, 0x00, 0x00],
    // '<'
    [0x00, 0x08, 0x14, 0x22, 0x00, 0x00, 0x00, 0x00],
    // '='
    [0x00, 0x14, 0x14, 0x14, 0x14, 0x14, 0x00, 0x00],
    // '>'
    [0x00, 0x22, 0x14, 0x08, 0x00, 0x00, 0x00, 0x00],
    // '?'
    [0x00, 0x02, 0x01, 0x01, 0x29, 0x05, 0x02, 0x00],
    // '@'
    [0x00, 0x1e, 0x21, 0x2d, 0x2b, 0x2d, 0x0e, 0x00],
    // 'A'
    [0x00, 0x3e, 0x09, 0x09, 0x09, 0x09, 0x3e, 0x00],
    // 'B'
    [0x00, 0x3f, 0x25, 0x25, 0x25, 0x25, 0x1a, 0x00],
    // 'C'
    [0x00, 0x1e, 0x21, 0x21, 0x21, 0x21, 0x12, 0x00],
    // 'D'
    [0x00, 0x3f, 0x21, 0x21, 0x21, 0x12, 0x0c, 0x00],
    // 'E'
    [0x00, 0x3f, 0x25, 0x25, 0x25, 0x25, 0x21, 0x00],
    // 'F'
    [0x00, 0x3f, 0x05, 0x05, 0x05, 0x05, 0x01, 0x00],
    // 'G'
    [0x00, 0x1e, 0x21, 0x21, 0x21, 0x29, 0x1a, 0x00],
    // 'H'
    [0x00, 0x3f, 0x04, 0x04, 0x04, 0x04, 0x3f, 0x00],
    // 'I'
    [0x00, 0x21, 0x21, 0x3f, 0x21, 0x21, 0x00, 0x00],
    // 'J'
    [0x00, 0x10, 0x20, 0x20, 0x20, 0x20, 0x1f, 0x00],
    // 'K'
    [0x00, 0x3f, 0x04, 0x0c, 0x0a, 0x11, 0x20, 0x00],
    // 'L'
    [0x00, 0x3f, 0x20, 0x20, 0x20, 0x20, 0x20, 0x00],
    // 'M'
    [0x00, 0x3f, 0x02, 0x04, 0x04, 0x02, 0x3f, 0x00],
    // 'N'
    [0x00, 0x3f, 0x02, 0x04, 0x08, 0x10, 0x3f, 0x00],
    // 'O'
    [0x00, 0x1e, 0x21, 0x21, 0x21, 0x21, 0x1e, 0x00],
    // 'P'
    [0x00, 0x3f, 0x09, 0x09, 0x09, 0x09, 0x06, 0x00],
    // 'Q'
    [0x00, 0x1e, 0x21, 0x29, 0x31, 0x21, 0x5e, 0x00],
    // 'R'
    [0x00, 0x3f, 0x09, 0x09, 0x09, 0x19, 0x26, 0x00],
    // 'S'
    [0x00, 0x12, 0x25, 0x25, 0x25, 0x25, 0x18, 0x00],
    // 'T'
    [0x00, 0x01, 0x01, 0x01, 0x3f, 0x01, 0x01, 0x00],
    // 'U'
    [0x00, 0x1f, 0x20, 0x20, 0x20, 0x20, 0x1f, 0x00],
    // 'V'
    [0x00, 0x0f, 0x10, 0x20, 0x20, 0x10, 0x0f, 0x00],
    // 'W'
    [0x00, 0x1f, 0x20, 0x10, 0x10, 0x20, 0x1f, 0x00],
    // 'X'
    [0x00, 0x21, 0x12, 0x0c, 0x0c, 0x12, 0x21, 0x00],
    // 'Y'
    [0x00, 0x01, 0x02, 0x3c, 0x02, 0x01, 0x00, 0x00],
    // 'Z'
    [0x00, 0x21, 0x31, 0x29, 0x25, 0x23, 0x21, 0x00],
    // '['
    [0x00, 0x3f, 0x21, 0x00, 0x00, 0x00, 0x00, 0x00],
    // '\\'
    [0x00, 0x02, 0x04, 0x08, 0x10, 0x20, 0x00, 0x00],
    // ']'
    [0x00, 0x21, 0x3f, 0x00, 0x00, 0x00, 0x00, 0x00],
    // '^'
    [0x00, 0x04, 0x02, 0x3f, 0x02, 0x04, 0x00, 0x00],
    // '_'
    [0x00, 0x40, 0x40, 0x40, 0x40, 0x40, 0x40, 0x00],
    // '`'
    [0x00, 0x01, 0x02, 0x00, 0x00, 0x00, 0x00, 0x00],
    // 'a'
    [0x00, 0x10, 0x2a, 0x2a, 0x2a, 0x3c, 0x00, 0x00],
    // 'b'
    [0x00, 0x3f, 0x24, 0x24, 0x24, 0x18, 0x00, 0x00],
    // 'c'
    [0x00, 0x1c, 0x22, 0x22, 0x22, 0x00, 0x00, 0x00],
    // 'd'
    [0x00, 0x18, 0x24, 0x24, 0x24, 0x3f, 0x00, 0x00],
    // 'e'
    [0x00, 0x1c, 0x2a, 0x2a, 0x2a, 0x24, 0x00, 0x00],
    // 'f'
    [0x00, 0x00, 0x3e, 0x05, 0x01, 0x00, 0x00, 0x00],
    // 'g'
    [0x00, 0x18, 0xa4, 0xa4, 0xa4, 0x7c, 0x00, 0x00],
    // 'h'
    [0x00, 0x3f, 0x04, 0x04, 0x04, 0x38, 0x00, 0x00],
    // 'i'
    [0x00, 0x00, 0x24, 0x3d, 0x20, 0x00, 0x00, 0x00],
    // 'j'
    [0x00, 0x20, 0x40, 0x40, 0x3d, 0x00, 0x00, 0x00],
    // 'k'
    [0x00, 0x3f, 0x0c, 0x12, 0x20, 0x00, 0x00, 0x00],
    // 'l'
    [0x00, 0x1f, 0x20, 0x20, 0x00, 0x00, 0x00, 0x00],
    // 'm'
    [0x00, 0x3e, 0x02, 0x3c, 0x02, 0x3c, 0x00, 0x00],
    // 'n'
    [0x00, 0x3e, 0x02, 0x02, 0x02, 0x3c, 0x00, 0x00],
    // 'o'
    [0x00, 0x1c, 0x22, 0x22, 0x22, 0x1c, 0x00, 0x00],
    // 'p'
    [0x00, 0xfc, 0x24, 0x24, 0x24, 0x18, 0x00, 0x00],
    // 'q'
    [0x00, 0x18, 0x24, 0x24, 0x24, 0xfc, 0x00, 0x00],
    // 'r'
    [0x00, 0x3e, 0x04, 0x02, 0x02, 0x00, 0x00, 0x00],
    // 's'
    [0x00, 0x24, 0x2a, 0x2a, 0x2a, 0x10, 0x00, 0x00],
    // 't'
    [0x00, 0x02, 0x1f, 0x22, 0x20, 0x00, 0x00, 0x00],
    // 'u'
    [0x00, 0x1e, 0x20, 0x20, 0x20, 0x1e, 0x00, 0x00],
    // 'v'
    [0x00, 0x06, 0x18, 0x20, 0x18, 0x06, 0x00, 0x00],
    // 'w'
    [0x00, 0x1e, 0x30, 0x1c, 0x30, 0x1e, 0x00, 0x00],
    // 'x'
    [0x00, 0x22, 0x14, 0x08, 0x14, 0x22, 0x00, 0x00],
    // 'y'
    [0x00, 0x1c, 0xa0, 0xa0, 0xa0, 0x7c, 0x00, 0x00],
    // 'z'
    [0x00, 0x22, 0x32, 0x2a, 0x26, 0x22, 0x00, 0x00],
    // '{'
    [0x00, 0x0c, 0x3f, 0x21, 0x00, 0x00, 0x00, 0x00],
    // '|'
    [0x00, 0x3f, 0x00, 0x00, 0x00, 0x00, 0x00, 0x00],
    // '}'
    [0x00, 0x21, 0x3f, 0x0c, 0x00, 0x00, 0x00, 0x00],
    // '~'
    [0x00, 0x02, 0x01, 0x02, 0x01, 0x00, 0x00, 0x00],
];

/// The glyph of `c`: its entry in [`FONT`], or a blank cell for any other character.
pub open spec fn glyph(c: char) -> Seq<u8> {
    let code = c as u32;
    if 0x21 <= code <= 0x7e {
        FONT@[code - 0x21]@
    } else {
        seq![0u8, 0u8, 0u8, 0u8, 0u8, 0u8, 0u8, 0u8]
    }
}

/// Bit `r` of each of the bytes `x0` to `x7`, gathered into one byte: bit `c` of the result
/// is bit `r` of `xc`.
pub open spec fn gather_bits(
    x0: u8,
    x1: u8,
    x2: u8,
    x3: u8,
    x4: u8,
    x5: u8,
    x6: u8,
    x7: u8,
    r: u8,
) -> u8 {
    ((x0 >> r) & 1) | (((x1 >> r) & 1) << 1u8) | (((x2 >> r) & 1) << 2u8) | (((x3 >> r) & 1)
        << 3u8) | (((x4 >> r) & 1) << 4u8) | (((x5 >> r) & 1) << 5u8) | (((x6 >> r) & 1) << 6u8)
        | (((x7 >> r) & 1) << 7u8)
}

/// Bit `r` of each of the eight bytes of `b`, gathered into one byte: bit `c` of the result
/// is bit `r` of `b[c]`.
pub open spec fn column_bits(b: Seq<u8>, r: u8) -> u8 {
    gather_bits(b[0], b[1], b[2], b[3], b[4], b[5], b[6], b[7], r)
}

/// The 8 x 8 bitmap `b` mirrored along its diagonal: byte `r` of the result holds the
/// pixels of row `r` of `b`.
pub open spec fn transpose(b: Seq<u8>) -> Seq<u8> {
    Seq::new(8, |r: int| column_bits(b, r as u8))
}

/// Bit `c` of the gathered byte is bit `r` of byte `c`.
proof fn lemma_gather_bits(x0: u8, x1: u8, x2: u8, x3: u8, x4: u8, x5: u8, x6: u8, x7: u8, r: u8)
    by (bit_vector)
    requires
        r < 8,
    ensures
        bit_of(gather_bits(x0, x1, x2, x3, x4, x5, x6, x7, r), 0) == bit_of(x0, r),
        bit_of(gather_bits(x0, x1, x2, x3, x4, x5, x6, x7, r), 1) == bit_of(x1, r),
        bit_of(gather_bits(x0, x1, x2, x3, x4, x5, x6, x7, r), 2) == bit_of(x2, r),
        bit_of(gather_bits(x0, x1, x2, x3, x4, x5, x6, x7, r), 3) == bit_of(x3, r),
        bit_of(gather_bits(x0, x1, x2, x3, x4, x5, x6, x7, r), 4) == bit_of(x4, r),
        bit_of(gather_bits(x0, x1, x2, x3, x4, x5, x6, x7, r), 5) == bit_of(x5, r),
        bit_of(gather_bits(x0, x1, x2, x3, x4, x5, x6, x7, r), 6) == bit_of(x6, r),
        bit_of(gather_bits(x0, x1, x2, x3, x4, x5, x6, x7, r), 7) == bit_of(x7, r),
{
}

/// Two bytes that agree in all eight bits are equal.
proof fn lemma_byte_from_bits(x: u8, y: u8)
    by (bit_vector)
    requires
        bit_of(x, 0) == bit_of(y, 0),
        bit_of(x, 1) == bit_of(y, 1),
        bit_of(x, 2) == bit_of(y, 2),
        bit_of(x, 3) == bit_of(y, 3),
        bit_of(x, 4) == bit_of(y, 4),
        bit_of(x, 5) == bit_of(y, 5),
        bit_of(x, 6) == bit_of(y, 6),
        bit_of(x, 7) == bit_of(y, 7),
    ensures
        x == y,
{
}

/// Setting bit `k` of `x` sets that bit and keeps the others.
proof fn lemma_set_bit(x: u8, k: u8, c: u8)
    by (bit_vector)
    requires
        k < 8,
        c < 8,
    ensures
        bit_of(x | (1u8 << k), c) == (c == k || bit_of(x, c)),
{
}

/// Masking with bit `k` tests that bit.
proof fn lemma_test_bit(s: u8, k: u8)
    by (bit_vector)
    requires
        k < 8,
    ensures
        (s & (1u8 << k) != 0) == bit_of(s, k),
{
}

/// Bit `c` of column `r` of the transposed bitmap is bit `r` of byte `c` of `b`.
proof fn lemma_transpose_bit(b: Seq<u8>, r: u8, c: u8)
    requires
        b.len() == 8,
        r < 8,
        c < 8,
    ensures
        bit_of(column_bits(b, r), c) == bit_of(b[c as int], r),
{
    lemma_gather_bits(b[0], b[1], b[2], b[3], b[4], b[5], b[6], b[7], r);
    if c == 0 {
    } else if c == 1 {
    } else if c == 2 {
    } else if c == 3 {
    } else if c == 4 {
    } else if c == 5 {
    } else if c == 6 {
    } else {
        assert(c == 7);
    }
}

/// A byte is determined by its eight bits.
proof fn lemma_bytes_agree(x: u8, y: u8)
    requires
        forall|c: u8| c < 8 ==> bit_of(x, c) == bit_of(y, c),
    ensures
        x == y,
{
    assert(bit_of(x, 0) == bit_of(y, 0));
    assert(bit_of(x, 1) == bit_of(y, 1));
    assert(bit_of(x, 2) == bit_of(y, 2));
    assert(bit_of(x, 3) == bit_of(y, 3));
    assert(bit_of(x, 4) == bit_of(y, 4));
    assert(bit_of(x, 5) == bit_of(y, 5));
    assert(bit_of(x, 6) == bit_of(y, 6));
    assert(bit_of(x, 7) == bit_of(y, 7));
    lemma_byte_from_bits(x, y);
}

/// Transposing a bitmap twice gives it back.
pub proof fn lemma_transpose_involutive(b: Seq<u8>)
    requires
        b.len() == 8,
    ensures
        transpose(transpose(b)) == b,
{
    let t = transpose(b);
    let tt = transpose(t);
    assert forall|r: int| 0 <= r < 8 implies tt[r] == b[r] by {
        assert forall|c: u8| c < 8 implies bit_of(tt[r], c) == bit_of(b[r], c) by {
            lemma_transpose_bit(t, r as u8, c);
            lemma_transpose_bit(b, c, r as u8);
        }
        lemma_bytes_agree(tt[r], b[r]);
    }
    assert(tt =~= b);
}

/// The glyph of `input`; a blank cell for characters without one.
pub fn char_to_bitmap(input: char) -> (r: [u8; 8])
    ensures
        r@ == glyph(input),
{
    // Populate the array with the data from the character array at the right index
    let code = input as u32;
    if 0x21 <= code && code <= 0x7e {
        FONT[(code - 0x21) as usize]
    } else {
        [0u8, 0u8, 0u8, 0u8, 0u8, 0u8, 0u8, 0u8]
    }
}

/// The bitmap turned by a quarter: byte `r` of the result holds the pixels of row `r` of
/// `bitmap`.
pub fn rotate_bitmap(bitmap: [u8; 8]) -> (r: [u8; 8])
    ensures
        r@ == transpose(bitmap@),
{
    let mut rotated: [u8; 8] = [0u8, 0u8, 0u8, 0u8, 0u8, 0u8, 0u8, 0u8];
    assert forall|r: u8, c: u8| r < 8 && c < 8 implies !bit_of(rotated@[r as int], c) by {
        assert(bit_of(0u8, c) == false) by (bit_vector)
            requires
                c < 8,
        ;
    }
    let mut col: usize = 0;
    while col < 8
        invariant
            col <= 8,
            rotated@.len() == 8,
            forall|r: u8, c: u8|
                r < 8 && c < 8 ==> #[trigger] bit_of(rotated@[r as int], c) == (c < col && bit_of(
                    bitmap@[c as int],
                    r,
                )),
        decreases 8 - col,
    {
        // source.msb is the top pixel
        let source = bitmap[col];
        let mut row: usize = 0;
        while row < 8
            invariant
                col < 8,
                row <= 8,
                rotated@.len() == 8,
                source == bitmap@[col as int],
                forall|r: u8, c: u8|
                    r < 8 && c < 8 ==> #[trigger] bit_of(rotated@[r as int], c) == ((c < col || (c
                        == col && r < row)) && bit_of(bitmap@[c as int], r)),
            decreases 8 - row,
        {
            let ghost before = rotated@;
            let bit = source & (1u8 << row as u8) != 0;
            proof {
                lemma_test_bit(source, row as u8);
            }
            if bit {
                let v = rotated[row] | (1u8 << col as u8);
                rotated[row] = v;
            }
            proof {
                assert forall|r: u8, c: u8| r < 8 && c < 8 implies #[trigger] bit_of(
                    rotated@[r as int],
                    c,
                ) == ((c < col || (c == col && r < row + 1)) && bit_of(bitmap@[c as int], r)) by {
                    if r == row && bit {
                        lemma_set_bit(before[r as int], col as u8, c);
                    }
                }
            }
            row = row + 1;
        }
        col = col + 1;
    }
    proof {
        assert forall|r: int| 0 <= r < 8 implies rotated@[r] == transpose(bitmap@)[r] by {
            assert forall|c: u8| c < 8 implies bit_of(rotated@[r], c) == bit_of(
                column_bits(bitmap@, r as u8),
                c,
            ) by {
                lemma_transpose_bit(bitmap@, r as u8, c);
                assert(bit_of(rotated@[(r as u8) as int], c) == bit_of(bitmap@[c as int], r as u8));
            }
            lemma_bytes_agree(rotated@[r], column_bits(bitmap@, r as u8));
        }
        assert(rotated@ =~= transpose(bitmap@));
    }
    rotated
}

/// Contains the new row that the cursor has wrapped around to
#[derive(Debug, Clone, Copy, PartialEq, Eq, Structural)]
pub struct CursorWrapEvent(pub u8);

/// Logical cursor of the terminal: the character cell that the next character is written
/// to, and the number of character cells of the screen.
#[derive(Debug, Clone, Copy, PartialEq, Eq, Structural)]
pub struct Cursor {
    col: u8,
    row: u8,
    width: u8,
    height: u8,
}

impl Cursor {
    /// Column of the cursor.
    pub closed spec fn col_spec(self) -> u8 {
        self.col
    }

    /// Row of the cursor.
    pub closed spec fn row_spec(self) -> u8 {
        self.row
    }

    /// Number of character columns.
    pub closed spec fn width_spec(self) -> u8 {
        self.width
    }

    /// Number of character rows.
    pub closed spec fn height_spec(self) -> u8 {
        self.height
    }

    /// A cursor at the top left of a screen of `width_pixels` x `height_pixels` pixels, which
    /// holds one character cell per 8 x 8 pixels.
    pub closed spec fn new_spec(width_pixels: u8, height_pixels: u8) -> Cursor {
        Cursor { col: 0, row: 0, width: width_pixels / 8, height: height_pixels / 8 }
    }

    /// The cursor moved to column `col` of row `row`.
    pub closed spec fn moved(self, col: u8, row: u8) -> Cursor {
        Cursor { col, row, width: self.width, height: self.height }
    }

    /// The cursor one character further: to the next column, or to the start of the next
    /// row after the last column, or to the top left after the last cell.
    pub closed spec fn advanced(self) -> Cursor {
        let col = ((self.col + 1) % (self.width as int)) as u8;
        let row = if col == 0 {
            ((self.row + 1) % (self.height as int)) as u8
        } else {
            self.row
        };
        Cursor { col, row, width: self.width, height: self.height }
    }

    /// The cursor at the start of the next row, or of the top row after the last one.
    pub closed spec fn next_line(self) -> Cursor {
        Cursor {
            col: 0,
            row: ((self.row + 1) % (self.height as int)) as u8,
            width: self.width,
            height: self.height,
        }
    }

    /// What each move of the cursor gives: a new cursor stands at the top left, a moved one
    /// where it was moved to, an advanced one at the next cell, and one on the next line at
    /// the start of the next row; none of the moves changes the number of columns or rows.
    pub proof fn lemma_moves(self, col: u8, row: u8, width_pixels: u8, height_pixels: u8)
        ensures
            Cursor::new_spec(width_pixels, height_pixels).col_spec() == 0,
            Cursor::new_spec(width_pixels, height_pixels).row_spec() == 0,
            Cursor::new_spec(width_pixels, height_pixels).width_spec() == width_pixels / 8,
            Cursor::new_spec(width_pixels, height_pixels).height_spec() == height_pixels / 8,
            self.moved(col, row).col_spec() == col,
            self.moved(col, row).row_spec() == row,
            self.moved(col, row).width_spec() == self.width_spec(),
            self.moved(col, row).height_spec() == self.height_spec(),
            self.width_spec() > 0 ==> self.advanced().col_spec() == (self.col_spec() + 1) % (
            self.width_spec() as int),
            self.width_spec() > 0 && self.height_spec() > 0 ==> self.advanced().row_spec() == if (
            self.col_spec() + 1) % (self.width_spec() as int) == 0 {
                (self.row_spec() + 1) % (self.height_spec() as int)
            } else {
                self.row_spec() as int
            },
            self.advanced().width_spec() == self.width_spec(),
            self.advanced().height_spec() == self.height_spec(),
            self.next_line().col_spec() == 0,
            self.height_spec() > 0 ==> self.next_line().row_spec() == (self.row_spec() + 1) % (
            self.height_spec() as int),
            self.next_line().width_spec() == self.width_spec(),
            self.next_line().height_spec() == self.height_spec(),
    {
    }

    /// Each cursor of `cs` came from the one before it by one of the cursor's moves.
    pub open spec fn moves_from_each_other(cs: Seq<Cursor>) -> bool {
        forall|i: int|
            0 <= i < cs.len() - 1 ==> {
                ||| #[trigger] cs[i + 1] == cs[i].advanced()
                ||| cs[i + 1] == cs[i].next_line()
                ||| cs[i + 1] == cs[i].moved(cs[i + 1].col_spec(), cs[i + 1].row_spec())
            }
    }

    /// The grid of character cells never changes: along any sequence of cursors, each moved
    /// from the one before it by `advance`, `advance_line` or `set_position`, every cursor has
    /// the columns and rows of the first.
    pub proof fn lemma_grid_kept(cs: Seq<Cursor>)
        requires
            Cursor::moves_from_each_other(cs),
        ensures
            forall|i: int|
                0 <= i < cs.len() ==> (#[trigger] cs[i]).width_spec() == cs[0].width_spec()
                    && cs[i].height_spec() == cs[0].height_spec(),
        decreases cs.len(),
    {
        if cs.len() > 1 {
            let front = cs.drop_last();
            assert forall|i: int| 0 <= i < front.len() - 1 implies {
                ||| #[trigger] front[i + 1] == front[i].advanced()
                ||| front[i + 1] == front[i].next_line()
                ||| front[i + 1] == front[i].moved(front[i + 1].col_spec(), front[i + 1].row_spec())
            } by {
                assert(front[i] == cs[i] && front[i + 1] == cs[i + 1]);
            }
            Cursor::lemma_grid_kept(front);
            let k = cs.len() - 2;
            assert(cs[k] == front[k]);
            let c = cs[k];
            c.lemma_moves(cs[k + 1].col_spec(), cs[k + 1].row_spec(), 0, 0);
            assert(cs[k + 1] == cs[k].advanced() || cs[k + 1] == cs[k].next_line() || cs[k + 1]
                == cs[k].moved(cs[k + 1].col_spec(), cs[k + 1].row_spec()));
            assert forall|i: int| 0 <= i < cs.len() implies (#[trigger] cs[i]).width_spec()
                == cs[0].width_spec() && cs[i].height_spec() == cs[0].height_spec() by {
                if i < cs.len() - 1 {
                    assert(cs[i] == front[i]);
                    assert(cs[0] == front[0]);
                }
            }
        }
    }

    /// Number of the cell of the cursor, counting from the top left along the rows.
    pub open spec fn linear_pos(self) -> int {
        self.row_spec() * self.width_spec() + self.col_spec()
    }

    /// Advancing moves the cursor to the next cell in reading order, and from the last cell
    /// back to the top left.
    #[verifier::spinoff_prover]
    pub proof fn lemma_advance_wraps(self)
        requires
            self.inv(),
        ensures
            self.advanced().inv(),
            self.advanced().linear_pos() == (self.linear_pos() + 1) % (self.width_spec()
                * self.height_spec()),
    {
        let w = self.width as int;
        let h = self.height as int;
        let c = self.col as int;
        let r = self.row as int;
        let a = self.advanced();
        assert(self.linear_pos() == r * w + c);
        if c + 1 < w {
            assert((c + 1) % w == c + 1) by (nonlinear_arith)
                requires
                    0 <= c + 1 < w,
            ;
            assert(r * w + c + 1 < w * h) by (nonlinear_arith)
                requires
                    0 <= r < h,
                    0 <= c + 1 < w,
            ;
            assert((r * w + c + 1) % (w * h) == r * w + c + 1) by (nonlinear_arith)
                requires
                    0 <= r * w + c + 1 < w * h,
            ;
            assert(a.col == c + 1 && a.row == r);
            assert(a.linear_pos() == r * w + c + 1);
        } else {
            assert((c + 1) % w == 0) by (nonlinear_arith)
                requires
                    c + 1 == w,
                    w > 0,
            ;
            if r + 1 < h {
                assert((r + 1) % h == r + 1) by (nonlinear_arith)
                    requires
                        0 <= r + 1 < h,
                ;
                assert(r * w + c + 1 == (r + 1) * w) by (nonlinear_arith)
                    requires
                        c + 1 == w,
                ;
                assert((r + 1) * w < w * h) by (nonlinear_arith)
                    requires
                        r + 1 < h,
                        w > 0,
                ;
                assert(((r + 1) * w) % (w * h) == (r + 1) * w) by (nonlinear_arith)
                    requires
                        0 <= (r + 1) * w < w * h,
                ;
                assert(a.col == 0 && a.row == r + 1);
                assert(a.linear_pos() == (r + 1) * w);
            } else {
                assert((r + 1) % h == 0) by (nonlinear_arith)
                    requires
                        r + 1 == h,
                        h > 0,
                ;
                assert(r * w + c + 1 == w * h) by (nonlinear_arith)
                    requires
                        c + 1 == w,
                        r + 1 == h,
                ;
                assert((w * h) % (w * h) == 0) by (nonlinear_arith)
                    requires
                        w * h > 0,
                ;
                assert(w * h > 0) by (nonlinear_arith)
                    requires
                        w > 0,
                        h > 0,
                ;
                assert(a.col == 0 && a.row == 0);
                assert(a.row_spec() * a.width_spec() == 0) by (nonlinear_arith)
                    requires
                        a.row_spec() == 0,
                ;
                assert(a.linear_pos() == 0);
            }
        }
    }

    /// The screen has at least one character cell and the cursor stands on one.
    pub open spec fn inv(self) -> bool {
        &&& self.width_spec() > 0
        &&& self.height_spec() > 0
        &&& self.col_spec() < self.width_spec()
        &&& self.row_spec() < self.height_spec()
    }

    /// A cursor at the top left of a screen of `width_pixels` x `height_pixels` pixels,
    /// which holds one character cell per 8 x 8 pixels.
    pub fn new(width_pixels: u8, height_pixels: u8) -> (r: Self)
        ensures
            r.width_spec() == width_pixels / 8,
            r.height_spec() == height_pixels / 8,
            r.col_spec() == 0,
            r.row_spec() == 0,
            r == Cursor::new_spec(width_pixels, height_pixels),
    {
        let width = width_pixels / 8;
        let height = height_pixels / 8;
        Cursor { col: 0, row: 0, width, height }
    }

    /// Advances the logical cursor by one character.
    /// Returns a value indicating if this caused the cursor to wrap to the next line or the next
    /// screen.
    pub fn advance(&mut self) -> (r: Option<CursorWrapEvent>)
        requires
            old(self).inv(),
        ensures
            final(self).inv(),
            final(self).width_spec() == old(self).width_spec(),
            final(self).height_spec() == old(self).height_spec(),
            final(self).col_spec() == (old(self).col_spec() + 1) % (old(self).width_spec() as int),
            final(self).row_spec() == if final(self).col_spec() == 0 {
                (old(self).row_spec() + 1) % (old(self).height_spec() as int)
            } else {
                old(self).row_spec() as int
            },
            *final(self) == old(self).advanced(),
            r == if final(self).col_spec() == 0 {
                Some(CursorWrapEvent(final(self).row_spec()))
            } else {
                None
            },
    {
        self.col = (self.col + 1) % self.width;
        if self.col == 0 {
            self.row = (self.row + 1) % self.height;
            Some(CursorWrapEvent(self.row))
        } else {
            None
        }
    }

    /// Advances the logical cursor to the start of the next line
    /// Returns a value indicating the now active line
    pub fn advance_line(&mut self) -> (r: CursorWrapEvent)
        requires
            old(self).height_spec() > 0,
            old(self).row_spec() < 255,
        ensures
            old(self).width_spec() > 0 ==> final(self).inv(),
            final(self).row_spec() < final(self).height_spec(),
            final(self).width_spec() == old(self).width_spec(),
            final(self).height_spec() == old(self).height_spec(),
            final(self).col_spec() == 0,
            final(self).row_spec() == (old(self).row_spec() + 1) % (old(self).height_spec() as int),
            *final(self) == old(self).next_line(),
            r == CursorWrapEvent(final(self).row_spec()),
    {
        self.row = (self.row + 1) % self.height;
        self.col = 0;
        CursorWrapEvent(self.row)
    }

    /// Sets the position of the logical cursor arbitrarily.
    /// The position will be capped at the maximal possible position.
    pub fn set_position(&mut self, col: u8, row: u8)
        requires
            old(self).width_spec() > 0,
            old(self).height_spec() > 0,
        ensures
            final(self).inv(),
            final(self).width_spec() == old(self).width_spec(),
            final(self).height_spec() == old(self).height_spec(),
            *final(self) == old(self).moved(final(self).col_spec(), final(self).row_spec()),
            final(self).col_spec() == if col < old(self).width_spec() {
                col
            } else {
                (old(self).width_spec() - 1) as u8
            },
            final(self).row_spec() == if row < old(self).height_spec() {
                row
            } else {
                (old(self).height_spec() - 1) as u8
            },
    {
        self.col = if col < self.width - 1 { col } else { self.width - 1 };
        self.row = if row < self.height - 1 { row } else { self.height - 1 };
    }

    /// Gets the position of the logical cursor on screen in (col, row) order
    pub fn get_position(&self) -> (r: (u8, u8))
        ensures
            r == (self.col_spec(), self.row_spec()),
    {
        (self.col, self.row)
    }

    /// Gets the logical dimensions of the screen in terms of characters, as (width, height)
    pub fn get_dimensions(&self) -> (r: (u8, u8))
        ensures
            r == (self.width_spec(), self.height_spec()),
    {
        (self.width, self.height)
    }
}

/// Errors which can occur when interacting with the terminal mode
#[derive(Debug, Clone)]
pub enum TerminalModeError {
    /// An error occurred in the underlying interface layer
    InterfaceError(DisplayError),
    /// The mode was used before it was initialized
    Uninitialized,
    /// A location was specified outside the bounds of the screen
    OutOfBounds,
}

impl TerminalModeError {
    /// The text that names the error: `InterfaceError`, `Uninitialized` or `OutOfBound`.
    pub fn message(&self) -> (r: &'static str)
        ensures
            r@ == match self {
                TerminalModeError::InterfaceError(_) => "InterfaceError"@,
                TerminalModeError::Uninitialized => "Uninitialized"@,
                TerminalModeError::OutOfBounds => "OutOfBound"@,
            },
    {
        match self {
            TerminalModeError::InterfaceError(_) => "InterfaceError",
            TerminalModeError::Uninitialized => "Uninitialized",
            TerminalModeError::OutOfBounds => "OutOfBound",
        }
    }
}

/// What a terminal operation sends, and what it returns once everything it sent went
/// through.
pub type TerminalPlan = (Seq<StepView>, Result<(), TerminalModeError>);

/// `first`, followed by `second` unless `first` ended in an error.
pub open spec fn followed_by(first: TerminalPlan, second: TerminalPlan) -> TerminalPlan {
    if first.1 is Ok {
        (first.0 + second.0, second.1)
    } else {
        first
    }
}

/// A cursor that can stand on a display of size `DSIZE`, turned either way: it has the
/// character cells of the display and stands on one of them.
pub open spec fn cursor_fits<DSIZE: DisplaySize>(c: Cursor) -> bool {
    &&& c.inv()
    &&& c.width_spec() == DSIZE::width_spec() / 8 || c.width_spec() == DSIZE::height_spec() / 8
    &&& c.height_spec() == DSIZE::width_spec() / 8 || c.height_spec() == DSIZE::height_spec()
        / 8
}

/// Every cursor that `steps` moves to fits a display of size `DSIZE`.
pub open spec fn cursors_fit<DSIZE: DisplaySize>(steps: Seq<StepView>) -> bool {
    forall|i: int|
        0 <= i < steps.len() ==> (#[trigger] steps[i] matches StepView::Cursor(c) ==> cursor_fits::<
            DSIZE,
        >(c))
}

/// The cursor at the top left of the display of size `DSIZE` turned by `rotation`.
pub open spec fn home_cursor<DSIZE: DisplaySize>(rotation: DisplayRotation) -> Cursor {
    let dims = rotated_dims(rotation, DSIZE::width_spec(), DSIZE::height_spec());
    Cursor::new_spec(dims.0, dims.1)
}

/// The top left pixel `(column, page row)` in display memory of the character cell
/// `(column, row)` of the display turned by `rotation`.
pub open spec fn cell_origin<DSIZE: DisplaySize>(
    rotation: DisplayRotation,
    column: u8,
    row: u8,
) -> (int, int) {
    let off = offset_x_for::<DSIZE>(rotation);
    if rotation.is_sideways() {
        (off + row * 8, DSIZE::offset_y_spec() + column * 8)
    } else {
        (off + column * 8, DSIZE::offset_y_spec() + row * 8)
    }
}

/// Where character cells lie in display memory: each cell is 8 columns wide and one page
/// high, counted from the visible area's corner. With the segment order as wired
/// (`Rotate0`, `Rotate270`) the visible area starts `offset_x` columns in; with it flipped
/// (`Rotate90`, `Rotate180`) it starts that far from the other edge of the driver's 128
/// columns. A quarter turn trades the cell's column and row.
pub proof fn lemma_cell_origin<DSIZE: DisplaySize>(column: u8, row: u8)
    ensures
        ({
            let ox = DSIZE::offset_x_spec() as int;
            let oy = DSIZE::offset_y_spec() as int;
            let flipped = 128 - DSIZE::width_spec() - ox;
            &&& cell_origin::<DSIZE>(DisplayRotation::Rotate0, column, row) == (
                ox + 8 * column,
                oy + 8 * row,
            )
            &&& cell_origin::<DSIZE>(DisplayRotation::Rotate180, column, row) == (
                flipped + 8 * column,
                oy + 8 * row,
            )
            &&& cell_origin::<DSIZE>(DisplayRotation::Rotate90, column, row) == (
                flipped + 8 * row,
                oy + 8 * column,
            )
            &&& cell_origin::<DSIZE>(DisplayRotation::Rotate270, column, row) == (
                ox + 8 * row,
                oy + 8 * column,
            )
        }),
{
}

/// Moving the cursor to the character cell `(column, row)`: the display memory position of
/// that cell is selected and the cursor moves there, if the cursor exists and the cell lies
/// on the screen.
pub open spec fn position_plan<DSIZE: DisplaySize>(
    rotation: DisplayRotation,
    cursor: Option<Cursor>,
    column: u8,
    row: u8,
) -> TerminalPlan {
    match cursor {
        None => (Seq::empty(), Err(TerminalModeError::Uninitialized)),
        Some(c) => if column >= c.width_spec() || row >= c.height_spec() {
            (Seq::empty(), Err(TerminalModeError::OutOfBounds))
        } else {
            let o = cell_origin::<DSIZE>(rotation, column, row);
            (
                seq![
                    command(Command::ColStart(o.0 as u8)),
                    command(Command::PageStart(Page::of_row(o.1 as u8))),
                    StepView::Cursor(c.moved(column, row)),
                ],
                Ok(()),
            )
        },
    }
}

/// Resetting the cursor to the top left of the display turned by `rotation`.
pub open spec fn reset_plan<DSIZE: DisplaySize>(rotation: DisplayRotation) -> TerminalPlan {
    let home = home_cursor::<DSIZE>(rotation);
    followed_by((seq![StepView::Cursor(home)], Ok(())), position_plan::<DSIZE>(rotation, Some(home), 0, 0))
}

/// Clearing the display: select the whole display in horizontal addressing mode, send a
/// blank for every character cell, go back to page addressing and reset the cursor.
pub open spec fn terminal_clear_plan<DSIZE: DisplaySize>(rotation: DisplayRotation) -> TerminalPlan {
    let offset_x = offset_x_for::<DSIZE>(rotation);
    let offset_y = DSIZE::offset_y_spec();
    let blanks = Seq::new(char_cells::<DSIZE>() as nat, |i: int| StepView::Data(filled(8, 0)));
    let body = addr_mode_plan(AddrMode::Horizontal) + area_plan(
        (offset_x as u8, offset_y),
        ((DSIZE::width_spec() + offset_x) as u8, (DSIZE::height_spec() + offset_y) as u8),
    ) + blanks + addr_mode_plan(AddrMode::Page);
    followed_by((body, Ok(())), reset_plan::<DSIZE>(rotation))
}

/// The bitmap that shows `c` on the display turned by `rotation`.
pub open spec fn bitmap_for(rotation: DisplayRotation, c: char) -> Seq<u8> {
    if rotation.is_sideways() {
        transpose(glyph(c))
    } else {
        glyph(c)
    }
}

/// Printing `c`: a line feed moves the cursor to the start of the next row, a carriage
/// return to the start of its row, and any other character is drawn in the cursor's cell
/// before the cursor advances.
pub open spec fn print_char_plan<DSIZE: DisplaySize>(
    rotation: DisplayRotation,
    cursor: Option<Cursor>,
    c: char,
) -> TerminalPlan {
    if c == '\n' {
        match cursor {
            None => (Seq::empty(), Err(TerminalModeError::Uninitialized)),
            Some(cur) => {
                let next = cur.next_line();
                (
                    seq![
                        StepView::Cursor(next),
                        command(Command::ColStart(0)),
                        command(Command::PageStart(Page::of_row((next.row_spec() * 8) as u8))),
                    ],
                    Ok(()),
                )
            },
        }
    } else if c == '\r' {
        match cursor {
            None => (seq![command(Command::ColStart(0))], Err(TerminalModeError::Uninitialized)),
            Some(cur) => (
                seq![command(Command::ColStart(0)), StepView::Cursor(cur.moved(0, cur.row_spec()))],
                Ok(()),
            ),
        }
    } else {
        let draw = seq![StepView::Data(bitmap_for(rotation, c))];
        match cursor {
            None => (draw, Err(TerminalModeError::Uninitialized)),
            Some(cur) => {
                let next = cur.advanced();
                followed_by(
                    (draw.push(StepView::Cursor(next)), Ok(())),
                    position_plan::<DSIZE>(rotation, Some(next), next.col_spec(), next.row_spec()),
                )
            },
        }
    }
}

/// Carrying out `steps`, planned to end in `outcome`, from the state `(mode0, cursor0)` on an
/// interface that had been handed `sent0` can have ended in `r` with `(mode1, cursor1)` and
/// the interface having been handed `sent1`: an interface error stops it at the transfer that
/// failed, else it returns `outcome` with every step carried out.
pub open spec fn ran_terminal(
    steps: Seq<StepView>,
    outcome: Result<(), TerminalModeError>,
    mode0: AddrMode,
    cursor0: Option<Cursor>,
    sent0: Seq<Handed>,
    r: Result<(), TerminalModeError>,
    mode1: AddrMode,
    cursor1: Option<Cursor>,
    sent1: Seq<Handed>,
) -> bool {
    match r {
        Err(TerminalModeError::InterfaceError(e)) => carried_out(
            steps,
            Err(e),
            mode0,
            cursor0,
            sent0,
            mode1,
            cursor1,
            sent1,
        ),
        _ => r == outcome && carried_out(
            steps,
            Ok(()),
            mode0,
            cursor0,
            sent0,
            mode1,
            cursor1,
            sent1,
        ),
    }
}

/// The glyph drawn for a character follows the rotation only in whether the display is
/// turned sideways: `Rotate180` draws what `Rotate0` draws, the glyph itself; `Rotate270`
/// draws what `Rotate90` draws, the glyph turned a quarter, which turned again gives the
/// glyph back.
pub proof fn lemma_glyph_turns_with_rotation(c: char)
    ensures
        bitmap_for(DisplayRotation::Rotate0, c) == glyph(c),
        bitmap_for(DisplayRotation::Rotate180, c) == glyph(c),
        bitmap_for(DisplayRotation::Rotate90, c) == transpose(glyph(c)),
        bitmap_for(DisplayRotation::Rotate270, c) == transpose(glyph(c)),
        transpose(bitmap_for(DisplayRotation::Rotate90, c)) == glyph(c),
        transpose(bitmap_for(DisplayRotation::Rotate270, c)) == glyph(c),
{
    lemma_glyph_len(c);
    lemma_transpose_involutive(glyph(c));
}

/// Every glyph is 8 bytes, one per column of the character cell.
pub proof fn lemma_glyph_len(c: char)
    ensures
        glyph(c).len() == 8,
{
    let code = c as u32;
    if 0x21 <= code <= 0x7e {
        assert(FONT@[code - 0x21]@.len() == 8);
    }
}

/// A line feed moves the cursor to the start of the next row (the top row after the last)
/// and selects column 0 (`0x00 0x10`) and that row's page (`0xB0` plus the row); a carriage
/// return selects column 0 and moves the cursor to the start of its row. Neither sends any
/// display data. Without a cursor, a line feed sends nothing and a carriage return only
/// selects column 0, and both fail as uninitialised.
pub proof fn lemma_line_controls<DSIZE: DisplaySize>(rotation: DisplayRotation, cur: Cursor)
    requires
        cur.inv(),
        cur.height_spec() <= 16,
    ensures
        print_char_plan::<DSIZE>(rotation, Some(cur), '\n') == (
            seq![
                StepView::Cursor(cur.next_line()),
                StepView::Commands(seq![0x00u8, 0x10u8]),
                StepView::Commands(seq![(0xB0 + cur.next_line().row_spec()) as u8]),
            ],
            Ok::<(), TerminalModeError>(()),
        ),
        cur.next_line().row_spec() == (cur.row_spec() + 1) % (cur.height_spec() as int),
        cur.next_line().col_spec() == 0,
        print_char_plan::<DSIZE>(rotation, Some(cur), '\r') == (
            seq![
                StepView::Commands(seq![0x00u8, 0x10u8]),
                StepView::Cursor(cur.moved(0, cur.row_spec())),
            ],
            Ok::<(), TerminalModeError>(()),
        ),
        print_char_plan::<DSIZE>(rotation, None, '\n') == (
            Seq::<StepView>::empty(),
            Err::<(), TerminalModeError>(TerminalModeError::Uninitialized),
        ),
        print_char_plan::<DSIZE>(rotation, None, '\r') == (
            seq![StepView::Commands(seq![0x00u8, 0x10u8])],
            Err::<(), TerminalModeError>(TerminalModeError::Uninitialized),
        ),
{
    let next = cur.next_line();
    cur.lemma_moves(0, cur.row_spec(), 0, 0);
    assert(next.row_spec() < 16);
    crate::command::lemma_addressing_commands(
        (next.row_spec() * 8) as u8,
        0,
        0,
        Page::of_row((next.row_spec() * 8) as u8),
        Page::Page0,
    );
    assert(Command::ColStart(0).bytes() =~= seq![0x00u8, 0x10u8]);
    assert(Page::of_row((next.row_spec() * 8) as u8).value() == next.row_spec());
    assert(command(Command::PageStart(Page::of_row((next.row_spec() * 8) as u8)))
        == StepView::Commands(seq![(0xB0 + next.row_spec()) as u8]));
}

/// Printing a character other than a line feed or carriage return first sends one block of
/// display data: the character's glyph, turned a quarter when the display is turned
/// `Rotate90` or `Rotate270` and as it is for `Rotate0` and `Rotate180`.
pub proof fn lemma_print_draws_glyph<DSIZE: DisplaySize>(
    rotation: DisplayRotation,
    cursor: Option<Cursor>,
    c: char,
)
    requires
        c != '\n',
        c != '\r',
    ensures
        print_char_plan::<DSIZE>(rotation, cursor, c).0.len() >= 1,
        print_char_plan::<DSIZE>(rotation, cursor, c).0[0] == StepView::Data(
            match rotation {
                DisplayRotation::Rotate90 | DisplayRotation::Rotate270 => transpose(glyph(c)),
                DisplayRotation::Rotate0 | DisplayRotation::Rotate180 => glyph(c),
            },
        ),
{
    lemma_glyph_turns_with_rotation(c);
}

/// Printing a character other than a line feed or carriage return on an initialised
/// terminal, when every transfer goes through, succeeds and leaves the cursor on the next
/// cell in reading order: the next column, the start of the next row, or the top left after
/// the last cell.
pub proof fn lemma_print_advances<DSIZE: DisplaySize>(
    rotation: DisplayRotation,
    cursor: Cursor,
    c: char,
)
    requires
        cursor_fits::<DSIZE>(cursor),
        c != '\n',
        c != '\r',
    ensures
        print_char_plan::<DSIZE>(rotation, Some(cursor), c).1 is Ok,
        settle_cursor(Some(cursor), print_char_plan::<DSIZE>(rotation, Some(cursor), c).0) == Some(
            cursor.advanced(),
        ),
        cursor.advanced().linear_pos() == (cursor.linear_pos() + 1) % (cursor.width_spec()
            * cursor.height_spec()),
{
    cursor.lemma_advance_wraps();
    let next = cursor.advanced();
    assert(next.moved(next.col_spec(), next.row_spec()) == next);
    let plan = print_char_plan::<DSIZE>(rotation, Some(cursor), c);
    assert(plan.0.last() == StepView::Cursor(next));
}

/// Moving the cursor of an initialised terminal to a cell on the screen, when every transfer
/// goes through, succeeds and leaves the cursor on that cell, which the position then reads
/// back.
pub proof fn lemma_position_reads_back<DSIZE: DisplaySize>(
    rotation: DisplayRotation,
    cursor: Cursor,
    column: u8,
    row: u8,
)
    requires
        cursor_fits::<DSIZE>(cursor),
        column < cursor.width_spec(),
        row < cursor.height_spec(),
    ensures
        position_plan::<DSIZE>(rotation, Some(cursor), column, row).1 is Ok,
        settle_cursor(Some(cursor), position_plan::<DSIZE>(rotation, Some(cursor), column, row).0)
            matches Some(c) && c.col_spec() == column && c.row_spec() == row && c.width_spec()
            == cursor.width_spec() && c.height_spec() == cursor.height_spec(),
{
    let plan = position_plan::<DSIZE>(rotation, Some(cursor), column, row);
    assert(plan.0.last() == StepView::Cursor(cursor.moved(column, row)));
}

/// Printing character `i` of `cs` took the state from `(modes[i], cursors[i])`, with the
/// interface having been handed `sents[i]`, to `(modes[i + 1], cursors[i + 1], sents[i + 1])`,
/// whatever it returned.
pub open spec fn printed_one<DSIZE: DisplaySize>(
    rotation: DisplayRotation,
    cs: Seq<char>,
    modes: Seq<AddrMode>,
    cursors: Seq<Option<Cursor>>,
    sents: Seq<Seq<Handed>>,
    i: int,
) -> bool {
    exists|r: Result<(), TerminalModeError>|
        #[trigger] ran_terminal(
            print_char_plan::<DSIZE>(rotation, cursors[i], cs[i]).0,
            print_char_plan::<DSIZE>(rotation, cursors[i], cs[i]).1,
            modes[i],
            cursors[i],
            sents[i],
            r,
            modes[i + 1],
            cursors[i + 1],
            sents[i + 1],
        )
}

/// Printing the characters `cs` one by one, each whatever became of the ones before, went
/// through the states `(modes[i], cursors[i], sents[i])`.
pub open spec fn printed_through<DSIZE: DisplaySize>(
    rotation: DisplayRotation,
    cs: Seq<char>,
    modes: Seq<AddrMode>,
    cursors: Seq<Option<Cursor>>,
    sents: Seq<Seq<Handed>>,
) -> bool {
    &&& modes.len() == cs.len() + 1
    &&& cursors.len() == cs.len() + 1
    &&& sents.len() == cs.len() + 1
    &&& forall|i: int|
        0 <= i < cs.len() ==> #[trigger] printed_one::<DSIZE>(
            rotation,
            cs,
            modes,
            cursors,
            sents,
            i,
        )
}

/// Printing the characters `cs` one by one, each whatever became of the ones before, can
/// have taken the state `(mode0, cursor0)`, with the interface having been handed `sent0`, to
/// `(mode1, cursor1, sent1)`.
pub open spec fn printed<DSIZE: DisplaySize>(
    rotation: DisplayRotation,
    cs: Seq<char>,
    mode0: AddrMode,
    cursor0: Option<Cursor>,
    sent0: Seq<Handed>,
    mode1: AddrMode,
    cursor1: Option<Cursor>,
    sent1: Seq<Handed>,
) -> bool {
    exists|modes: Seq<AddrMode>, cursors: Seq<Option<Cursor>>, sents: Seq<Seq<Handed>>|
        #[trigger] printed_through::<DSIZE>(rotation, cs, modes, cursors, sents) && modes[0]
            == mode0 && cursors[0] == cursor0 && sents[0] == sent0 && modes.last() == mode1
            && cursors.last() == cursor1 && sents.last() == sent1
}

/// The cursor after any prefix of a program whose cursors fit, started from one that fits,
/// fits.
proof fn lemma_settle_cursor_fits<DSIZE: DisplaySize>(start: Option<Cursor>, steps: Seq<StepView>)
    requires
        start matches Some(c) ==> cursor_fits::<DSIZE>(c),
        cursors_fit::<DSIZE>(steps),
    ensures
        settle_cursor(start, steps) matches Some(c) ==> cursor_fits::<DSIZE>(c),
    decreases steps.len(),
{
    if steps.len() > 0 {
        let last = steps.last();
        assert(last == steps[steps.len() - 1]);
        if !(last is Cursor) {
            assert(cursors_fit::<DSIZE>(steps.drop_last())) by {
                assert forall|i: int| 0 <= i < steps.drop_last().len() implies (
                #[trigger] steps.drop_last()[i] matches StepView::Cursor(c) ==> cursor_fits::<
                    DSIZE,
                >(c)) by {
                    assert(steps.drop_last()[i] == steps[i]);
                }
            }
            lemma_settle_cursor_fits::<DSIZE>(start, steps.drop_last());
        }
    }
}

/// Terminal mode handler
pub struct TerminalMode<DI, DSIZE: TerminalDisplaySize> {
    pub(crate) properties: DisplayProperties<DI, DSIZE>,
    pub(crate) cursor: Option<Cursor>,
}

impl<DI, DSIZE: TerminalDisplaySize> TerminalMode<DI, DSIZE> {
    /// Get display dimensions in pixels, taking into account the current rotation of the
    /// display.
    pub fn dimensions(&self) -> (r: (u8, u8))
        ensures
            r == rotated_dims(self.rotation_view(), DSIZE::width_spec(), DSIZE::height_spec()),
    {
        self.properties.get_dimensions()
    }

    /// The cursor, once there is one, fits the display.
    pub closed spec fn wf(&self) -> bool {
        self.cursor matches Some(c) ==> cursor_fits::<DSIZE>(c)
    }

    /// The display properties.
    pub open(crate) spec fn properties_view(&self) -> DisplayProperties<DI, DSIZE> {
        self.properties
    }

    /// The cursor, if the terminal was initialised.
    pub open(crate) spec fn cursor_view(&self) -> Option<Cursor> {
        self.cursor
    }

    /// The display rotation.
    pub open(crate) spec fn rotation_view(&self) -> DisplayRotation {
        self.properties.display_rotation
    }

    /// The addressing mode the display was last set to.
    pub open(crate) spec fn addr_mode_view(&self) -> AddrMode {
        self.properties.addr_mode
    }

    /// Create new TerminalMode instance, without a cursor until it is initialised.
    pub fn new(properties: DisplayProperties<DI, DSIZE>) -> (r: Self)
        ensures
            r.wf(),
            r.properties_view() == properties,
            r.cursor_view() is None,
    {
        TerminalMode { properties, cursor: None }
    }

    /// Release the display properties used by `TerminalMode`
    pub fn into_properties(self) -> (r: DisplayProperties<DI, DSIZE>)
        ensures
            r == self.properties_view(),
    {
        self.properties
    }

    /// Release the display interface used by `TerminalMode`
    pub fn release(self) -> (r: DI)
        ensures
            r == self.properties_view().iface_view(),
    {
        self.properties.release()
    }

    /// Write out data to display. This is a noop in terminal mode.
    pub fn flush(&mut self) -> (r: Result<(), TerminalModeError>)
        ensures
            r is Ok,
            *final(self) == *old(self),
    {
        Ok(())
    }

    /// Get the current cursor position, in character coordinates.
    /// This is the (column, row) that the next character will be written to.
    pub fn get_position(&self) -> (r: Result<(u8, u8), TerminalModeError>)
        ensures
            r == match self.cursor_view() {
                Some(c) => Ok((c.col_spec(), c.row_spec())),
                None => Err(TerminalModeError::Uninitialized),
            },
    {
        match &self.cursor {
            Some(c) => Ok(c.get_position()),
            None => Err(TerminalModeError::Uninitialized),
        }
    }
}

/// The steps that move the cursor to the character cell `(column, row)` of the display
/// turned by `rotation`.
fn position_steps<DSIZE: TerminalDisplaySize>(
    rotation: DisplayRotation,
    cursor: Option<Cursor>,
    column: u8,
    row: u8,
) -> (r: (Vec<Step>, Result<(), TerminalModeError>))
    requires
        cursor matches Some(c) ==> cursor_fits::<DSIZE>(c),
    ensures
        (view_steps(r.0@), r.1) == position_plan::<DSIZE>(rotation, cursor, column, row),
        cursors_fit::<DSIZE>(view_steps(r.0@)),
{
    proof {
        DSIZE::lemma_geometry();
        DSIZE::lemma_terminal_geometry();
    }
    let mut steps: Vec<Step> = Vec::new();
    match cursor {
        None => (steps, Err(TerminalModeError::Uninitialized)),
        Some(c) => {
            let (width, height) = c.get_dimensions();
            if column >= width || row >= height {
                return (steps, Err(TerminalModeError::OutOfBounds));
            }
            let offset_x = visible_offset_x::<DSIZE>(rotation);
            let ghost w = DSIZE::width_spec() as int;
            let ghost h = DSIZE::height_spec() as int;
            assert(column * 8 + 8 <= w || column * 8 + 8 <= h) by (nonlinear_arith)
                requires
                    column < width,
                    width == w / 8 || width == h / 8,
                    w >= 0,
                    h >= 0,
            ;
            assert(row * 8 + 8 <= w || row * 8 + 8 <= h) by (nonlinear_arith)
                requires
                    row < height,
                    height == w / 8 || height == h / 8,
                    w >= 0,
                    h >= 0,
            ;
            let (col_addr, row_addr) = match rotation {
                DisplayRotation::Rotate0 | DisplayRotation::Rotate180 => (
                    offset_x + column * 8,
                    DSIZE::offset_y() + row * 8,
                ),
                DisplayRotation::Rotate90 | DisplayRotation::Rotate270 => (
                    offset_x + row * 8,
                    DSIZE::offset_y() + column * 8,
                ),
            };
            push_command(&mut steps, Command::ColStart(col_addr));
            push_command(&mut steps, Command::PageStart(Page::from(row_addr)));
            let mut moved = c;
            moved.set_position(column, row);
            push_step(&mut steps, Step::Cursor(moved));
            proof {
                let v = view_steps(steps@);
                assert(v =~= position_plan::<DSIZE>(rotation, cursor, column, row).0);
                assert forall|i: int| 0 <= i < v.len() implies (#[trigger] v[i] matches StepView::Cursor(
                    k,
                ) ==> cursor_fits::<DSIZE>(k)) by {
                    if i == 2 {
                        assert(v[i] == StepView::Cursor(moved));
                    }
                }
            }
            (steps, Ok(()))
        },
    }
}

/// The steps that reset the cursor to the top left of the display turned by `rotation`.
fn reset_steps<DSIZE: TerminalDisplaySize>(rotation: DisplayRotation) -> (r: (
    Vec<Step>,
    Result<(), TerminalModeError>,
))
    ensures
        (view_steps(r.0@), r.1) == reset_plan::<DSIZE>(rotation),
        cursors_fit::<DSIZE>(view_steps(r.0@)),
{
    proof {
        DSIZE::lemma_geometry();
    }
    // Initialise the counter when we know it's valid
    let (w, h) = match rotation {
        DisplayRotation::Rotate0 | DisplayRotation::Rotate180 => (DSIZE::width(), DSIZE::height()),
        DisplayRotation::Rotate90 | DisplayRotation::Rotate270 => (DSIZE::height(), DSIZE::width()),
    };
    let home = Cursor::new(w, h);
    let mut steps: Vec<Step> = Vec::new();
    push_step(&mut steps, Step::Cursor(home));
    // Reset cursor position
    let (more, outcome) = position_steps::<DSIZE>(rotation, Some(home), 0, 0);
    let ghost first = view_steps(steps@);
    append_steps(&mut steps, more);
    proof {
        let v = view_steps(steps@);
        assert(first =~= seq![StepView::Cursor(home)]);
        assert forall|i: int| 0 <= i < v.len() implies (#[trigger] v[i] matches StepView::Cursor(
            k,
        ) ==> cursor_fits::<DSIZE>(k)) by {
            if i > 0 {
                assert(v[i] == view_steps(more@)[i - 1]);
            }
        }
    }
    (steps, outcome)
}

/// The steps that clear the display turned by `rotation` and reset the cursor.
#[verifier::spinoff_prover]
fn clear_steps<DSIZE: TerminalDisplaySize>(rotation: DisplayRotation) -> (r: (
    Vec<Step>,
    Result<(), TerminalModeError>,
))
    ensures
        (view_steps(r.0@), r.1) == terminal_clear_plan::<DSIZE>(rotation),
        cursors_fit::<DSIZE>(view_steps(r.0@)),
{
    proof {
        DSIZE::lemma_geometry();
    }
    let mut steps: Vec<Step> = Vec::new();
    // Let the chip handle line wrapping so we can fill the screen with blanks faster
    push_command(&mut steps, Command::AddressMode(AddrMode::Horizontal));
    push_step(&mut steps, Step::AddrMode(AddrMode::Horizontal));
    let offset_x = visible_offset_x::<DSIZE>(rotation);
    append_steps(
        &mut steps,
        area_steps(
            (offset_x, DSIZE::offset_y()),
            (DSIZE::width() + offset_x, DSIZE::height() + DSIZE::offset_y()),
        ),
    );
    let ghost head = view_steps(steps@);
    let ghost blanks = Seq::new(
        char_cells::<DSIZE>() as nat,
        |i: int| StepView::Data(filled(8, 0)),
    );
    // Clear the display
    let n = DSIZE::char_num();
    let mut i: u8 = 0;
    while i < n
        invariant
            i <= n,
            n == char_cells::<DSIZE>(),
            blanks == Seq::new(char_cells::<DSIZE>() as nat, |i: int| StepView::Data(filled(8, 0))),
            view_steps(steps@) == head + blanks.take(i as int),
        decreases n - i,
    {
        push_step(&mut steps, Step::Data(filled_vec(8, 0)));
        assert(blanks.take(i + 1) =~= blanks.take(i as int).push(StepView::Data(filled(8, 0))));
        i = i + 1;
    }
    assert(blanks.take(n as int) =~= blanks);
    // But for normal operation we manage the line wrapping
    push_command(&mut steps, Command::AddressMode(AddrMode::Page));
    push_step(&mut steps, Step::AddrMode(AddrMode::Page));
    let ghost body = view_steps(steps@);
    let (reset, outcome) = reset_steps::<DSIZE>(rotation);
    append_steps(&mut steps, reset);
    proof {
        let v = view_steps(steps@);
        let plan = terminal_clear_plan::<DSIZE>(rotation);
        assert(body =~= addr_mode_plan(AddrMode::Horizontal) + area_plan(
            (offset_x_for::<DSIZE>(rotation) as u8, DSIZE::offset_y_spec()),
            (
                (DSIZE::width_spec() + offset_x_for::<DSIZE>(rotation)) as u8,
                (DSIZE::height_spec() + DSIZE::offset_y_spec()) as u8,
            ),
        ) + blanks + addr_mode_plan(AddrMode::Page));
        assert(v =~= plan.0);
        assert forall|i: int| 0 <= i < v.len() implies (#[trigger] v[i] matches StepView::Cursor(
            k,
        ) ==> cursor_fits::<DSIZE>(k)) by {
            if i >= body.len() {
                assert(v[i] == view_steps(reset@)[i - body.len()]);
            } else {
                assert(v[i] == body[i]);
                if i >= head.len() && i < head.len() + blanks.len() {
                    assert(body[i] == blanks[i - head.len()]);
                }
            }
        }
    }
    (steps, outcome)
}

/// The bitmap that shows `c` on the display turned by `rotation`.
pub fn bitmap_for_rotation(rotation: DisplayRotation, c: char) -> (r: [u8; 8])
    ensures
        r@ == bitmap_for(rotation, c),
{
    match rotation {
        DisplayRotation::Rotate0 | DisplayRotation::Rotate180 => char_to_bitmap(c),
        DisplayRotation::Rotate90 | DisplayRotation::Rotate270 => {
            let bitmap = char_to_bitmap(c);
            rotate_bitmap(bitmap)
        },
    }
}

/// The steps that print `c` on the display turned by `rotation`, with the cursor `cursor`.
fn print_char_steps<DSIZE: TerminalDisplaySize>(
    rotation: DisplayRotation,
    cursor: Option<Cursor>,
    c: char,
) -> (r: (Vec<Step>, Result<(), TerminalModeError>))
    requires
        cursor matches Some(k) ==> cursor_fits::<DSIZE>(k),
    ensures
        (view_steps(r.0@), r.1) == print_char_plan::<DSIZE>(rotation, cursor, c),
        cursors_fit::<DSIZE>(view_steps(r.0@)),
{
    proof {
        DSIZE::lemma_geometry();
    }
    let ghost plan = print_char_plan::<DSIZE>(rotation, cursor, c);
    let mut steps: Vec<Step> = Vec::new();
    if c == '\n' {
        match cursor {
            None => (steps, Err(TerminalModeError::Uninitialized)),
            Some(cur) => {
                let mut next = cur;
                let CursorWrapEvent(new_line) = next.advance_line();
                push_step(&mut steps, Step::Cursor(next));
                push_command(&mut steps, Command::ColStart(0));
                assert(new_line * 8 < 128) by (nonlinear_arith)
                    requires
                        new_line < next.height_spec(),
                        next.height_spec() <= 16,
                ;
                push_command(&mut steps, Command::PageStart(Page::from(new_line * 8)));
                proof {
                    let v = view_steps(steps@);
                    assert(v =~= plan.0);
                    assert forall|i: int| 0 <= i < v.len() implies (#[trigger] v[i] matches StepView::Cursor(
                        k,
                    ) ==> cursor_fits::<DSIZE>(k)) by {
                        if i == 0 {
                            assert(v[i] == StepView::Cursor(next));
                        }
                    }
                }
                (steps, Ok(()))
            },
        }
    } else if c == '\r' {
        push_command(&mut steps, Command::ColStart(0));
        match cursor {
            None => {
                assert(view_steps(steps@) =~= plan.0);
                (steps, Err(TerminalModeError::Uninitialized))
            },
            Some(cur) => {
                let (_, cur_line) = cur.get_position();
                let mut moved = cur;
                moved.set_position(0, cur_line);
                push_step(&mut steps, Step::Cursor(moved));
                proof {
                    let v = view_steps(steps@);
                    assert(v =~= plan.0);
                    assert forall|i: int| 0 <= i < v.len() implies (#[trigger] v[i] matches StepView::Cursor(
                        k,
                    ) ==> cursor_fits::<DSIZE>(k)) by {
                        if i == 1 {
                            assert(v[i] == StepView::Cursor(moved));
                        }
                    }
                }
                (steps, Ok(()))
            },
        }
    } else {
        let bitmap = bitmap_for_rotation(rotation, c);
        append_steps(&mut steps, data_steps(&bitmap));
        match cursor {
            None => {
                assert(view_steps(steps@) =~= plan.0);
                (steps, Err(TerminalModeError::Uninitialized))
            },
            Some(cur) => {
                // Increment character counter and potentially wrap line
                let mut next = cur;
                next.advance();
                push_step(&mut steps, Step::Cursor(next));
                let ghost head = view_steps(steps@);
                let (col, row) = next.get_position();
                let (more, outcome) = position_steps::<DSIZE>(rotation, Some(next), col, row);
                append_steps(&mut steps, more);
                proof {
                    let v = view_steps(steps@);
                    assert(v =~= plan.0);
                    assert forall|i: int| 0 <= i < v.len() implies (#[trigger] v[i] matches StepView::Cursor(
                        k,
                    ) ==> cursor_fits::<DSIZE>(k)) by {
                        if i == 1 {
                            assert(v[i] == StepView::Cursor(next));
                        } else if i > 1 {
                            assert(v[i] == view_steps(more@)[i - 2]);
                        }
                    }
                }
                (steps, outcome)
            },
        }
    }
}

impl<DI, DSIZE: TerminalDisplaySize> DisplayModeTrait<DI, DSIZE> for TerminalMode<DI, DSIZE> {
    open spec fn held_properties(&self) -> DisplayProperties<DI, DSIZE> {
        self.properties_view()
    }

    /// Create new TerminalMode instance, without a cursor until it is initialised.
    fn new(properties: DisplayProperties<DI, DSIZE>) -> (r: Self)
        ensures
            r.wf(),
            r.properties_view() == properties,
            r.cursor_view() is None,
    {
        TerminalMode { properties, cursor: None }
    }

    /// Release the display properties used by `TerminalMode`
    fn into_properties(self) -> (r: DisplayProperties<DI, DSIZE>)
        ensures
            r == self.properties_view(),
    {
        self.properties
    }
}

impl<DI, DSIZE: TerminalDisplaySize> From<DisplayProperties<DI, DSIZE>> for TerminalMode<DI, DSIZE> {
    /// A terminal over the display properties, without a cursor until it is initialised.
    fn from(properties: DisplayProperties<DI, DSIZE>) -> (r: Self) {
        TerminalMode { properties, cursor: None }
    }
}

impl<DI, DSIZE: TerminalDisplaySize> FromSpecImpl<DisplayProperties<DI, DSIZE>> for TerminalMode<DI, DSIZE> {
    open spec fn obeys_from_spec() -> bool {
        true
    }

    closed spec fn from_spec(properties: DisplayProperties<DI, DSIZE>) -> Self {
        TerminalMode { properties, cursor: None }
    }
}

impl<DI, SIZE: TerminalDisplaySize> Ssd1306<DI, SIZE, BasicMode> {
    /// Convert the display into a text-only, terminal-like mode, without a cursor until it
    /// is initialised.
    ///
    /// See [`TerminalMode`] for more information.
    pub fn into_terminal_mode(self) -> (r: TerminalMode<DI, SIZE>)
        ensures
            r.wf(),
            r.properties_view().iface_view() == self.interface_view(),
            r.rotation_view() == self.rotation_view(),
            r.addr_mode_view() == self.addr_mode_view(),
            r.cursor_view() is None,
    {
        let Ssd1306 { interface, mode: _, size, addr_mode, rotation } = self;
        TerminalMode::new(
            DisplayProperties {
                iface: interface,
                display_size: size,
                display_rotation: rotation,
                addr_mode,
            },
        )
    }
}

impl<DI: DisplayInterface, DSIZE: TerminalDisplaySize> TerminalMode<DI, DSIZE> {
    /// Every transfer handed to the interface so far, in order.
    pub open spec fn sent_view(&self) -> Seq<Handed> {
        self.properties_view().sent_view()
    }

    /// Run a program of steps, planned to end in `outcome`.
    fn run_plan(&mut self, steps: Vec<Step>, outcome: Result<(), TerminalModeError>) -> (r: Result<
        (),
        TerminalModeError,
    >)
        requires
            old(self).wf(),
            cursors_fit::<DSIZE>(view_steps(steps@)),
            !(outcome matches Err(TerminalModeError::InterfaceError(_))),
        ensures
            final(self).wf(),
            ran_terminal(
                view_steps(steps@),
                outcome,
                old(self).addr_mode_view(),
                old(self).cursor_view(),
                old(self).sent_view(),
                r,
                final(self).addr_mode_view(),
                final(self).cursor_view(),
                final(self).sent_view(),
            ),
            final(self).rotation_view() == old(self).rotation_view(),
            final(self).properties_view().size_view() == old(self).properties_view().size_view(),
    {
        let mut cursor = self.cursor;
        let r = self.properties.run_with_cursor(&steps, &mut cursor);
        let ghost v = view_steps(steps@);
        let ghost n = choose|n: int|
            #[trigger] ran_to(v, n, r) && self.properties.addr_mode == settle_addr_mode(
                old(self).properties.addr_mode,
                v.take(n),
            ) && cursor == settle_cursor(old(self).cursor, v.take(n))
                && self.properties.sent_view() == old(self).properties.sent_view() + handed_over(
                    v,
                    n,
                    r,
                );
        proof {
            assert(cursors_fit::<DSIZE>(v.take(n))) by {
                assert forall|i: int| 0 <= i < v.take(n).len() implies (
                #[trigger] v.take(n)[i] matches StepView::Cursor(c) ==> cursor_fits::<DSIZE>(
                    c,
                )) by {
                    assert(v.take(n)[i] == v[i]);
                }
            }
            lemma_settle_cursor_fits::<DSIZE>(old(self).cursor, v.take(n));
        }
        self.cursor = cursor;
        match r {
            Ok(()) => {
                proof {
                    assert(ran_to(v, n, Ok(())));
                }
                outcome
            },
            Err(e) => Err(TerminalModeError::InterfaceError(e)),
        }
    }

    /// Print each character of `s` in turn, whatever the printing of the others returned.
    pub fn write_str(&mut self, s: &str) -> (r: Result<(), TerminalModeError>)
        requires
            old(self).wf(),
        ensures
            final(self).wf(),
            r is Ok,
            printed::<DSIZE>(
                old(self).rotation_view(),
                s@,
                old(self).addr_mode_view(),
                old(self).cursor_view(),
                old(self).sent_view(),
                final(self).addr_mode_view(),
                final(self).cursor_view(),
                final(self).sent_view(),
            ),
            final(self).rotation_view() == old(self).rotation_view(),
    {
        broadcast use vstd::string::axiom_spec_iter;

        let ghost rotation = self.rotation_view();
        let ghost mode0 = self.addr_mode_view();
        let ghost cursor0 = self.cursor_view();
        let ghost sent0 = self.sent_view();
        let ghost mut done: Seq<char> = Seq::empty();
        let ghost mut modes: Seq<AddrMode> = seq![mode0];
        let ghost mut cursors: Seq<Option<Cursor>> = seq![cursor0];
        let ghost mut sents: Seq<Seq<Handed>> = seq![sent0];
        for c in it: s.chars()
            invariant
                self.wf(),
                self.rotation_view() == rotation,
                done == it.history(),
                it.seq() == s@,
                printed_through::<DSIZE>(rotation, done, modes, cursors, sents),
                modes[0] == mode0,
                cursors[0] == cursor0,
                sents[0] == sent0,
                modes.last() == self.addr_mode_view(),
                cursors.last() == self.cursor_view(),
                sents.last() == self.sent_view(),
        {
            let r = self.print_char(c);
            proof {
                let done1 = done.push(c);
                let modes1 = modes.push(self.addr_mode_view());
                let cursors1 = cursors.push(self.cursor_view());
                let sents1 = sents.push(self.sent_view());
                assert forall|i: int| 0 <= i < done1.len() implies #[trigger] printed_one::<DSIZE>(
                    rotation,
                    done1,
                    modes1,
                    cursors1,
                    sents1,
                    i,
                ) by {
                    if i < done.len() {
                        assert(printed_one::<DSIZE>(rotation, done, modes, cursors, sents, i));
                        assert(done1[i] == done[i] && modes1[i] == modes[i] && modes1[i + 1]
                            == modes[i + 1] && cursors1[i] == cursors[i] && cursors1[i + 1]
                            == cursors[i + 1] && sents1[i] == sents[i] && sents1[i
                            + 1] == sents[i + 1]);
                    } else {
                        assert(ran_terminal(
                            print_char_plan::<DSIZE>(rotation, cursors1[i], done1[i]).0,
                            print_char_plan::<DSIZE>(rotation, cursors1[i], done1[i]).1,
                            modes1[i],
                            cursors1[i],
                            sents1[i],
                            r,
                            modes1[i + 1],
                            cursors1[i + 1],
                            sents1[i + 1],
                        ));
                    }
                }
                done = done1;
                modes = modes1;
                cursors = cursors1;
                sents = sents1;
            }
        }
        proof {
            assert(done =~= s@);
            assert(printed_through::<DSIZE>(rotation, s@, modes, cursors, sents));
        }
        Ok(())
    }

    /// Clear the display and reset the cursor to the top left corner
    pub fn clear(&mut self) -> (r: Result<(), TerminalModeError>)
        requires
            old(self).wf(),
        ensures
            final(self).wf(),
            ran_terminal(
                terminal_clear_plan::<DSIZE>(old(self).rotation_view()).0,
                terminal_clear_plan::<DSIZE>(old(self).rotation_view()).1,
                old(self).addr_mode_view(),
                old(self).cursor_view(),
                old(self).sent_view(),
                r,
                final(self).addr_mode_view(),
                final(self).cursor_view(),
                final(self).sent_view(),
            ),
            final(self).rotation_view() == old(self).rotation_view(),
    {
        let (steps, outcome) = clear_steps::<DSIZE>(self.properties.display_rotation);
        self.run_plan(steps, outcome)
    }

    /// Print a character to the display
    pub fn print_char(&mut self, c: char) -> (r: Result<(), TerminalModeError>)
        requires
            old(self).wf(),
        ensures
            final(self).wf(),
            ran_terminal(
                print_char_plan::<DSIZE>(old(self).rotation_view(), old(self).cursor_view(), c).0,
                print_char_plan::<DSIZE>(old(self).rotation_view(), old(self).cursor_view(), c).1,
                old(self).addr_mode_view(),
                old(self).cursor_view(),
                old(self).sent_view(),
                r,
                final(self).addr_mode_view(),
                final(self).cursor_view(),
                final(self).sent_view(),
            ),
            final(self).rotation_view() == old(self).rotation_view(),
    {
        let (steps, outcome) = print_char_steps::<DSIZE>(
            self.properties.display_rotation,
            self.cursor,
            c,
        );
        self.run_plan(steps, outcome)
    }

    /// Set the cursor position, in character coordinates.
    /// This is the (column, row) that the next character will be written to.
    /// If the position is out of bounds, an Err will be returned.
    pub fn set_position(&mut self, column: u8, row: u8) -> (r: Result<(), TerminalModeError>)
        requires
            old(self).wf(),
        ensures
            final(self).wf(),
            ran_terminal(
                position_plan::<DSIZE>(old(self).rotation_view(), old(self).cursor_view(), column, row).0,
                position_plan::<DSIZE>(old(self).rotation_view(), old(self).cursor_view(), column, row).1,
                old(self).addr_mode_view(),
                old(self).cursor_view(),
                old(self).sent_view(),
                r,
                final(self).addr_mode_view(),
                final(self).cursor_view(),
                final(self).sent_view(),
            ),
            final(self).rotation_view() == old(self).rotation_view(),
    {
        let (steps, outcome) = position_steps::<DSIZE>(
            self.properties.display_rotation,
            self.cursor,
            column,
            row,
        );
        self.run_plan(steps, outcome)
    }

    /// Initialise the display in page mode (i.e. a byte walks down a column of 8 pixels) with
    /// column 0 on the left and column _(DSIZE::Width::U8 - 1)_ on the right, but no automatic
    /// line wrapping, and reset the cursor.
    pub fn init(&mut self) -> (r: Result<(), TerminalModeError>)
        requires
            old(self).wf(),
        ensures
            final(self).wf(),
            ran_terminal(
                followed_by(
                    (init_plan::<DSIZE>(AddrMode::Page, old(self).rotation_view()), Ok(())),
                    reset_plan::<DSIZE>(old(self).rotation_view()),
                ).0,
                reset_plan::<DSIZE>(old(self).rotation_view()).1,
                old(self).addr_mode_view(),
                old(self).cursor_view(),
                old(self).sent_view(),
                r,
                final(self).addr_mode_view(),
                final(self).cursor_view(),
                final(self).sent_view(),
            ),
            final(self).rotation_view() == old(self).rotation_view(),
    {
        let rotation = self.properties.display_rotation;
        let mut steps = init_steps(&self.properties.display_size, AddrMode::Page, rotation);
        let ghost head = view_steps(steps@);
        let (reset, outcome) = reset_steps::<DSIZE>(rotation);
        append_steps(&mut steps, reset);
        proof {
            lemma_init_body_no_mode_changes::<DSIZE>(AddrMode::Page, rotation);
            let body = init_body::<DSIZE>(AddrMode::Page, rotation);
            assert forall|i: int| 0 <= i < head.len() implies !(#[trigger] head[i] is Cursor) by {
                if i < body.len() {
                    assert(head[i] == body[i]);
                }
            }
            lemma_cursors_fit_concat::<DSIZE>(head, view_steps(reset@));
        }
        self.run_plan(steps, outcome)
    }

    /// Set the display rotation
    ///
    /// This method resets the cursor but does not clear the screen.
    pub fn set_rotation(&mut self, rot: DisplayRotation) -> (r: Result<(), TerminalModeError>)
        requires
            old(self).wf(),
        ensures
            final(self).wf(),
            ran_terminal(
                followed_by((rotation_plan(rot), Ok(())), reset_plan::<DSIZE>(rot)).0,
                reset_plan::<DSIZE>(rot).1,
                old(self).addr_mode_view(),
                old(self).cursor_view(),
                old(self).sent_view(),
                r,
                final(self).addr_mode_view(),
                final(self).cursor_view(),
                final(self).sent_view(),
            ),
            final(self).rotation_view() == rot,
    {
        self.properties.display_rotation = rot;
        let mut steps = rotation_steps(rot);
        let ghost head = view_steps(steps@);
        // Need to reset cursor position, otherwise coordinates can become invalid
        let (reset, outcome) = reset_steps::<DSIZE>(rot);
        append_steps(&mut steps, reset);
        proof {
            lemma_cursors_fit_concat::<DSIZE>(head, view_steps(reset@));
        }
        self.run_plan(steps, outcome)
    }

    /// Turn the display on or off. The display can be drawn to and retains all
    /// of its memory even while off.
    pub fn display_on(&mut self, on: bool) -> (r: Result<(), TerminalModeError>)
        requires
            old(self).wf(),
        ensures
            final(self).wf(),
            ran_terminal(
                seq![command(Command::DisplayOn(on))],
                Ok(()),
                old(self).addr_mode_view(),
                old(self).cursor_view(),
                old(self).sent_view(),
                r,
                final(self).addr_mode_view(),
                final(self).cursor_view(),
                final(self).sent_view(),
            ),
            final(self).rotation_view() == old(self).rotation_view(),
    {
        let steps = command_steps(Command::DisplayOn(on));
        proof {
            lemma_cursors_fit_concat::<DSIZE>(view_steps(steps@), Seq::empty());
            assert(view_steps(steps@) + Seq::empty() =~= view_steps(steps@));
        }
        self.run_plan(steps, Ok(()))
    }

    /// Change the display brightness.
    pub fn set_brightness(&mut self, brightness: Brightness) -> (r: Result<(), TerminalModeError>)
        requires
            old(self).wf(),
        ensures
            final(self).wf(),
            ran_terminal(
                brightness_plan(brightness),
                Ok(()),
                old(self).addr_mode_view(),
                old(self).cursor_view(),
                old(self).sent_view(),
                r,
                final(self).addr_mode_view(),
                final(self).cursor_view(),
                final(self).sent_view(),
            ),
            final(self).rotation_view() == old(self).rotation_view(),
    {
        let steps = brightness_steps(brightness);
        proof {
            lemma_cursors_fit_concat::<DSIZE>(view_steps(steps@), Seq::empty());
            assert(view_steps(steps@) + Seq::empty() =~= view_steps(steps@));
        }
        self.run_plan(steps, Ok(()))
    }
}

/// Programs of commands move no cursor, so appending one to a program whose cursors fit
/// keeps them fitting; `first` holds only transfers and changes of addressing mode.
proof fn lemma_cursors_fit_concat<DSIZE: DisplaySize>(first: Seq<StepView>, second: Seq<StepView>)
    requires
        forall|i: int| 0 <= i < first.len() ==> !(#[trigger] first[i] is Cursor),
        cursors_fit::<DSIZE>(second),
    ensures
        cursors_fit::<DSIZE>(first + second),
{
    assert forall|i: int| 0 <= i < (first + second).len() implies (#[trigger] (first
        + second)[i] matches StepView::Cursor(c) ==> cursor_fits::<DSIZE>(c)) by {
        if i >= first.len() {
            assert((first + second)[i] == second[i - first.len()]);
        } else {
            assert((first + second)[i] == first[i]);
        }
    }
}

} // verus!
