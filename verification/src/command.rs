//! Display commands and their byte encoding.

use display_interface::DisplayError;
use vstd::prelude::*;

use crate::interface::{DisplayInterface, StepView};

verus! {

/// `1` for `true`, `0` for `false`.
pub open spec fn flag(b: bool) -> u8 {
    if b { 1 } else { 0 }
}

fn flag_u8(b: bool) -> (r: u8)
    ensures
        r == flag(b),
{
    if b { 1 } else { 0 }
}

/// Horizontal scroll direction.
#[derive(Debug, Clone, Copy, PartialEq, Eq, Structural)]
pub enum HScrollDir {
    /// Left to right
    LeftToRight,
    /// Right to left
    RightToLeft,
}

impl HScrollDir {
    /// The value that selects this direction in the scroll setup command.
    pub open spec fn value(self) -> u8 {
        match self {
            HScrollDir::LeftToRight => 0,
            HScrollDir::RightToLeft => 1,
        }
    }

    /// The value that selects this direction in the scroll setup command.
    pub fn as_u8(self) -> (r: u8)
        ensures
            r == self.value(),
    {
        match self {
            HScrollDir::LeftToRight => 0,
            HScrollDir::RightToLeft => 1,
        }
    }
}

/// Vertical and horizontal scroll direction.
#[derive(Debug, Clone, Copy, PartialEq, Eq, Structural)]
pub enum VHScrollDir {
    /// Vertical and right horizontal
    VerticalRight,
    /// Vertical and left horizontal
    VerticalLeft,
}

impl VHScrollDir {
    /// The value that selects this direction in the scroll setup command.
    pub open spec fn value(self) -> u8 {
        match self {
            VHScrollDir::VerticalRight => 0b01,
            VHScrollDir::VerticalLeft => 0b10,
        }
    }

    /// The value that selects this direction in the scroll setup command.
    pub fn as_u8(self) -> (r: u8)
        ensures
            r == self.value(),
    {
        match self {
            VHScrollDir::VerticalRight => 0b01,
            VHScrollDir::VerticalLeft => 0b10,
        }
    }
}

/// Display page: a band of 8 pixel rows.
#[derive(Debug, Clone, Copy, PartialEq, Eq, Structural)]
pub enum Page {
    /// Page 0
    Page0,
    /// Page 1
    Page1,
    /// Page 2
    Page2,
    /// Page 3
    Page3,
    /// Page 4
    Page4,
    /// Page 5
    Page5,
    /// Page 6
    Page6,
    /// Page 7
    Page7,
    /// Page 8
    Page8,
    /// Page 9
    Page9,
    /// Page 10
    Page10,
    /// Page 11
    Page11,
    /// Page 12
    Page12,
    /// Page 13
    Page13,
    /// Page 14
    Page14,
    /// Page 15
    Page15,
}

impl Page {
    /// The page number.
    pub open spec fn value(self) -> u8 {
        match self {
            Page::Page0 => 0,
            Page::Page1 => 1,
            Page::Page2 => 2,
            Page::Page3 => 3,
            Page::Page4 => 4,
            Page::Page5 => 5,
            Page::Page6 => 6,
            Page::Page7 => 7,
            Page::Page8 => 8,
            Page::Page9 => 9,
            Page::Page10 => 10,
            Page::Page11 => 11,
            Page::Page12 => 12,
            Page::Page13 => 13,
            Page::Page14 => 14,
            Page::Page15 => 15,
        }
    }

    /// The page number.
    pub fn as_u8(self) -> (r: u8)
        ensures
            r == self.value(),
            r < 16,
    {
        match self {
            Page::Page0 => 0,
            Page::Page1 => 1,
            Page::Page2 => 2,
            Page::Page3 => 3,
            Page::Page4 => 4,
            Page::Page5 => 5,
            Page::Page6 => 6,
            Page::Page7 => 7,
            Page::Page8 => 8,
            Page::Page9 => 9,
            Page::Page10 => 10,
            Page::Page11 => 11,
            Page::Page12 => 12,
            Page::Page13 => 13,
            Page::Page14 => 14,
            Page::Page15 => 15,
        }
    }

    /// The page that holds pixel row `row`, for rows below 128.
    pub open spec fn of_row(row: u8) -> Page {
        match row / 8 {
            0 => Page::Page0,
            1 => Page::Page1,
            2 => Page::Page2,
            3 => Page::Page3,
            4 => Page::Page4,
            5 => Page::Page5,
            6 => Page::Page6,
            7 => Page::Page7,
            8 => Page::Page8,
            9 => Page::Page9,
            10 => Page::Page10,
            11 => Page::Page11,
            12 => Page::Page12,
            13 => Page::Page13,
            14 => Page::Page14,
            _ => Page::Page15,
        }
    }

    /// The page that holds pixel row `row`. Rows from 128 on have no page.
    pub fn from(row: u8) -> (r: Page)
        requires
            row < 128,
        ensures
            r == Page::of_row(row),
            r.value() == row / 8,
    {
        match row / 8 {
            0 => Page::Page0,
            1 => Page::Page1,
            2 => Page::Page2,
            3 => Page::Page3,
            4 => Page::Page4,
            5 => Page::Page5,
            6 => Page::Page6,
            7 => Page::Page7,
            8 => Page::Page8,
            9 => Page::Page9,
            10 => Page::Page10,
            11 => Page::Page11,
            12 => Page::Page12,
            13 => Page::Page13,
            14 => Page::Page14,
            _ => Page::Page15,
        }
    }
}

/// Frame interval of the scrolling commands.
#[derive(Debug, Clone, Copy, PartialEq, Eq, Structural)]
pub enum NFrames {
    /// 2 Frames
    F2,
    /// 3 Frames
    F3,
    /// 4 Frames
    F4,
    /// 5 Frames
    F5,
    /// 25 Frames
    F25,
    /// 64 Frames
    F64,
    /// 128 Frames
    F128,
    /// 256 Frames
    F256,
}

impl NFrames {
    /// The value that selects this interval.
    pub open spec fn value(self) -> u8 {
        match self {
            NFrames::F2 => 0b111,
            NFrames::F3 => 0b100,
            NFrames::F4 => 0b101,
            NFrames::F5 => 0b000,
            NFrames::F25 => 0b110,
            NFrames::F64 => 0b001,
            NFrames::F128 => 0b010,
            NFrames::F256 => 0b011,
        }
    }

    /// The value that selects this interval.
    pub fn as_u8(self) -> (r: u8)
        ensures
            r == self.value(),
    {
        match self {
            NFrames::F2 => 0b111,
            NFrames::F3 => 0b100,
            NFrames::F4 => 0b101,
            NFrames::F5 => 0b000,
            NFrames::F25 => 0b110,
            NFrames::F64 => 0b001,
            NFrames::F128 => 0b010,
            NFrames::F256 => 0b011,
        }
    }
}

/// Memory addressing mode.
#[derive(Debug, Clone, Copy, PartialEq, Eq, Structural)]
pub enum AddrMode {
    /// Horizontal mode
    Horizontal,
    /// Vertical mode
    Vertical,
    /// Page mode (default)
    Page,
}

impl AddrMode {
    /// The value that selects this mode.
    pub open spec fn value(self) -> u8 {
        match self {
            AddrMode::Horizontal => 0b00,
            AddrMode::Vertical => 0b01,
            AddrMode::Page => 0b10,
        }
    }

    /// The value that selects this mode.
    pub fn as_u8(self) -> (r: u8)
        ensures
            r == self.value(),
    {
        match self {
            AddrMode::Horizontal => 0b00,
            AddrMode::Vertical => 0b01,
            AddrMode::Page => 0b10,
        }
    }
}

/// Vcomh deselect level.
#[derive(Debug, Clone, Copy, PartialEq, Eq, Structural)]
pub enum VcomhLevel {
    /// 0.65 * Vcc
    V065,
    /// 0.77 * Vcc
    V077,
    /// 0.83 * Vcc
    V083,
    /// Auto
    Auto,
}

impl VcomhLevel {
    /// The value that selects this level.
    pub open spec fn value(self) -> u8 {
        match self {
            VcomhLevel::V065 => 0b001,
            VcomhLevel::V077 => 0b010,
            VcomhLevel::V083 => 0b011,
            VcomhLevel::Auto => 0b100,
        }
    }

    /// The value that selects this level.
    pub fn as_u8(self) -> (r: u8)
        ensures
            r == self.value(),
            r <= 4,
    {
        match self {
            VcomhLevel::V065 => 0b001,
            VcomhLevel::V077 => 0b010,
            VcomhLevel::V083 => 0b011,
            VcomhLevel::Auto => 0b100,
        }
    }
}

/// SSD1306 commands.
#[derive(Debug, Clone, Copy, PartialEq, Eq, Structural)]
pub enum Command {
    /// Set contrast. Higher number is higher contrast. Default = 0x7F
    Contrast(u8),
    /// Turn entire display on. If set, all pixels will
    /// be set to on, if not, the value in memory will be used.
    AllOn(bool),
    /// Invert display.
    Invert(bool),
    /// Turn display on or off.
    DisplayOn(bool),
    /// Set up horizontal scrolling.
    /// Values are scroll direction, start page, end page,
    /// and number of frames per step.
    HScrollSetup(HScrollDir, Page, Page, NFrames),
    /// Set up horizontal + vertical scrolling.
    /// Values are scroll direction, start page, end page,
    /// number of frames per step, and vertical scrolling offset.
    /// Scrolling offset may be from 0-63
    VHScrollSetup(VHScrollDir, Page, Page, NFrames, u8),
    /// Enable scrolling
    EnableScroll(bool),
    /// Setup vertical scroll area.
    /// Values are number of rows above scroll area (0-63)
    /// and number of rows of scrolling. (0-64)
    VScrollArea(u8, u8),
    /// Set the lower nibble of the column start address
    /// register for Page addressing mode, using the lower
    /// 4 bits given.
    /// This is only for page addressing mode
    LowerColStart(u8),
    /// Set the upper nibble of the column start address
    /// register for Page addressing mode, using the lower
    /// 4 bits given.
    /// This is only for page addressing mode
    UpperColStart(u8),
    /// Set the column start address register for Page addressing mode.
    /// Combines LowerColStart and UpperColStart
    /// This is only for page addressing mode
    ColStart(u8),
    /// Set addressing mode
    AddressMode(AddrMode),
    /// Setup column start and end address
    /// values range from 0-127
    /// This is only for horizontal or vertical addressing mode
    ColumnAddress(u8, u8),
    /// Setup page start and end address
    /// This is only for horizontal or vertical addressing mode
    PageAddress(Page, Page),
    /// Set GDDRAM page start address for Page addressing mode
    PageStart(Page),
    /// Set display start line from 0-63
    StartLine(u8),
    /// Reverse columns from 127-0
    SegmentRemap(bool),
    /// Set multiplex ratio from 15-63 (MUX-1)
    Multiplex(u8),
    /// Scan from COM[n-1] to COM0 (where N is mux ratio)
    ReverseComDir(bool),
    /// Set vertical shift
    DisplayOffset(u8),
    /// Setup com hardware configuration
    /// First value indicates sequential (false) or alternative (true)
    /// pin configuration. Second value disables (false) or enables (true)
    /// left/right remap.
    ComPinConfig(bool, bool),
    /// Set up display clock.
    /// First value is oscillator frequency, increasing with higher value
    /// Second value is divide ratio - 1
    DisplayClockDiv(u8, u8),
    /// Set up phase 1 and 2 of precharge period. Each value must be in the range 1 - 15.
    PreChargePeriod(u8, u8),
    /// Set Vcomh Deselect level
    VcomhDeselect(VcomhLevel),
    /// NOOP
    Noop,
    /// Enable charge pump
    ChargePump(bool),
    /// Select external or internal I REF. Only for 72 x 40 display with SSD1306B driver
    InternalIref(bool, bool),
}

impl Command {
    /// The bytes that the controller receives for this command, as the datasheet lays
    /// them out: an opcode, with the low bits or the following bytes holding the
    /// arguments.
    pub open spec fn bytes(self) -> Seq<u8> {
        match self {
            Command::Contrast(val) => seq![0x81u8, val],
            Command::AllOn(on) => seq![(0xA4 + flag(on)) as u8],
            Command::Invert(inv) => seq![(0xA6 + flag(inv)) as u8],
            Command::DisplayOn(on) => seq![(0xAE + flag(on)) as u8],
            Command::HScrollSetup(dir, start, end, rate) => seq![
                (0x26 + dir.value()) as u8,
                0u8,
                start.value(),
                rate.value(),
                end.value(),
                0u8,
                0xFFu8,
            ],
            Command::VHScrollSetup(dir, start, end, rate, offset) => seq![
                (0x28 + dir.value()) as u8,
                0u8,
                start.value(),
                rate.value(),
                end.value(),
                offset,
            ],
            Command::EnableScroll(en) => seq![(0x2E + flag(en)) as u8],
            Command::VScrollArea(above, lines) => seq![0xA3u8, above, lines],
            Command::LowerColStart(addr) => seq![(addr % 16) as u8],
            Command::UpperColStart(addr) => seq![(0x10 + addr % 16) as u8],
            Command::ColStart(addr) => seq![(addr % 16) as u8, (0x10 + addr / 16) as u8],
            Command::AddressMode(mode) => seq![0x20u8, mode.value()],
            Command::ColumnAddress(start, end) => seq![0x21u8, start, end],
            Command::PageAddress(start, end) => seq![0x22u8, start.value(), end.value()],
            Command::PageStart(page) => seq![(0xB0 + page.value()) as u8],
            Command::StartLine(line) => seq![(0x40 + line % 64) as u8],
            Command::SegmentRemap(remap) => seq![(0xA0 + flag(remap)) as u8],
            Command::Multiplex(ratio) => seq![0xA8u8, ratio],
            Command::ReverseComDir(rev) => seq![(0xC0 + 8 * flag(rev)) as u8],
            Command::DisplayOffset(offset) => seq![0xD3u8, offset],
            Command::ComPinConfig(alt, lr) => seq![
                0xDAu8,
                (0x02 + 16 * flag(alt) + 32 * flag(lr)) as u8,
            ],
            Command::DisplayClockDiv(fosc, div) => seq![
                0xD5u8,
                (16 * (fosc % 16) + div % 16) as u8,
            ],
            Command::PreChargePeriod(phase1, phase2) => seq![
                0xD9u8,
                (16 * (phase2 % 16) + phase1 % 16) as u8,
            ],
            Command::VcomhDeselect(level) => seq![0xDBu8, (16 * level.value()) as u8],
            Command::Noop => seq![0xE3u8],
            Command::ChargePump(en) => seq![0x8Du8, (0x10 + 4 * flag(en)) as u8],
            Command::InternalIref(en, current) => seq![
                0xADu8,
                (32 * flag(current) + 16 * flag(en)) as u8,
            ],
        }
    }

    /// Send command to SSD1306: its bytes, as one batch of commands. The interface is handed
    /// exactly that one batch, and its answer is returned.
    pub fn send<DI: DisplayInterface>(self, iface: &mut DI) -> (r: Result<(), DisplayError>)
        ensures
            final(iface).sent() == old(iface).sent().push((StepView::Commands(self.bytes()), r)),
    {
        let bytes = self.encode();
        iface.send_commands(bytes.as_slice())
    }

    /// The bytes to send for this command. Every command takes between one and seven
    /// bytes, so it fits in a single command batch of an I2C interface.
    pub fn encode(self) -> (r: Vec<u8>)
        ensures
            r@ == self.bytes(),
            1 <= r.len() <= 7,
    {
        match self {
            Command::Contrast(val) => vec![0x81, val],
            Command::AllOn(on) => vec![0xA4 + flag_u8(on)],
            Command::Invert(inv) => vec![0xA6 + flag_u8(inv)],
            Command::DisplayOn(on) => vec![0xAE + flag_u8(on)],
            Command::HScrollSetup(dir, start, end, rate) => vec![
                0x26 + dir.as_u8(),
                0,
                start.as_u8(),
                rate.as_u8(),
                end.as_u8(),
                0,
                0xFF,
            ],
            Command::VHScrollSetup(dir, start, end, rate, offset) => vec![
                0x28 + dir.as_u8(),
                0,
                start.as_u8(),
                rate.as_u8(),
                end.as_u8(),
                offset,
            ],
            Command::EnableScroll(en) => vec![0x2E + flag_u8(en)],
            Command::VScrollArea(above, lines) => vec![0xA3, above, lines],
            Command::LowerColStart(addr) => vec![addr % 16],
            Command::UpperColStart(addr) => vec![0x10 + addr % 16],
            Command::ColStart(addr) => vec![addr % 16, 0x10 + addr / 16],
            Command::AddressMode(mode) => vec![0x20, mode.as_u8()],
            Command::ColumnAddress(start, end) => vec![0x21, start, end],
            Command::PageAddress(start, end) => vec![0x22, start.as_u8(), end.as_u8()],
            Command::PageStart(page) => vec![0xB0 + page.as_u8()],
            Command::StartLine(line) => vec![0x40 + line % 64],
            Command::SegmentRemap(remap) => vec![0xA0 + flag_u8(remap)],
            Command::Multiplex(ratio) => vec![0xA8, ratio],
            Command::ReverseComDir(rev) => vec![0xC0 + 8 * flag_u8(rev)],
            Command::DisplayOffset(offset) => vec![0xD3, offset],
            Command::ComPinConfig(alt, lr) => vec![
                0xDA,
                0x02 + 16 * flag_u8(alt) + 32 * flag_u8(lr),
            ],
            Command::DisplayClockDiv(fosc, div) => vec![0xD5, 16 * (fosc % 16) + div % 16],
            Command::PreChargePeriod(phase1, phase2) => vec![
                0xD9,
                16 * (phase2 % 16) + phase1 % 16,
            ],
            Command::VcomhDeselect(level) => vec![0xDB, 16 * level.as_u8()],
            Command::Noop => vec![0xE3],
            Command::ChargePump(en) => vec![0x8D, 0x10 + 4 * flag_u8(en)],
            Command::InternalIref(en, current) => vec![
                0xAD,
                32 * flag_u8(current) + 16 * flag_u8(en),
            ],
        }
    }
}

/// The two horizontal scroll directions have the two opcodes of the datasheet: `0x26`
/// scrolls right (`LeftToRight`), `0x27` scrolls left (`RightToLeft`); the rest of the setup
/// is the same for both: a dummy byte, the start page, the frame interval, the end page and
/// two dummy bytes. Likewise the vertical and horizontal scroll setup opens with `0x29`
/// (`VerticalRight`) or `0x2A` (`VerticalLeft`).
pub proof fn lemma_scroll_opcodes(start: Page, end: Page, rate: NFrames, offset: u8)
    ensures
        Command::HScrollSetup(HScrollDir::LeftToRight, start, end, rate).bytes()[0] == 0x26,
        Command::HScrollSetup(HScrollDir::RightToLeft, start, end, rate).bytes()[0] == 0x27,
        Command::HScrollSetup(HScrollDir::LeftToRight, start, end, rate).bytes().drop_first()
            == Command::HScrollSetup(HScrollDir::RightToLeft, start, end, rate).bytes().drop_first(),
        Command::HScrollSetup(HScrollDir::LeftToRight, start, end, rate).bytes().drop_first()
            == seq![0u8, start.value(), rate.value(), end.value(), 0u8, 0xFFu8],
        Command::VHScrollSetup(VHScrollDir::VerticalRight, start, end, rate, offset).bytes()[0]
            == 0x29,
        Command::VHScrollSetup(VHScrollDir::VerticalLeft, start, end, rate, offset).bytes()[0]
            == 0x2A,
        Command::VHScrollSetup(VHScrollDir::VerticalRight, start, end, rate, offset).bytes().drop_first()
            == Command::VHScrollSetup(VHScrollDir::VerticalLeft, start, end, rate, offset).bytes().drop_first(),
        Command::VHScrollSetup(VHScrollDir::VerticalRight, start, end, rate, offset).bytes().drop_first()
            == seq![0u8, start.value(), rate.value(), end.value(), offset],
{
    assert(Command::HScrollSetup(HScrollDir::LeftToRight, start, end, rate).bytes().drop_first()
        =~= seq![0u8, start.value(), rate.value(), end.value(), 0u8, 0xFFu8]);
    assert(Command::HScrollSetup(HScrollDir::RightToLeft, start, end, rate).bytes().drop_first()
        =~= seq![0u8, start.value(), rate.value(), end.value(), 0u8, 0xFFu8]);
    assert(Command::VHScrollSetup(VHScrollDir::VerticalRight, start, end, rate, offset).bytes().drop_first()
        =~= seq![0u8, start.value(), rate.value(), end.value(), offset]);
    assert(Command::VHScrollSetup(VHScrollDir::VerticalLeft, start, end, rate, offset).bytes().drop_first()
        =~= seq![0u8, start.value(), rate.value(), end.value(), offset]);
}

/// Each command that switches something on or off is one byte, and switching on adds the
/// datasheet's flag bit to the opcode of switching off: `0xA4`/`0xA5` (all pixels on),
/// `0xA6`/`0xA7` (inverted), `0xAE`/`0xAF` (display on), `0x2E`/`0x2F` (scrolling),
/// `0xA0`/`0xA1` (segment remap), `0xC0`/`0xC8` (reversed COM scan); the charge pump is
/// `0x8D` then `0x10` or `0x14`.
pub proof fn lemma_switch_commands()
    ensures
        Command::AllOn(false).bytes() == seq![0xA4u8],
        Command::AllOn(true).bytes() == seq![0xA5u8],
        Command::Invert(false).bytes() == seq![0xA6u8],
        Command::Invert(true).bytes() == seq![0xA7u8],
        Command::DisplayOn(false).bytes() == seq![0xAEu8],
        Command::DisplayOn(true).bytes() == seq![0xAFu8],
        Command::EnableScroll(false).bytes() == seq![0x2Eu8],
        Command::EnableScroll(true).bytes() == seq![0x2Fu8],
        Command::SegmentRemap(false).bytes() == seq![0xA0u8],
        Command::SegmentRemap(true).bytes() == seq![0xA1u8],
        Command::ReverseComDir(false).bytes() == seq![0xC0u8],
        Command::ReverseComDir(true).bytes() == seq![0xC8u8],
        Command::ChargePump(false).bytes() == seq![0x8Du8, 0x10u8],
        Command::ChargePump(true).bytes() == seq![0x8Du8, 0x14u8],
{
}

/// The addressing-mode command selects horizontal (`0`), vertical (`1`) or page (`2`)
/// addressing; the page of a row below 128 is the row divided by 8, and the area commands
/// carry their bounds: `0x21` the first and last column, `0x22` the first and last page.
pub proof fn lemma_addressing_commands(row: u8, start: u8, end: u8, p: Page, q: Page)
    ensures
        Command::AddressMode(AddrMode::Horizontal).bytes() == seq![0x20u8, 0u8],
        Command::AddressMode(AddrMode::Vertical).bytes() == seq![0x20u8, 1u8],
        Command::AddressMode(AddrMode::Page).bytes() == seq![0x20u8, 2u8],
        row < 128 ==> Page::of_row(row).value() == row / 8,
        Command::ColumnAddress(start, end).bytes() == seq![0x21u8, start, end],
        Command::PageAddress(p, q).bytes() == seq![0x22u8, p.value(), q.value()],
        Command::PageStart(p).bytes() == seq![(0xB0 + p.value()) as u8],
        Command::ColStart(start).bytes() == Command::LowerColStart(start).bytes()
            + Command::UpperColStart(start / 16).bytes(),
{
    assert(Command::ColStart(start).bytes() =~= Command::LowerColStart(start).bytes()
        + Command::UpperColStart(start / 16).bytes());
}

} // verus!
