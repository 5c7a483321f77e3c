use display_interface::DisplayError;
use ssd1306::command::AddrMode;
use ssd1306::interface::DisplayInterface;
use ssd1306::mode::terminal::{char_to_bitmap, rotate_bitmap, TerminalDisplaySize};
use ssd1306::mode::{Cursor, CursorWrapEvent, TerminalMode, TerminalModeError};
use ssd1306::properties::DisplayProperties;
use ssd1306::rotation::DisplayRotation;
use ssd1306::size::{
    DisplaySize128x32, DisplaySize128x64, DisplaySize64x48, DisplaySize72x40, DisplaySize96x16,
};
use ssd1306::Ssd1306;

/// One transfer: `true` for a command batch, `false` for data.
type Transfer = (bool, Vec<u8>);

/// An interface that records every transfer and can be told to fail one.
#[derive(Debug, Default)]
struct Recorder {
    sent: Vec<Transfer>,
    fail_at: Option<usize>,
}

impl Recorder {
    fn failing_at(n: usize) -> Self {
        Recorder { sent: Vec::new(), fail_at: Some(n) }
    }

    fn push(&mut self, is_command: bool, bytes: &[u8]) -> Result<(), DisplayError> {
        if self.fail_at == Some(self.sent.len()) {
            return Err(DisplayError::BusWriteError);
        }
        self.sent.push((is_command, bytes.to_vec()));
        Ok(())
    }
}

impl DisplayInterface for Recorder {
    fn send_commands(&mut self, cmd: &[u8]) -> Result<(), DisplayError> {
        self.push(true, cmd)
    }

    fn send_data(&mut self, buf: &[u8]) -> Result<(), DisplayError> {
        self.push(false, buf)
    }
}

fn cmd(bytes: &[u8]) -> Transfer {
    (true, bytes.to_vec())
}

fn data(bytes: &[u8]) -> Transfer {
    (false, bytes.to_vec())
}

const GLYPH_A: [u8; 8] = [0x00, 0x3e, 0x09, 0x09, 0x09, 0x09, 0x3e, 0x00];

fn terminal_128x64(rotation: DisplayRotation) -> TerminalMode<Recorder, DisplaySize128x64> {
    TerminalMode::new(DisplayProperties::new(Recorder::default(), DisplaySize128x64, rotation))
}

#[test]
fn glyphs_of_the_font() {
    assert_eq!(char_to_bitmap('A'), GLYPH_A);
    assert_eq!(char_to_bitmap('!'), [0x00, 0x00, 0x2f, 0x00, 0x00, 0x00, 0x00, 0x00]);
    assert_eq!(char_to_bitmap('~'), [0x00, 0x02, 0x01, 0x02, 0x01, 0x00, 0x00, 0x00]);
    assert_eq!(char_to_bitmap('\\'), [0x00, 0x02, 0x04, 0x08, 0x10, 0x20, 0x00, 0x00]);
    assert_eq!(char_to_bitmap(' '), [0; 8]);
    assert_eq!(char_to_bitmap('\u{7f}'), [0; 8]);
    assert_eq!(char_to_bitmap('\u{e9}'), [0; 8]);
}

#[test]
fn rotating_a_bitmap_transposes_it() {
    assert_eq!(rotate_bitmap([0x01, 0, 0, 0, 0, 0, 0, 0]), [0x01, 0, 0, 0, 0, 0, 0, 0]);
    assert_eq!(rotate_bitmap([0, 0x01, 0, 0, 0, 0, 0, 0]), [0x02, 0, 0, 0, 0, 0, 0, 0]);
    assert_eq!(rotate_bitmap([0x80, 0, 0, 0, 0, 0, 0, 0]), [0, 0, 0, 0, 0, 0, 0, 0x01]);
    assert_eq!(rotate_bitmap([0xff, 0, 0, 0, 0, 0, 0, 0]), [1, 1, 1, 1, 1, 1, 1, 1]);
}

#[test]
fn rotating_twice_gives_the_bitmap_back() {
    for c in '!'..='~' {
        let bitmap = char_to_bitmap(c);
        assert_eq!(rotate_bitmap(rotate_bitmap(bitmap)), bitmap);
    }
}

#[test]
fn character_cells_per_display() {
    assert_eq!(DisplaySize128x64::char_num(), 128);
    assert_eq!(DisplaySize128x32::char_num(), 64);
    assert_eq!(DisplaySize96x16::char_num(), 24);
    assert_eq!(DisplaySize72x40::char_num(), 45);
    assert_eq!(DisplaySize64x48::char_num(), 48);
}

#[test]
fn cursor_walks_the_screen_and_wraps() {
    let mut cursor = Cursor::new(128, 64);
    assert_eq!(cursor.get_dimensions(), (16, 8));
    assert_eq!(cursor.get_position(), (0, 0));
    for _ in 0..15 {
        assert_eq!(cursor.advance(), None);
    }
    assert_eq!(cursor.get_position(), (15, 0));
    assert_eq!(cursor.advance(), Some(CursorWrapEvent(1)));
    assert_eq!(cursor.get_position(), (0, 1));
    for _ in 0..(16 * 7 - 1) {
        cursor.advance();
    }
    assert_eq!(cursor.get_position(), (15, 7));
    assert_eq!(cursor.advance(), Some(CursorWrapEvent(0)));
    assert_eq!(cursor.get_position(), (0, 0));
}

#[test]
fn cursor_line_feed_and_capped_position() {
    let mut cursor = Cursor::new(64, 48);
    assert_eq!(cursor.get_dimensions(), (8, 6));
    cursor.set_position(3, 5);
    assert_eq!(cursor.advance_line(), CursorWrapEvent(0));
    assert_eq!(cursor.get_position(), (0, 0));
    cursor.set_position(20, 20);
    assert_eq!(cursor.get_position(), (7, 5));
}

#[test]
fn uninitialised_terminal_has_no_cursor() {
    let mut display = terminal_128x64(DisplayRotation::Rotate0);
    assert!(matches!(display.get_position(), Err(TerminalModeError::Uninitialized)));
    assert!(matches!(display.set_position(0, 0), Err(TerminalModeError::Uninitialized)));
    assert!(matches!(display.print_char('\n'), Err(TerminalModeError::Uninitialized)));
    assert!(matches!(display.print_char('\r'), Err(TerminalModeError::Uninitialized)));
    assert!(matches!(display.print_char('A'), Err(TerminalModeError::Uninitialized)));
    assert!(display.flush().is_ok());
    // The carriage return and the character were sent before the cursor was missed.
    assert_eq!(display.release().sent, vec![cmd(&[0x00, 0x10]), data(&GLYPH_A)]);
}

#[test]
fn init_resets_the_cursor() {
    let mut display = terminal_128x64(DisplayRotation::Rotate0);
    display.init().unwrap();
    assert_eq!(display.get_position().unwrap(), (0, 0));
    let sent = display.release().sent;
    assert_eq!(sent.len(), 17 + 2);
    assert_eq!(sent[6], cmd(&[0x20, 0x02]));
    assert_eq!(sent[17], cmd(&[0x00, 0x10]));
    assert_eq!(sent[18], cmd(&[0xB0]));
}

#[test]
fn printing_draws_and_advances() {
    let mut display = terminal_128x64(DisplayRotation::Rotate0);
    display.init().unwrap();
    display.print_char('A').unwrap();
    assert_eq!(display.get_position().unwrap(), (1, 0));
    display.print_char('\n').unwrap();
    assert_eq!(display.get_position().unwrap(), (0, 1));
    display.print_char('A').unwrap();
    display.print_char('\r').unwrap();
    assert_eq!(display.get_position().unwrap(), (0, 1));
    let sent = display.release().sent;
    assert_eq!(
        sent[19..].to_vec(),
        vec![
            data(&GLYPH_A),
            cmd(&[0x08, 0x10]),
            cmd(&[0xB0]),
            cmd(&[0x00, 0x10]),
            cmd(&[0xB1]),
            data(&GLYPH_A),
            cmd(&[0x08, 0x10]),
            cmd(&[0xB1]),
            cmd(&[0x00, 0x10]),
        ]
    );
}

#[test]
fn set_position_checks_bounds() {
    let mut display = terminal_128x64(DisplayRotation::Rotate0);
    display.init().unwrap();
    assert!(matches!(display.set_position(16, 0), Err(TerminalModeError::OutOfBounds)));
    assert!(matches!(display.set_position(0, 8), Err(TerminalModeError::OutOfBounds)));
    display.set_position(15, 7).unwrap();
    assert_eq!(display.get_position().unwrap(), (15, 7));
    display.print_char('A').unwrap();
    // The last cell wraps around to the top left.
    assert_eq!(display.get_position().unwrap(), (0, 0));
    let sent = display.release().sent;
    assert_eq!(sent[19..21].to_vec(), vec![cmd(&[0x08, 0x17]), cmd(&[0xB7])]);
}

#[test]
fn offset_display_positions() {
    let mut display = TerminalMode::new(DisplayProperties::new(
        Recorder::default(),
        DisplaySize72x40,
        DisplayRotation::Rotate180,
    ));
    display.init().unwrap();
    assert_eq!(display.get_position().unwrap(), (0, 0));
    display.set_position(8, 4).unwrap();
    let sent = display.release().sent;
    // Flipped segments count the 28 pixels of offset from the other edge: 128 - 72 - 28.
    assert_eq!(sent[sent.len() - 4], cmd(&[0x0C, 0x11]));
    assert_eq!(sent[sent.len() - 2], cmd(&[0x0C, 0x15]));
    assert_eq!(sent[sent.len() - 1], cmd(&[0xB4]));
}

#[test]
fn rotated_terminal_draws_rotated_glyphs() {
    let mut display = terminal_128x64(DisplayRotation::Rotate90);
    display.init().unwrap();
    display.set_position(7, 15).unwrap();
    assert!(matches!(display.set_position(8, 0), Err(TerminalModeError::OutOfBounds)));
    display.print_char('A').unwrap();
    assert_eq!(display.get_position().unwrap(), (0, 0));
    let sent = display.release().sent;
    assert!(sent.contains(&data(&rotate_bitmap(GLYPH_A))));
    assert!(sent.contains(&cmd(&[0x08, 0x17])));
    assert!(sent.contains(&cmd(&[0xB7])));
}

#[test]
fn clear_blanks_every_cell() {
    let mut display = TerminalMode::new(DisplayProperties::new(
        Recorder::default(),
        DisplaySize128x32,
        DisplayRotation::Rotate0,
    ));
    display.init().unwrap();
    display.print_char('A').unwrap();
    display.clear().unwrap();
    assert_eq!(display.get_position().unwrap(), (0, 0));
    let sent = display.release().sent;
    let cleared = sent[22..].to_vec();
    assert_eq!(cleared[0], cmd(&[0x20, 0x00]));
    assert_eq!(cleared[1], cmd(&[0x21, 0, 127]));
    assert_eq!(cleared[2], cmd(&[0x22, 0, 3]));
    for transfer in &cleared[3..67] {
        assert_eq!(*transfer, data(&[0; 8]));
    }
    assert_eq!(cleared[67], cmd(&[0x20, 0x02]));
    assert_eq!(cleared[68..].to_vec(), vec![cmd(&[0x00, 0x10]), cmd(&[0xB0])]);
}

#[test]
fn set_rotation_resets_the_cursor() {
    let mut display = terminal_128x64(DisplayRotation::Rotate0);
    display.init().unwrap();
    display.print_char('A').unwrap();
    display.set_rotation(DisplayRotation::Rotate270).unwrap();
    assert_eq!(display.get_position().unwrap(), (0, 0));
    assert!(matches!(display.set_position(8, 0), Err(TerminalModeError::OutOfBounds)));
    display.set_position(7, 15).unwrap();
}

#[test]
fn interface_errors_are_reported() {
    let mut display = TerminalMode::new(DisplayProperties::new(
        Recorder::failing_at(0),
        DisplaySize128x64,
        DisplayRotation::Rotate0,
    ));
    assert!(matches!(display.init(), Err(TerminalModeError::InterfaceError(_))));
    assert!(matches!(display.get_position(), Err(TerminalModeError::Uninitialized)));
}

#[test]
fn write_str_prints_each_character() {
    let mut display = terminal_128x64(DisplayRotation::Rotate0);
    display.init().unwrap();
    display.write_str("AB\nA").unwrap();
    assert_eq!(display.get_position().unwrap(), (1, 1));
    display.display_on(false).unwrap();
    let sent = display.release().sent;
    assert_eq!(sent[19], data(&GLYPH_A));
    assert_eq!(sent[22], data(&char_to_bitmap('B')));
    assert_eq!(*sent.last().unwrap(), cmd(&[0xAE]));
}

#[test]
fn terminal_from_basic_driver() {
    let display = Ssd1306::new(Recorder::default(), DisplaySize128x64, DisplayRotation::Rotate0);
    let mut terminal = display.into_terminal_mode();
    terminal.init().unwrap();
    assert_eq!(terminal.get_position().unwrap(), (0, 0));
    let _ = AddrMode::Page;
}

#[test]
fn terminal_from_builder() {
    let mut terminal: TerminalMode<_, _> =
        ssd1306::Builder::new().size(DisplaySize96x16).connect(Recorder::default()).into();
    terminal.init().unwrap();
    assert!(matches!(terminal.set_position(12, 0), Err(TerminalModeError::OutOfBounds)));
    terminal.set_position(11, 1).unwrap();
    let sent = terminal.release().sent;
    assert_eq!(sent[sent.len() - 2], cmd(&[0x08, 0x15]));
    assert_eq!(sent[sent.len() - 1], cmd(&[0xB1]));
}

#[test]
fn terminal_dimensions_follow_rotation() {
    let display = Ssd1306::new(Recorder::default(), DisplaySize128x64, DisplayRotation::Rotate0)
        .into_terminal_mode();
    assert_eq!(display.dimensions(), (128, 64));
    let rotated = Ssd1306::new(Recorder::default(), DisplaySize128x64, DisplayRotation::Rotate90)
        .into_terminal_mode();
    assert_eq!(rotated.dimensions(), (64, 128));
}

#[test]
fn terminal_error_messages() {
    assert_eq!(TerminalModeError::InterfaceError(DisplayError::BusWriteError).message(), "InterfaceError");
    assert_eq!(TerminalModeError::Uninitialized.message(), "Uninitialized");
    assert_eq!(TerminalModeError::OutOfBounds.message(), "OutOfBound");
}

#[test]
fn cursor_grid_is_kept() {
    let mut cursor = Cursor::new(128, 64);
    for _ in 0..200 {
        cursor.advance();
    }
    cursor.advance_line();
    cursor.set_position(200, 200);
    cursor.advance_line();
    assert_eq!(cursor.get_dimensions(), (16, 8));
}
