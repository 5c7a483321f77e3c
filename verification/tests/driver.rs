use display_interface::DisplayError;
use ssd1306::brightness::Brightness;
use ssd1306::command::AddrMode;
use ssd1306::interface::DisplayInterface;
use ssd1306::mode::DisplayConfig;
use ssd1306::rotation::DisplayRotation;
use ssd1306::size::{DisplaySize128x32, DisplaySize128x64, DisplaySize72x40};
use ssd1306::Ssd1306;

/// One transfer: `true` for a command batch, `false` for data.
type Transfer = (bool, Vec<u8>);

/// An interface that records every transfer and can be told to fail one.
#[derive(Debug, Default)]
struct Recorder {
    sent: Vec<Transfer>,
    fail_at: Option<usize>,
}

impl Recorder {
    fn failing_at(n: usize) -> Self {
        Recorder { sent: Vec::new(), fail_at: Some(n) }
    }

    fn push(&mut self, is_command: bool, bytes: &[u8]) -> Result<(), DisplayError> {
        if self.fail_at == Some(self.sent.len()) {
            return Err(DisplayError::BusWriteError);
        }
        self.sent.push((is_command, bytes.to_vec()));
        Ok(())
    }
}

impl DisplayInterface for Recorder {
    fn send_commands(&mut self, cmd: &[u8]) -> Result<(), DisplayError> {
        self.push(true, cmd)
    }

    fn send_data(&mut self, buf: &[u8]) -> Result<(), DisplayError> {
        self.push(false, buf)
    }
}

fn cmd(bytes: &[u8]) -> Transfer {
    (true, bytes.to_vec())
}

fn data(bytes: &[u8]) -> Transfer {
    (false, bytes.to_vec())
}

fn init_128x64(mode_byte: u8) -> Vec<Transfer> {
    vec![
        cmd(&[0xAE]),
        cmd(&[0xD5, 0x80]),
        cmd(&[0xA8, 0x3F]),
        cmd(&[0xD3, 0x00]),
        cmd(&[0x40]),
        cmd(&[0x8D, 0x14]),
        cmd(&[0x20, mode_byte]),
        cmd(&[0xDA, 0x12]),
        cmd(&[0xA1]),
        cmd(&[0xC8]),
        cmd(&[0xD9, 0x12]),
        cmd(&[0x81, 0x5F]),
        cmd(&[0xDB, 0x40]),
        cmd(&[0xA4]),
        cmd(&[0xA6]),
        cmd(&[0x2E]),
        cmd(&[0xAF]),
    ]
}

#[test]
fn init_sends_the_initialisation_sequence() {
    let mut display = Ssd1306::new(Recorder::default(), DisplaySize128x64, DisplayRotation::Rotate0);
    assert_eq!(display.addr_mode(), AddrMode::Page);
    display.init_with_addr_mode(AddrMode::Horizontal).unwrap();
    assert_eq!(display.addr_mode(), AddrMode::Horizontal);
    assert_eq!(display.release().sent, init_128x64(0x00));
}

#[test]
fn init_of_72x40_sets_internal_current_reference() {
    let mut display = Ssd1306::new(Recorder::default(), DisplaySize72x40, DisplayRotation::Rotate0);
    display.init_with_addr_mode(AddrMode::Page).unwrap();
    let sent = display.release().sent;
    assert_eq!(sent[2], cmd(&[0xA8, 39]));
    assert_eq!(sent[7], cmd(&[0xDA, 0x12]));
    assert_eq!(sent[8], cmd(&[0xAD, 0x30]));
}

#[test]
fn failed_init_keeps_the_addressing_mode() {
    let mut display =
        Ssd1306::new(Recorder::failing_at(3), DisplaySize128x64, DisplayRotation::Rotate0);
    assert!(display.init_with_addr_mode(AddrMode::Horizontal).is_err());
    assert_eq!(display.addr_mode(), AddrMode::Page);
    assert_eq!(display.release().sent.len(), 3);
}

#[test]
fn set_addr_mode_records_the_mode() {
    let mut display = Ssd1306::new(Recorder::default(), DisplaySize128x64, DisplayRotation::Rotate0);
    display.set_addr_mode(AddrMode::Vertical).unwrap();
    assert_eq!(display.addr_mode(), AddrMode::Vertical);
    assert_eq!(display.release().sent, vec![cmd(&[0x20, 0x01])]);
}

#[test]
fn failed_set_addr_mode_keeps_the_mode() {
    let mut display =
        Ssd1306::new(Recorder::failing_at(0), DisplaySize128x64, DisplayRotation::Rotate0);
    assert!(display.set_addr_mode(AddrMode::Vertical).is_err());
    assert_eq!(display.addr_mode(), AddrMode::Page);
}

#[test]
fn dimensions_follow_rotation() {
    let display = Ssd1306::new(Recorder::default(), DisplaySize128x32, DisplayRotation::Rotate0);
    assert_eq!(display.dimensions(), (128, 32));
    let display = Ssd1306::new(Recorder::default(), DisplaySize128x32, DisplayRotation::Rotate90);
    assert_eq!(display.dimensions(), (32, 128));
    assert_eq!(display.rotation(), DisplayRotation::Rotate90);
}

#[test]
fn rotation_commands() {
    let mut display = Ssd1306::new(Recorder::default(), DisplaySize128x64, DisplayRotation::Rotate0);
    display.set_rotation(DisplayRotation::Rotate90).unwrap();
    display.set_rotation(DisplayRotation::Rotate180).unwrap();
    display.set_rotation(DisplayRotation::Rotate270).unwrap();
    display.set_rotation(DisplayRotation::Rotate0).unwrap();
    assert_eq!(display.rotation(), DisplayRotation::Rotate0);
    assert_eq!(
        display.release().sent,
        vec![
            cmd(&[0xA0]),
            cmd(&[0xC8]),
            cmd(&[0xA0]),
            cmd(&[0xC0]),
            cmd(&[0xA1]),
            cmd(&[0xC0]),
            cmd(&[0xA1]),
            cmd(&[0xC8]),
        ]
    );
}

#[test]
fn failed_rotation_still_changes_rotation() {
    let mut display =
        Ssd1306::new(Recorder::failing_at(0), DisplaySize128x64, DisplayRotation::Rotate0);
    assert!(display.set_rotation(DisplayRotation::Rotate90).is_err());
    assert_eq!(display.rotation(), DisplayRotation::Rotate90);
}

#[test]
fn mirror_flips_one_axis() {
    let mut display = Ssd1306::new(Recorder::default(), DisplaySize128x64, DisplayRotation::Rotate0);
    display.set_mirror(true).unwrap();
    display.set_mirror(false).unwrap();
    assert_eq!(
        display.release().sent,
        vec![cmd(&[0xA0]), cmd(&[0xC8]), cmd(&[0xA1]), cmd(&[0xC8])]
    );
}

#[test]
fn brightness_commands() {
    let mut display = Ssd1306::new(Recorder::default(), DisplaySize128x64, DisplayRotation::Rotate0);
    display.set_brightness(Brightness::dimmest()).unwrap();
    display.set_brightness(Brightness::brightest()).unwrap();
    display.set_brightness(Brightness::custom(15, 0x42)).unwrap();
    assert_eq!(
        display.release().sent,
        vec![
            cmd(&[0xD9, 0x11]),
            cmd(&[0x81, 0x00]),
            cmd(&[0xD9, 0x12]),
            cmd(&[0x81, 0xFF]),
            cmd(&[0xD9, 0x1F]),
            cmd(&[0x81, 0x42]),
        ]
    );
}

#[test]
fn single_commands() {
    let mut display = Ssd1306::new(Recorder::default(), DisplaySize128x64, DisplayRotation::Rotate0);
    display.set_display_on(false).unwrap();
    display.set_invert(true).unwrap();
    display.set_column(0x35).unwrap();
    display.set_row(20).unwrap();
    assert_eq!(
        display.release().sent,
        vec![cmd(&[0xAE]), cmd(&[0xA7]), cmd(&[0x05, 0x13]), cmd(&[0xB2])]
    );
}

#[test]
fn draw_area_in_page_mode_sets_columns_only() {
    let mut display = Ssd1306::new(Recorder::default(), DisplaySize128x64, DisplayRotation::Rotate0);
    display.set_draw_area((4, 8), (20, 24)).unwrap();
    display.set_addr_mode(AddrMode::Horizontal).unwrap();
    display.set_draw_area((4, 8), (20, 24)).unwrap();
    assert_eq!(
        display.release().sent,
        vec![
            cmd(&[0x21, 4, 19]),
            cmd(&[0x20, 0x00]),
            cmd(&[0x21, 4, 19]),
            cmd(&[0x22, 1, 2]),
        ]
    );
}

#[test]
fn draw_sends_the_buffer() {
    let mut display = Ssd1306::new(Recorder::default(), DisplaySize128x64, DisplayRotation::Rotate0);
    display.draw(&[1, 2, 3]).unwrap();
    assert_eq!(display.release().sent, vec![data(&[1, 2, 3])]);
}

#[test]
fn bounded_draw_sends_one_chunk_per_page() {
    let mut display = Ssd1306::new(Recorder::default(), DisplaySize128x64, DisplayRotation::Rotate0);
    let buffer: Vec<u8> = (0..32u8).collect();
    // Columns 1 to 2 of pages 0 to 1, in a buffer 8 bytes wide.
    display.bounded_draw(&buffer, 8, (1, 0), (3, 15)).unwrap();
    assert_eq!(display.release().sent, vec![data(&[1, 2]), data(&[9, 10])]);
}

#[test]
fn clear_fills_memory_and_restores_the_mode() {
    let mut display = Ssd1306::new(Recorder::default(), DisplaySize128x64, DisplayRotation::Rotate0);
    display.clear().unwrap();
    assert_eq!(display.addr_mode(), AddrMode::Page);
    let sent = display.release().sent;
    assert_eq!(sent[0], cmd(&[0x20, 0x00]));
    assert_eq!(sent[1], cmd(&[0x21, 0, 127]));
    assert_eq!(sent[2], cmd(&[0x22, 0, 7]));
    // 128 * 64 pixels in batches of 512 pixels, plus one for the remainder.
    for transfer in &sent[3..20] {
        assert_eq!(*transfer, data(&[0; 64]));
    }
    assert_eq!(sent[20], cmd(&[0x20, 0x02]));
    assert_eq!(sent.len(), 21);
}

#[test]
fn clear_in_horizontal_mode_keeps_the_mode() {
    let mut display = Ssd1306::new(Recorder::default(), DisplaySize128x32, DisplayRotation::Rotate0);
    display.set_addr_mode(AddrMode::Horizontal).unwrap();
    display.clear().unwrap();
    assert_eq!(display.addr_mode(), AddrMode::Horizontal);
    let sent = display.release().sent;
    assert_eq!(sent[1], cmd(&[0x21, 0, 127]));
    assert_eq!(sent[2], cmd(&[0x22, 0, 3]));
    assert_eq!(sent.len(), 3 + 9);
}

#[test]
fn basic_mode_init_uses_horizontal_addressing() {
    let mut display = Ssd1306::new(Recorder::default(), DisplaySize128x64, DisplayRotation::Rotate0);
    DisplayConfig::init(&mut display).unwrap();
    assert_eq!(display.addr_mode(), AddrMode::Horizontal);
    assert_eq!(display.release().sent, init_128x64(0x00));
}

#[test]
fn unmirroring_sends_what_setting_the_rotation_sends() {
    let mut d1 = Ssd1306::new(Recorder::default(), DisplaySize128x64, DisplayRotation::Rotate90);
    let mut d2 = Ssd1306::new(Recorder::default(), DisplaySize128x64, DisplayRotation::Rotate90);
    let r1 = d1.set_mirror(false);
    let rotation = d2.rotation();
    let r2 = d2.set_rotation(rotation);
    assert!(r1.is_ok() && r2.is_ok());
    assert_eq!(d1.rotation(), DisplayRotation::Rotate90);
    assert_eq!(d1.release().sent, d2.release().sent);
}

#[test]
fn rotation_is_the_last_one_set() {
    let mut d = Ssd1306::new(Recorder::default(), DisplaySize128x64, DisplayRotation::Rotate180);
    assert_eq!(d.rotation(), DisplayRotation::Rotate180);
    d.set_rotation(DisplayRotation::Rotate90).unwrap();
    d.set_mirror(true).unwrap();
    d.set_brightness(Brightness::dim()).unwrap();
    assert_eq!(d.rotation(), DisplayRotation::Rotate90);
    d.set_rotation(DisplayRotation::Rotate270).unwrap();
    let d = d.into_buffered_graphics_mode();
    assert_eq!(d.rotation(), DisplayRotation::Rotate270);
}
