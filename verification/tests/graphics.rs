use display_interface::DisplayError;
use ssd1306::interface::DisplayInterface;
use ssd1306::mode::{DisplayConfig, DisplayModeTrait, GraphicsMode, RawMode};
use ssd1306::properties::DisplayProperties;
use ssd1306::rotation::{DisplayRotation, Rotatable};
use ssd1306::size::{DisplaySize128x32, DisplaySize128x64};
use ssd1306::Ssd1306;

/// One transfer: `true` for a command batch, `false` for data.
type Transfer = (bool, Vec<u8>);

/// An interface that records every transfer and can be told to fail one.
#[derive(Debug, Default)]
struct Recorder {
    sent: Vec<Transfer>,
    fail_at: Option<usize>,
}

impl Recorder {
    fn failing_at(n: usize) -> Self {
        Recorder { sent: Vec::new(), fail_at: Some(n) }
    }

    fn push(&mut self, is_command: bool, bytes: &[u8]) -> Result<(), DisplayError> {
        if self.fail_at == Some(self.sent.len()) {
            return Err(DisplayError::BusWriteError);
        }
        self.sent.push((is_command, bytes.to_vec()));
        Ok(())
    }
}

impl DisplayInterface for Recorder {
    fn send_commands(&mut self, cmd: &[u8]) -> Result<(), DisplayError> {
        self.push(true, cmd)
    }

    fn send_data(&mut self, buf: &[u8]) -> Result<(), DisplayError> {
        self.push(false, buf)
    }
}

fn cmd(bytes: &[u8]) -> Transfer {
    (true, bytes.to_vec())
}

fn data(bytes: &[u8]) -> Transfer {
    (false, bytes.to_vec())
}

fn column_mode_init_128x64() -> Vec<Transfer> {
    vec![
        cmd(&[0xAE]),
        cmd(&[0xD5, 0x80]),
        cmd(&[0xA8, 0x3F]),
        cmd(&[0xD3, 0x00]),
        cmd(&[0x40]),
        cmd(&[0x8D, 0x14]),
        cmd(&[0x20, 0x00]),
        cmd(&[0xA1]),
        cmd(&[0xC8]),
        cmd(&[0xDA, 0x12]),
        cmd(&[0x81, 0x8F]),
        cmd(&[0xD9, 0xF1]),
        cmd(&[0xDB, 0x40]),
        cmd(&[0xA4]),
        cmd(&[0xA6]),
        cmd(&[0x2E]),
        cmd(&[0xAF]),
    ]
}

#[test]
fn buffered_flush_sends_the_changed_area() {
    let mut display = Ssd1306::new(Recorder::default(), DisplaySize128x64, DisplayRotation::Rotate0)
        .into_buffered_graphics_mode();
    display.set_addr_mode(ssd1306::command::AddrMode::Horizontal).unwrap();
    // Nothing changed, nothing sent.
    display.flush().unwrap();
    display.set_pixel(0, 0, true);
    display.set_pixel(3, 9, true);
    display.flush().unwrap();
    // Flushed pixels are not sent again.
    display.flush().unwrap();
    let sent = display.release().sent;
    assert_eq!(
        sent,
        vec![
            cmd(&[0x20, 0x00]),
            cmd(&[0x21, 0, 3]),
            cmd(&[0x22, 0, 1]),
            data(&[0x01, 0, 0, 0]),
            data(&[0, 0, 0, 0x02]),
        ]
    );
}

#[test]
fn buffered_pixels_can_be_cleared() {
    let mut display = Ssd1306::new(Recorder::default(), DisplaySize128x32, DisplayRotation::Rotate0)
        .into_buffered_graphics_mode();
    display.set_pixel(5, 5, true);
    display.set_pixel(5, 5, false);
    display.flush().unwrap();
    display.clear_buffer();
    display.flush().unwrap();
    let sent = display.release().sent;
    assert_eq!(sent[0], cmd(&[0x21, 5, 5]));
    assert_eq!(sent[1], data(&[0]));
    // A cleared buffer sends the whole display: the columns, then 4 pages of zeros.
    assert_eq!(sent[2], cmd(&[0x21, 0, 127]));
    assert_eq!(sent.len(), 3 + 4);
    for transfer in &sent[3..] {
        assert_eq!(*transfer, data(&[0; 128]));
    }
}

#[test]
fn draw_pixel_skips_pixels_outside_the_display() {
    let mut display = Ssd1306::new(Recorder::default(), DisplaySize128x32, DisplayRotation::Rotate90)
        .into_buffered_graphics_mode();
    display.draw_pixel(-1, 0, true);
    display.draw_pixel(0, 128, true);
    display.draw_pixel(32, 0, true);
    display.flush().unwrap();
    display.draw_pixel(31, 127, true);
    display.flush().unwrap();
    let sent = display.release().sent;
    // Rotated by 90 degrees, pixel (31, 127) is column 127 of page 3.
    assert_eq!(sent[0], cmd(&[0x21, 127, 127]));
    assert_eq!(sent[1], data(&[0x80]));
    assert_eq!(sent.len(), 2);
}

#[test]
fn buffered_init_clears_and_initialises() {
    let mut display = Ssd1306::new(Recorder::default(), DisplaySize128x64, DisplayRotation::Rotate0)
        .into_buffered_graphics_mode();
    display.init().unwrap();
    display.flush().unwrap();
    let sent = display.release().sent;
    assert_eq!(sent.len(), 17 + 2 + 8);
    assert_eq!(sent[17], cmd(&[0x21, 0, 127]));
    assert_eq!(sent[18], cmd(&[0x22, 0, 7]));
}

#[test]
fn legacy_graphics_mode_flushes_changed_pixels() {
    let props = DisplayProperties::new(Recorder::default(), DisplaySize128x64, DisplayRotation::Rotate0);
    let mut display: GraphicsMode<_, _> = DisplayModeTrait::new(props);
    display.flush().unwrap();
    display.set_pixel(0, 0, 1);
    display.set_pixel(3, 9, 1);
    display.draw_pixel(-4, 2, 1);
    display.flush().unwrap();
    let sent = DisplayModeTrait::release(display).sent;
    assert_eq!(
        sent,
        vec![
            cmd(&[0x21, 0, 3]),
            cmd(&[0x22, 0, 1]),
            data(&[0x01, 0, 0, 0]),
            data(&[0, 0, 0, 0x02]),
        ]
    );
}

#[test]
fn legacy_graphics_mode_init() {
    let props = DisplayProperties::new(Recorder::default(), DisplaySize128x64, DisplayRotation::Rotate0);
    let mut display: GraphicsMode<_, _> = DisplayModeTrait::new(props);
    display.init().unwrap();
    assert_eq!(display.get_dimensions(), (128, 64));
    display.flush().unwrap();
    let sent = DisplayModeTrait::release(display).sent;
    assert_eq!(sent[..17].to_vec(), column_mode_init_128x64());
    assert_eq!(sent[17], cmd(&[0x21, 0, 127]));
    assert_eq!(sent[18], cmd(&[0x22, 0, 7]));
    assert_eq!(sent.len(), 17 + 2 + 8);
}

#[test]
fn legacy_graphics_mode_rotation() {
    let props = DisplayProperties::new(Recorder::default(), DisplaySize128x32, DisplayRotation::Rotate0);
    let mut display: GraphicsMode<_, _> = DisplayModeTrait::new(props);
    display.set_rotation(DisplayRotation::Rotate90).unwrap();
    assert_eq!(display.get_rotation(), DisplayRotation::Rotate90);
    assert_eq!(display.get_dimensions(), (32, 128));
    display.display_on(true).unwrap();
    let sent = DisplayModeTrait::release(display).sent;
    assert_eq!(sent, vec![cmd(&[0xA0]), cmd(&[0xC8]), cmd(&[0xAF])]);
}

#[test]
fn raw_mode_keeps_properties() {
    let props = DisplayProperties::new(Recorder::default(), DisplaySize128x32, DisplayRotation::Rotate180);
    let raw = RawMode::new(props);
    let props = raw.into_properties();
    assert_eq!(props.get_rotation(), DisplayRotation::Rotate180);
    assert_eq!(props.get_dimensions(), (128, 32));
}

#[test]
fn properties_initialise_in_column_mode() {
    let mut props =
        DisplayProperties::new(Recorder::default(), DisplaySize128x64, DisplayRotation::Rotate0);
    props.init_column_mode().unwrap();
    props.set_draw_area((0, 0), (128, 64)).unwrap();
    props.draw(&[7]).unwrap();
    let sent = props.release().sent;
    assert_eq!(sent[..17].to_vec(), column_mode_init_128x64());
    assert_eq!(sent[17..].to_vec(), vec![cmd(&[0x21, 0, 127]), cmd(&[0x22, 0, 7]), data(&[7])]);
}

#[test]
fn basic_display_config_rotation() {
    let mut display = Ssd1306::new(Recorder::default(), DisplaySize128x64, DisplayRotation::Rotate0);
    DisplayConfig::set_rotation(&mut display, DisplayRotation::Rotate180).unwrap();
    assert_eq!(display.rotation(), DisplayRotation::Rotate180);
}

#[test]
fn properties_modes_and_size() {
    let mut props =
        DisplayProperties::new(Recorder::default(), DisplaySize128x32, DisplayRotation::Rotate270);
    let _: &DisplaySize128x32 = props.get_size();
    props.init_with_mode(ssd1306::command::AddrMode::Vertical).unwrap();
    props.change_mode(ssd1306::command::AddrMode::Page).unwrap();
    assert_eq!(props.transform(1, 2), (2, 1));
    let sent = props.release().sent;
    assert_eq!(sent[6], cmd(&[0x20, 0x01]));
    assert_eq!(sent[7], cmd(&[0xDA, 0x02]));
    assert_eq!(sent[8], cmd(&[0xA1]));
    assert_eq!(sent[9], cmd(&[0xC0]));
    assert_eq!(*sent.last().unwrap(), cmd(&[0x20, 0x02]));
}

#[test]
fn mirroring_flips_one_axis_in_every_rotation() {
    for rotation in [
        DisplayRotation::Rotate0,
        DisplayRotation::Rotate90,
        DisplayRotation::Rotate180,
        DisplayRotation::Rotate270,
    ] {
        let mut display = Ssd1306::new(Recorder::default(), DisplaySize128x64, rotation);
        display.set_mirror(false).unwrap();
        display.set_mirror(true).unwrap();
        let sent = display.release().sent;
        let segment_flipped = sent[0] != sent[2];
        let com_flipped = sent[1] != sent[3];
        assert!(segment_flipped != com_flipped);
    }
}

#[test]
fn flush_is_possible_while_changes_stay_on_the_display() {
    let mut display = Ssd1306::new(Recorder::default(), DisplaySize128x64, DisplayRotation::Rotate0)
        .into_buffered_graphics_mode();
    assert!(display.can_flush());
    display.draw_pixel(127, 63, true);
    display.draw_pixel(0, 0, true);
    assert!(display.can_flush());
    display.clear_buffer();
    assert!(display.can_flush());
    display.flush().unwrap();
    // Column 200 lies outside the display: setting it changes nothing.
    display.set_pixel(200, 0, true);
    assert!(display.can_flush());
}

#[test]
fn legacy_flush_is_checked() {
    let props = DisplayProperties::new(Recorder::default(), DisplaySize128x64, DisplayRotation::Rotate0);
    let mut display: GraphicsMode<_, _> = DisplayModeTrait::new(props);
    assert!(display.can_flush());
    display.set_pixel(10, 10, 1);
    assert!(display.can_flush());
    display.clear();
    assert!(display.can_flush());
    display.flush().unwrap();
    display.set_pixel(200, 0, 1);
    assert!(display.can_flush());
}

#[test]
fn legacy_set_pixel_treats_nonzero_as_on() {
    let props = DisplayProperties::new(Recorder::default(), DisplaySize128x64, DisplayRotation::Rotate0);
    let mut display: GraphicsMode<_, _> = DisplayModeTrait::new(props);
    display.flush().unwrap();
    display.set_pixel(0, 0, 2);
    display.flush().unwrap();
    let sent = DisplayModeTrait::release(display).sent;
    assert_eq!(sent, vec![cmd(&[0x21, 0, 0]), cmd(&[0x22, 0, 0]), data(&[0x01])]);
}

#[test]
fn set_pixel_out_of_bounds_is_a_noop() {
    let mut display = Ssd1306::new(Recorder::default(), DisplaySize128x64, DisplayRotation::Rotate0)
        .into_buffered_graphics_mode();
    display.flush().unwrap();
    display.set_pixel(130, 0, true);
    display.set_pixel(0, 64, true);
    display.flush().unwrap();
    assert_eq!(display.release().sent.len(), 0);
}
