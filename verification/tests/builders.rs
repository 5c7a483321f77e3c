use display_interface::DisplayError;
use ssd1306::interface::DisplayInterface;
use ssd1306::command::{Command, HScrollDir, NFrames, Page};
use ssd1306::mode::NoMode;
use ssd1306::rotation::{DisplayRotation, DisplayRotationType, DynamicRotation, Rotate0, Rotate90};
use ssd1306::size::{DisplaySize, DisplaySize128x32, DisplaySize64x32, DisplaySize72x40};
use ssd1306::test_helpers::StubInterface;
use ssd1306::{Builder, I2CDIBuilder, I2CDisplayInterface};

#[test]
fn builder_defaults() {
    let props = Builder::new().connect(StubInterface::new());
    assert_eq!(props.get_rotation(), DisplayRotation::Rotate0);
    assert_eq!(props.get_dimensions(), (128, 64));
    let props = Builder::default().connect(StubInterface::new());
    assert_eq!(props.get_dimensions(), (128, 64));
}

#[test]
fn builder_with_options() {
    let props = Builder::new()
        .with_rotation(DisplayRotation::Rotate90)
        .size(DisplaySize128x32)
        .connect(StubInterface::new());
    assert_eq!(props.get_rotation(), DisplayRotation::Rotate90);
    assert_eq!(props.get_dimensions(), (32, 128));
}

#[test]
fn i2c_builder_addresses() {
    assert_eq!(I2CDIBuilder::new().i2c_addr(), 0x3c);
    assert_eq!(I2CDIBuilder::default().i2c_addr(), 0x3c);
    assert_eq!(I2CDIBuilder::new().with_i2c_addr(0x3d).i2c_addr(), 0x3d);
}

#[test]
fn i2c_interfaces_keep_the_bus() {
    assert_eq!(I2CDIBuilder::new().init(7u32).release(), 7);
    assert_eq!(I2CDisplayInterface::new(8u32).release(), 8);
    assert_eq!(I2CDisplayInterface::new_alternate_address(9u32).release(), 9);
    assert_eq!(I2CDisplayInterface::new_custom_address(10u32, 0x3e).release(), 10);
}

#[test]
fn display_sizes() {
    assert_eq!((DisplaySize72x40::width(), DisplaySize72x40::height()), (72, 40));
    assert_eq!((DisplaySize72x40::offset_x(), DisplaySize72x40::offset_y()), (28, 0));
    assert_eq!((DisplaySize64x32::width(), DisplaySize64x32::offset_x()), (64, 32));
}

#[test]
fn rotation_types() {
    assert!(DisplayRotation::Rotate0.is_0());
    assert!(DisplayRotation::Rotate90.is_90());
    assert!(DisplayRotation::Rotate180.is_180());
    assert!(DisplayRotation::Rotate270.is_270());
    assert!(!DisplayRotation::Rotate270.is_90());
    assert_eq!(Rotate90.transform(1, 2), (2, 1));
    assert_eq!(Rotate0.transform(1, 2), (1, 2));
    let mut dynamic = DynamicRotation::default();
    assert_eq!(dynamic.get_rotation(), DisplayRotation::Rotate0);
    let mut rec = Commands::default();
    dynamic.set_rotation(DisplayRotation::Rotate0, &mut rec).unwrap();
    assert!(rec.0.is_empty());
    dynamic.set_rotation(DisplayRotation::Rotate270, &mut rec).unwrap();
    assert_eq!(rec.0, vec![vec![0xA1], vec![0xC0]]);
    assert_eq!(dynamic.get_rotation(), DisplayRotation::Rotate270);
    assert_eq!(dynamic.transform(3, 4), (4, 3));
    let mut rec = Commands::default();
    DynamicRotation::with_rotation(DisplayRotation::Rotate180).configure(&mut rec).unwrap();
    assert_eq!(rec.0, vec![vec![0xA0], vec![0xC0]]);
}

/// An interface that records the command batches it is handed.
#[derive(Debug, Default)]
struct Commands(Vec<Vec<u8>>);

impl DisplayInterface for Commands {
    fn send_commands(&mut self, cmd: &[u8]) -> Result<(), DisplayError> {
        self.0.push(cmd.to_vec());
        Ok(())
    }

    fn send_data(&mut self, _buf: &[u8]) -> Result<(), DisplayError> {
        Ok(())
    }
}

#[test]
fn no_mode_holds_its_parts() {
    let _ = NoMode::new(StubInterface::new(), DisplaySize128x32, DisplayRotation::Rotate0);
}

#[test]
fn transforming_twice_gives_the_coordinates_back() {
    for rotation in [
        DisplayRotation::Rotate0,
        DisplayRotation::Rotate90,
        DisplayRotation::Rotate180,
        DisplayRotation::Rotate270,
    ] {
        let props = Builder::new().with_rotation(rotation).connect(StubInterface::new());
        let (a, b) = props.transform(3, 250);
        assert_eq!(props.transform(a, b), (3, 250));
    }
}

#[test]
fn command_send_hands_over_its_bytes() {
    let mut rec = Commands::default();
    Command::ColStart(0x2A).send(&mut rec).unwrap();
    Command::PreChargePeriod(1, 15).send(&mut rec).unwrap();
    Command::HScrollSetup(HScrollDir::RightToLeft, Page::Page0, Page::Page7, NFrames::F2)
        .send(&mut rec)
        .unwrap();
    assert_eq!(
        rec.0,
        vec![
            vec![0x0A, 0x12],
            vec![0xD9, 0xF1],
            vec![0x27, 0x00, 0x00, 0x07, 0x07, 0x00, 0xFF],
        ]
    );
}
