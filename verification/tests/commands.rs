use ssd1306::brightness::Brightness;
use ssd1306::command::{
    AddrMode, Command, HScrollDir, NFrames, Page, VHScrollDir, VcomhLevel,
};
use ssd1306::size::NewZeroed;

#[test]
fn contrast_encodes_two_bytes() {
    assert_eq!(Command::Contrast(0x5F).encode(), vec![0x81, 0x5F]);
}

#[test]
fn page_of_row() {
    assert_eq!(Page::from(0).as_u8(), 0);
    assert_eq!(Page::from(7).as_u8(), 0);
    assert_eq!(Page::from(8).as_u8(), 1);
    assert_eq!(Page::from(63).as_u8(), 7);
    assert_eq!(Page::from(127).as_u8(), 15);
}

#[test]
fn address_mode_encodes_mode() {
    assert_eq!(Command::AddressMode(AddrMode::Horizontal).encode(), vec![0x20, 0x00]);
    assert_eq!(Command::AddressMode(AddrMode::Vertical).encode(), vec![0x20, 0x01]);
    assert_eq!(Command::AddressMode(AddrMode::Page).encode(), vec![0x20, 0x02]);
}

#[test]
fn flag_commands_encode_their_flag() {
    assert_eq!(Command::AllOn(true).encode(), vec![0xA5]);
    assert_eq!(Command::Invert(false).encode(), vec![0xA6]);
    assert_eq!(Command::DisplayOn(true).encode(), vec![0xAF]);
    assert_eq!(Command::EnableScroll(true).encode(), vec![0x2F]);
    assert_eq!(Command::SegmentRemap(true).encode(), vec![0xA1]);
    assert_eq!(Command::ReverseComDir(true).encode(), vec![0xC8]);
    assert_eq!(Command::ChargePump(false).encode(), vec![0x8D, 0x10]);
    assert_eq!(Command::ComPinConfig(false, true).encode(), vec![0xDA, 0x22]);
    assert_eq!(Command::InternalIref(true, false).encode(), vec![0xAD, 0x10]);
}

#[test]
fn address_commands() {
    assert_eq!(Command::LowerColStart(0x3A).encode(), vec![0x0A]);
    assert_eq!(Command::UpperColStart(0x3A).encode(), vec![0x1A]);
    assert_eq!(Command::ColStart(0xAB).encode(), vec![0x0B, 0x1A]);
    assert_eq!(Command::ColumnAddress(3, 100).encode(), vec![0x21, 3, 100]);
    assert_eq!(Command::PageAddress(Page::Page1, Page::Page15).encode(), vec![0x22, 1, 15]);
    assert_eq!(Command::PageStart(Page::Page9).encode(), vec![0xB9]);
    assert_eq!(Command::StartLine(65).encode(), vec![0x41]);
}

#[test]
fn timing_commands() {
    assert_eq!(Command::DisplayClockDiv(0x8, 0x0).encode(), vec![0xD5, 0x80]);
    assert_eq!(Command::DisplayClockDiv(0x1F, 0x12).encode(), vec![0xD5, 0xF2]);
    assert_eq!(Command::PreChargePeriod(0x1, 0xF).encode(), vec![0xD9, 0xF1]);
    assert_eq!(Command::VcomhDeselect(VcomhLevel::V077).encode(), vec![0xDB, 0x20]);
    assert_eq!(Command::VcomhDeselect(VcomhLevel::Auto).encode(), vec![0xDB, 0x40]);
    assert_eq!(Command::Multiplex(31).encode(), vec![0xA8, 31]);
    assert_eq!(Command::DisplayOffset(4).encode(), vec![0xD3, 4]);
    assert_eq!(Command::Noop.encode(), vec![0xE3]);
}

#[test]
fn scroll_commands() {
    assert_eq!(
        Command::HScrollSetup(HScrollDir::RightToLeft, Page::Page0, Page::Page7, NFrames::F2)
            .encode(),
        vec![0x27, 0, 0, 0b111, 7, 0, 0xFF]
    );
    assert_eq!(
        Command::VHScrollSetup(VHScrollDir::VerticalRight, Page::Page1, Page::Page2, NFrames::F5, 3)
            .encode(),
        vec![0x29, 0, 1, 0, 2, 3]
    );
    assert_eq!(Command::VScrollArea(0, 64).encode(), vec![0xA3, 0, 64]);
}

#[test]
fn every_command_fits_one_batch() {
    let commands = [
        Command::Noop,
        Command::HScrollSetup(HScrollDir::LeftToRight, Page::Page0, Page::Page7, NFrames::F256),
        Command::VHScrollSetup(VHScrollDir::VerticalLeft, Page::Page0, Page::Page7, NFrames::F3, 1),
        Command::Contrast(1),
    ];
    for c in commands {
        let len = c.encode().len();
        assert!((1..=7).contains(&len));
    }
}

#[test]
fn brightness_levels() {
    assert_eq!(Brightness::default(), Brightness::normal());
    assert_eq!(Brightness::normal().contrast(), 0x5F);
    assert_eq!(Brightness::dim().contrast(), 0x2F);
    assert_eq!(Brightness::bright().contrast(), 0x9F);
    assert_eq!(Brightness::dimmest().precharge(), 1);
    assert_eq!(Brightness::custom(7, 9).precharge(), 7);
    assert_eq!(Brightness::custom(7, 9).contrast(), 9);
}

#[test]
fn zeroed_arrays() {
    let a: [u8; 40] = NewZeroed::new_zeroed();
    assert_eq!(a, [0; 40]);
}
