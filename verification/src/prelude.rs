//! Crate prelude

pub use display_interface::WriteOnlyDataCommand;
pub use display_interface_i2c::I2CInterface;
pub use display_interface_spi::SPIInterface;

pub use crate::brightness::Brightness;
pub use crate::interface::DisplayInterface;
pub use crate::mode::{DisplayConfig, DisplayModeTrait, GraphicsMode, TerminalMode};
pub use crate::properties::DisplayProperties;
pub use crate::rotation::{DisplayRotation, Rotatable};
pub use crate::size::{
    DisplaySize, DisplaySize128x32, DisplaySize128x64, DisplaySize64x32, DisplaySize64x48,
    DisplaySize72x40, DisplaySize96x16,
};
