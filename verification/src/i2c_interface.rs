//! I2C interface factory

use display_interface_i2c::I2CInterface;
use vstd::prelude::*;

verus! {

/// The I2C display interface of `display_interface_i2c`: a bus, the device's address and the
/// control byte that announces data.
#[verifier::external_type_specification]
#[verifier::external_body]
#[verifier::reject_recursive_types(I2C)]
pub struct ExI2CInterface<I2C>(display_interface_i2c::I2CInterface<I2C>);

/// Builds an interface with `display_interface_i2c::I2CInterface::new`, which stores the bus,
/// the address and the data control byte it is given. That it holds them is left unsaid here:
/// the type is generic over the bus and opaque to Verus, so no clause can speak of its contents.
#[verifier::external_body]
pub(crate) fn i2c_interface<I2C>(i2c: I2C, addr: u8, data_byte: u8) -> I2CInterface<I2C> {
    I2CInterface::new(i2c, addr, data_byte)
}

/// Helper struct to create preconfigured I2C interfaces for the display.
#[derive(Debug, Copy, Clone)]
pub struct I2CDisplayInterface(());

impl I2CDisplayInterface {
    /// Create a new I2C interface with the default address 0x3C
    pub fn new<I>(i2c: I) -> I2CInterface<I> {
        Self::new_custom_address(i2c, 0x3C)
    }

    /// Create a new I2C interface with the alternate address 0x3D as specified in the datasheet.
    pub fn new_alternate_address<I>(i2c: I) -> I2CInterface<I> {
        Self::new_custom_address(i2c, 0x3D)
    }

    /// Create a new I2C interface with a custom address.
    pub fn new_custom_address<I>(i2c: I, address: u8) -> I2CInterface<I> {
        // 0x40 is the control byte that announces data, cf. 8.1.5.2 5) b) in the datasheet
        i2c_interface(i2c, address, 0x40)
    }
}

} // verus!
