//! Interface factory
//!
//! This is the easiest way to create a driver instance, with the ability to set various
//! parameters of the driver.
//!
//! To finish the builder and produce a connected display interface, call `.connect(interface)`
//! where `interface` is an instantiated `DisplayInterface` implementation. For I2C interfaces
//! there's also an [`I2CDIBuilder`] to simplify the construction of an I2C interface. The
//! builder will be consumed into a [`DisplayProperties`] object which can be coerced into a
//! richer display mode like [`GraphicsMode`](crate::mode::GraphicsMode) or
//! [`TerminalMode`](crate::mode::TerminalMode).
//!
//! The builder defaults to a display size of 128 x 64px. To use a display with a different
//! size, call the [`size`](Builder::size) method.

use display_interface_i2c::I2CInterface;
use vstd::prelude::*;

use crate::i2c_interface::i2c_interface;
use crate::properties::DisplayProperties;
use crate::rotation::DisplayRotation;
use crate::size::{DisplaySize, DisplaySize128x64};

verus! {

/// Builder struct. Driver options and interface are set using its methods.
#[derive(Clone, Copy, Debug)]
pub struct Builder<DSIZE> {
    pub(crate) size: DSIZE,
    pub(crate) rotation: DisplayRotation,
}

impl<DSIZE> Builder<DSIZE> {
    /// The display size.
    pub open(crate) spec fn size_view(&self) -> DSIZE {
        self.size
    }

    /// The display rotation.
    pub open(crate) spec fn rotation_view(&self) -> DisplayRotation {
        self.rotation
    }
}

impl Builder<DisplaySize128x64> {
    /// Create new builder with a default size of 128 x 64 pixels and no rotation.
    pub fn new() -> (r: Self)
        ensures
            r.rotation_view() == DisplayRotation::Rotate0,
    {
        Self { size: DisplaySize128x64, rotation: DisplayRotation::Rotate0 }
    }
}

impl Default for Builder<DisplaySize128x64> {
    /// A builder with the default size of 128 x 64 pixels and no rotation.
    fn default() -> (r: Self)
        ensures
            r.rotation_view() == DisplayRotation::Rotate0,
    {
        Self::new()
    }
}

impl<DSIZE: DisplaySize> Builder<DSIZE> {
    /// Set the size of the display. Supported sizes are defined by [`DisplaySize`].
    pub fn size<S: DisplaySize>(self, size: S) -> (r: Builder<S>)
        ensures
            r.size_view() == size,
            r.rotation_view() == self.rotation_view(),
    {
        Builder { size, rotation: self.rotation }
    }

    /// Set the rotation of the display to one of four values. Defaults to no rotation.
    pub fn with_rotation(self, rotation: DisplayRotation) -> (r: Self)
        ensures
            r.size_view() == self.size_view(),
            r.rotation_view() == rotation,
    {
        Self { rotation, ..self }
    }

    /// Finish the builder and use some interface communicate with the display
    ///
    /// This method consumes the builder and must come last in the method call chain.
    pub fn connect<I>(self, interface: I) -> (r: DisplayProperties<I, DSIZE>)
        ensures
            r.iface_view() == interface,
            r.size_view() == self.size_view(),
            r.rotation_view() == self.rotation_view(),
    {
        DisplayProperties::new(interface, self.size, self.rotation)
    }
}

/// Builder struct for an I2C interface. Driver options and interface are set using its methods.
#[derive(Clone, Copy, Debug)]
pub struct I2CDIBuilder {
    pub(crate) i2c_addr: u8,
}

impl I2CDIBuilder {
    /// The I2C address the interface will talk to.
    pub open(crate) spec fn addr_view(&self) -> u8 {
        self.i2c_addr
    }

    /// Create new builder with a default I2C address of 0x3C
    pub fn new() -> (r: Self)
        ensures
            r.addr_view() == 0x3c,
    {
        Self { i2c_addr: 0x3c }
    }

    /// Set the I2C address to use
    ///
    /// [`I2CDIBuilder`] defaults to an address of `0x3C` which is the most common address.
    /// The other address specified in the datasheet is `0x3D` which can be set using this method.
    pub fn with_i2c_addr(self, i2c_addr: u8) -> (r: Self)
        ensures
            r.addr_view() == i2c_addr,
    {
        Self { i2c_addr }
    }

    /// The I2C address the interface will talk to.
    pub fn i2c_addr(&self) -> (r: u8)
        ensures
            r == self.addr_view(),
    {
        self.i2c_addr
    }

    /// Finish the builder and return an initialised display interface for further use
    ///
    /// This method consumes the builder and must come last in the method call chain.
    pub fn init<I>(self, i2c: I) -> I2CInterface<I> {
        i2c_interface(i2c, self.i2c_addr, 0x40)
    }
}

impl Default for I2CDIBuilder {
    /// A builder for the default I2C address 0x3C.
    fn default() -> (r: Self)
        ensures
            r.addr_view() == 0x3c,
    {
        Self::new()
    }
}

} // verus!
