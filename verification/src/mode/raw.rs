//! Raw mode for coercion into richer driver types
//!
//! A display driver instance without high level functionality used as a return type from the
//! builder. Used as a source to coerce the driver into richer modes like
//! [`GraphicsMode`](crate::mode::graphics::GraphicsMode) and
//! [`TerminalMode`](crate::mode::terminal::TerminalMode).

use vstd::prelude::*;
use vstd::std_specs::convert::FromSpecImpl;

use crate::mode::displaymode::DisplayModeTrait;
use crate::properties::DisplayProperties;

verus! {

/// Raw display mode
pub struct RawMode<DI, DSIZE> {
    pub(crate) properties: DisplayProperties<DI, DSIZE>,
}

impl<DI, DSIZE> RawMode<DI, DSIZE> {
    /// The display properties.
    pub open(crate) spec fn properties_view(&self) -> DisplayProperties<DI, DSIZE> {
        self.properties
    }

    /// Create a new raw display mode
    pub fn new(properties: DisplayProperties<DI, DSIZE>) -> (r: Self)
        ensures
            r.properties_view() == properties,
    {
        RawMode { properties }
    }
}

impl<DI, DSIZE> From<DisplayProperties<DI, DSIZE>> for RawMode<DI, DSIZE> {
    /// A raw mode over the display properties.
    fn from(properties: DisplayProperties<DI, DSIZE>) -> (r: Self) {
        RawMode { properties }
    }
}

impl<DI, DSIZE> FromSpecImpl<DisplayProperties<DI, DSIZE>> for RawMode<DI, DSIZE> {
    open spec fn obeys_from_spec() -> bool {
        true
    }

    closed spec fn from_spec(properties: DisplayProperties<DI, DSIZE>) -> Self {
        RawMode { properties }
    }
}

impl<DI, DSIZE> DisplayModeTrait<DI, DSIZE> for RawMode<DI, DSIZE> {
    open spec fn held_properties(&self) -> DisplayProperties<DI, DSIZE> {
        self.properties_view()
    }

    /// Create new RawMode instance
    fn new(properties: DisplayProperties<DI, DSIZE>) -> (r: Self)
        ensures
            r.properties_view() == properties,
    {
        RawMode { properties }
    }

    /// Release all resources used by RawMode
    fn into_properties(self) -> (r: DisplayProperties<DI, DSIZE>)
        ensures
            r == self.properties_view(),
    {
        self.properties
    }
}

} // verus!
