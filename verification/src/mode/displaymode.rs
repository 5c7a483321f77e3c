//! Abstraction of different operating modes for the SSD1306

use vstd::prelude::*;

use crate::properties::DisplayProperties;

verus! {

/// Trait with core functionality for display mode switching
pub trait DisplayModeTrait<DI, DSIZE>: Sized {
    /// The display properties that this mode holds
    spec fn held_properties(&self) -> DisplayProperties<DI, DSIZE>;

    /// Allocate all required data and initialise display for mode
    fn new(properties: DisplayProperties<DI, DSIZE>) -> (r: Self)
        ensures
            r.held_properties() == properties,
    ;

    /// Deconstruct object and retrieve DisplayProperties
    fn into_properties(self) -> (r: DisplayProperties<DI, DSIZE>)
        ensures
            r == self.held_properties(),
    ;

    /// Release display interface
    fn release(self) -> (r: DI)
        ensures
            r == self.held_properties().iface_view(),
    {
        self.into_properties().release()
    }
}

} // verus!
