//! Display brightness.

use vstd::prelude::*;

verus! {

/// Display brightness: the pre-charge period and the contrast that the display is set to.
#[derive(Debug, Copy, Clone, PartialEq, Eq, Structural)]
pub struct Brightness {
    pub(crate) precharge: u8,
    pub(crate) contrast: u8,
}

impl Brightness {
    /// The `phase 1` argument of the `0xD9 Set Pre-Charge Period` command.
    pub closed spec fn precharge_spec(self) -> u8 {
        self.precharge
    }

    /// The argument of the `0x81 Set Contrast Control` command.
    pub closed spec fn contrast_spec(self) -> u8 {
        self.contrast
    }

    /// Create a Brightness object from a precharge period and contrast pair.
    ///
    /// `precharge` sets the `phase 1` argument of the `0xD9 Set Pre-Charge Period` command and
    /// must be between 1 and 15. See section 10.1.17 of the SSD1306 datasheet for more
    /// information.
    ///
    /// `contrast` sets the value used in the `0x81 Set Contrast Control` command and must be
    /// between 0 and 255. See section 10.1.7 of the SSD1306 datasheet for more information.
    pub fn custom(precharge: u8, contrast: u8) -> (r: Self)
        requires
            1 <= precharge <= 15,
        ensures
            r.precharge_spec() == precharge,
            r.contrast_spec() == contrast,
    {
        Self { precharge, contrast }
    }

    /// The dimmest predefined brightness level
    pub fn dimmest() -> (r: Self)
        ensures
            r.precharge_spec() == 0x1,
            r.contrast_spec() == 0x00,
    {
        Brightness::custom(0x1, 0x00)
    }

    /// A dim predefined brightness level
    pub fn dim() -> (r: Self)
        ensures
            r.precharge_spec() == 0x2,
            r.contrast_spec() == 0x2F,
    {
        Brightness::custom(0x2, 0x2F)
    }

    /// A medium predefined brightness level
    pub fn normal() -> (r: Self)
        ensures
            r.precharge_spec() == 0x2,
            r.contrast_spec() == 0x5F,
    {
        Brightness::custom(0x2, 0x5F)
    }

    /// A bright predefined brightness level
    pub fn bright() -> (r: Self)
        ensures
            r.precharge_spec() == 0x2,
            r.contrast_spec() == 0x9F,
    {
        Brightness::custom(0x2, 0x9F)
    }

    /// The brightest predefined brightness level
    pub fn brightest() -> (r: Self)
        ensures
            r.precharge_spec() == 0x2,
            r.contrast_spec() == 0xFF,
    {
        Brightness::custom(0x2, 0xFF)
    }

    /// The pre-charge period.
    pub fn precharge(&self) -> (r: u8)
        ensures
            r == self.precharge_spec(),
    {
        self.precharge
    }

    /// The contrast.
    pub fn contrast(&self) -> (r: u8)
        ensures
            r == self.contrast_spec(),
    {
        self.contrast
    }
}

impl Default for Brightness {
    /// The medium level.
    fn default() -> (r: Self)
        ensures
            r.precharge_spec() == 0x2,
            r.contrast_spec() == 0x5F,
    {
        Brightness::normal()
    }
}

} // verus!
