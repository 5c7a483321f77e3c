//! Display modes.

pub mod buffered_graphics;
pub mod displaymode;
pub mod graphics;
pub mod raw;
pub mod terminal;

pub use buffered_graphics::BufferedGraphicsMode;
pub use displaymode::DisplayModeTrait;
pub use graphics::GraphicsMode;
pub use raw::RawMode;
pub use terminal::{Cursor, CursorWrapEvent, TerminalDisplaySize, TerminalMode, TerminalModeError};

use display_interface::DisplayError;
use vstd::prelude::*;

use crate::command::AddrMode;
use crate::interface::{
    append_steps, filled, filled_vec, handed_over, lemma_settle_without_mode_changes, push_step,
    ran_driver, ran_to, settle_addr_mode, view_steps, DisplayInterface, Step, StepView,
};
use crate::rotation::DisplayRotation;
use crate::size::DisplaySize;
use crate::rotation::rotation_plan;
use crate::{addr_mode_plan, draw_area_plan, draw_area_steps, init_plan, rotated_dims, Ssd1306};

verus! {

/// Common functions to all display modes.
pub trait DisplayConfig {
    /// Error.
    type Error;

    /// Set display rotation.
    fn set_rotation(&mut self, rotation: DisplayRotation) -> Result<(), Self::Error>;

    /// Initialise and configure the display for the given mode.
    fn init(&mut self) -> Result<(), Self::Error>;
}

/// A mode that keeps the display uninitialised for conversion into other modes
#[derive(Debug)]
pub struct NoMode<DI, DSIZE> {
    pub(crate) iface: DI,
    pub(crate) display_size: DSIZE,
    pub(crate) display_rotation: DisplayRotation,
}

impl<DI, DSIZE> NoMode<DI, DSIZE> {
    /// The interface to the display.
    pub open(crate) spec fn iface_view(&self) -> DI {
        self.iface
    }

    /// The display size.
    pub open(crate) spec fn size_view(&self) -> DSIZE {
        self.display_size
    }

    /// The display rotation.
    pub open(crate) spec fn rotation_view(&self) -> DisplayRotation {
        self.display_rotation
    }

    /// Create a new dummy interface
    pub fn new(iface: DI, display_size: DSIZE, display_rotation: DisplayRotation) -> (r: Self)
        ensures
            r.iface_view() == iface,
            r.size_view() == display_size,
            r.rotation_view() == display_rotation,
    {
        NoMode { iface, display_size, display_rotation }
    }
}

/// A mode with no additional functionality beyond that provided by the base
/// [`Ssd1306`](crate::Ssd1306) struct.
#[derive(Debug, Copy, Clone, PartialEq, Eq, Structural)]
pub struct BasicMode;

/// Number of data batches of 64 bytes that clearing a `dims.0` x `dims.1` display sends:
/// one per 512 pixels, plus one for the remainder.
pub open spec fn clear_batches(dims: (u8, u8)) -> nat {
    (dims.0 * dims.1 / 512 + 1) as nat
}

/// The steps that clear a display with dimensions `dims` whose addressing mode is `mode`:
/// switch to horizontal addressing if needed, select the whole screen, send zeros in
/// batches of 64 bytes, and switch back.
pub open spec fn clear_plan(mode: AddrMode, dims: (u8, u8)) -> Seq<StepView> {
    let switch = mode != AddrMode::Horizontal;
    (if switch {
        addr_mode_plan(AddrMode::Horizontal)
    } else {
        Seq::empty()
    }) + draw_area_plan(AddrMode::Horizontal, (0, 0), dims) + Seq::new(
        clear_batches(dims),
        |i: int| StepView::Data(filled(64, 0)),
    ) + (if switch {
        addr_mode_plan(mode)
    } else {
        Seq::empty()
    })
}

impl<DI, SIZE: DisplaySize> Ssd1306<DI, SIZE, BasicMode> {
    /// The steps that clear the display.
    pub fn clear_steps(&self) -> (r: Vec<Step>)
        ensures
            view_steps(r@) == clear_plan(
                self.addr_mode_view(),
                rotated_dims(self.rotation_view(), SIZE::width_spec(), SIZE::height_spec()),
            ),
    {
        proof {
            SIZE::lemma_geometry();
        }
        let old_addr_mode = self.addr_mode;
        let dim = self.dimensions();
        let mut steps: Vec<Step> = Vec::new();
        if old_addr_mode != AddrMode::Horizontal {
            append_steps(&mut steps, self.set_addr_mode_steps(AddrMode::Horizontal));
        }
        let ghost head = view_steps(steps@);
        append_steps(&mut steps, draw_area_steps(AddrMode::Horizontal, (0, 0), dim));
        let ghost with_area = view_steps(steps@);
        assert(dim.0 as int * dim.1 as int <= 128 * 128) by (nonlinear_arith)
            requires
                dim.0 <= 128,
                dim.1 <= 128,
        ;
        let num_pixels = dim.0 as u16 * dim.1 as u16;
        // Not all screens have number of pixels divisible by 512, so add 1 to cover tail
        let num_batches = num_pixels / 512 + 1;
        let ghost batches = Seq::new(clear_batches(dim), |i: int| StepView::Data(filled(64, 0)));
        assert(num_batches == clear_batches(dim));
        assert(batches.len() == clear_batches(dim));
        let mut i: u16 = 0;
        while i < num_batches
            invariant
                i <= num_batches,
                num_batches == clear_batches(dim),
                batches == Seq::new(clear_batches(dim), |i: int| StepView::Data(filled(64, 0))),
                view_steps(steps@) == with_area + batches.take(i as int),
            decreases num_batches - i,
        {
            push_step(&mut steps, Step::Data(filled_vec(64, 0)));
            assert(i < batches.len());
            assert(batches[i as int] == StepView::Data(filled(64, 0)));
            assert(batches.take(i + 1) =~= batches.take(i as int).push(StepView::Data(filled(64, 0))));
            i = i + 1;
        }
        assert(batches.take(num_batches as int) =~= batches);
        if old_addr_mode != AddrMode::Horizontal {
            append_steps(&mut steps, self.set_addr_mode_steps(old_addr_mode));
        }
        assert(view_steps(steps@) =~= clear_plan(
            self.addr_mode_view(),
            rotated_dims(self.rotation_view(), SIZE::width_spec(), SIZE::height_spec()),
        ));
        steps
    }
}

impl<DI: DisplayInterface, SIZE: DisplaySize> Ssd1306<DI, SIZE, BasicMode> {
    /// Clear the display: fill its whole memory with zeros, in horizontal addressing mode,
    /// and restore the addressing mode it was in.
    pub fn clear(&mut self) -> (r: Result<(), DisplayError>)
        ensures
            ran_driver(
                clear_plan(
                    old(self).addr_mode_view(),
                    rotated_dims(old(self).rotation_view(), SIZE::width_spec(), SIZE::height_spec()),
                ),
                r,
                old(self).addr_mode_view(),
                old(self).sent_view(),
                final(self).addr_mode_view(),
                final(self).sent_view(),
            ),
            r is Ok ==> final(self).addr_mode_view() == old(self).addr_mode_view(),
            final(self).rotation_view() == old(self).rotation_view(),
    {
        let steps = self.clear_steps();
        let r = self.run(&steps);
        proof {
            let v = view_steps(steps@);
            if r is Ok {
                let n = choose|n: int|
                    #[trigger] ran_to(v, n, r) && self.addr_mode == settle_addr_mode(
                        old(self).addr_mode,
                        v.take(n),
                    ) && self.sent_view() == old(self).sent_view() + handed_over(v, n, r);
                assert(v.take(n) =~= v);
                if old(self).addr_mode != AddrMode::Horizontal {
                    assert(v.last() == StepView::AddrMode(old(self).addr_mode));
                } else {
                    assert forall|i: int| 0 <= i < v.len() implies !(#[trigger] v[i] is AddrMode) by {
                        let a = draw_area_plan(
                            AddrMode::Horizontal,
                            (0, 0),
                            rotated_dims(old(self).rotation_view(), SIZE::width_spec(), SIZE::height_spec()),
                        );
                        if i < a.len() {
                            assert(v[i] == a[i]);
                        } else {
                            assert(v[i] == StepView::Data(filled(64, 0)));
                        }
                    }
                    lemma_settle_without_mode_changes(old(self).addr_mode, v, v.len() as int);
                }
            }
        }
        r
    }
}

impl<DI: DisplayInterface, SIZE: DisplaySize> DisplayConfig for Ssd1306<DI, SIZE, BasicMode> {
    type Error = DisplayError;

    /// Set the display rotation.
    fn set_rotation(&mut self, rot: DisplayRotation) -> (r: Result<(), DisplayError>)
        ensures
            ran_driver(
                rotation_plan(rot),
                r,
                old(self).addr_mode_view(),
                old(self).sent_view(),
                final(self).addr_mode_view(),
                final(self).sent_view(),
            ),
            final(self).rotation_view() == rot,
            final(self).addr_mode_view() == old(self).addr_mode_view(),
    {
        Ssd1306::set_rotation(self, rot)
    }

    /// Initialise in horizontal addressing mode.
    fn init(&mut self) -> (r: Result<(), DisplayError>)
        ensures
            ran_driver(
                init_plan::<SIZE>(AddrMode::Horizontal, old(self).rotation_view()),
                r,
                old(self).addr_mode_view(),
                old(self).sent_view(),
                final(self).addr_mode_view(),
                final(self).sent_view(),
            ),
            final(self).addr_mode_view() == if r is Ok {
                AddrMode::Horizontal
            } else {
                old(self).addr_mode_view()
            },
            final(self).rotation_view() == old(self).rotation_view(),
    {
        self.init_with_addr_mode(AddrMode::Horizontal)
    }
}

/// Clearing zeros every pixel: the batches of 64 zero bytes it sends hold at least one bit
/// per pixel of the display, and at most one batch more than that takes. When the display is
/// not in horizontal addressing mode, clearing first switches to it (`0x20 0x00`) and ends
/// by switching back to the mode it was in; otherwise it sends no addressing-mode command.
pub proof fn lemma_clear_covers(mode: AddrMode, dims: (u8, u8))
    ensures
        clear_batches(dims) * 512 > dims.0 * dims.1,
        (clear_batches(dims) - 1) * 512 <= dims.0 * dims.1,
        ({
            let p = clear_plan(mode, dims);
            let zeros = Seq::new(clear_batches(dims), |i: int| StepView::Data(filled(64, 0)));
            let area = draw_area_plan(AddrMode::Horizontal, (0, 0), dims);
            if mode == AddrMode::Horizontal {
                p == area + zeros
            } else {
                p == seq![
                    StepView::Commands(seq![0x20u8, 0x00u8]),
                    StepView::AddrMode(AddrMode::Horizontal),
                ] + area + zeros + seq![
                    StepView::Commands(
                        seq![
                            0x20u8,
                            match mode {
                                AddrMode::Horizontal => 0u8,
                                AddrMode::Vertical => 1u8,
                                AddrMode::Page => 2u8,
                            },
                        ],
                    ),
                    StepView::AddrMode(mode),
                ]
            }
        }),
{
    let n = dims.0 * dims.1;
    assert(n / 512 * 512 <= n && n < (n / 512 + 1) * 512) by (nonlinear_arith)
        requires
            n >= 0,
    ;
    crate::command::lemma_addressing_commands(0, 0, 0, crate::command::Page::Page0, crate::command::Page::Page0);
    let zeros = Seq::new(clear_batches(dims), |i: int| StepView::Data(filled(64, 0)));
    let area = draw_area_plan(AddrMode::Horizontal, (0, 0), dims);
    if mode == AddrMode::Horizontal {
        assert(clear_plan(mode, dims) =~= area + zeros);
    } else {
        let tail = seq![
            StepView::Commands(
                seq![
                    0x20u8,
                    match mode {
                        AddrMode::Horizontal => 0u8,
                        AddrMode::Vertical => 1u8,
                        AddrMode::Page => 2u8,
                    },
                ],
            ),
            StepView::AddrMode(mode),
        ];
        assert(addr_mode_plan(mode) == tail);
        assert(addr_mode_plan(AddrMode::Horizontal) == seq![
            StepView::Commands(seq![0x20u8, 0x00u8]),
            StepView::AddrMode(AddrMode::Horizontal),
        ]);
    }
}

} // verus!
