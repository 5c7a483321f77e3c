//! SSD1306 OLED display driver.
//!
//! The driver works out, for every operation, the exact program of command and data
//! transfers that the SSD1306 controller receives, and keeps the driver state (rotation,
//! addressing mode, framebuffer, terminal cursor) that those transfers imply. The transfers
//! go to a [`interface::DisplayInterface`], which the user implements for their bus.
//!
//! The main driver is created using [`Ssd1306::new`] which accepts an interface instance,
//! display size and rotation. The following display modes are supported:
//!
//! - [`mode::BasicMode`] - A simple mode with lower level methods available.
//! - [`mode::BufferedGraphicsMode`] - A framebuffered mode.
//! - [`mode::TerminalMode`] - A bufferless mode supporting drawing text to the display, as
//!   well as setting cursor positions like a simple terminal.

pub mod brightness;
pub mod builder;
pub mod command;
mod external;
mod i2c_interface;
pub mod interface;
pub mod mode;
pub mod prelude;
pub mod properties;
pub mod rotation;
pub mod size;
pub mod test_helpers;

pub use crate::builder::{Builder, I2CDIBuilder};
pub use crate::i2c_interface::I2CDisplayInterface;

use display_interface::DisplayError;
use vstd::prelude::*;

use crate::brightness::Brightness;
use crate::command::{
    lemma_addressing_commands, lemma_switch_commands, AddrMode, Command, Page, VcomhLevel,
};
use crate::interface::{
    append_steps, chunk_steps, chunks_drawable, chunks_plan, command, commands, execute,
    lemma_carried_out_ran_driver, lemma_no_mode_changes_one, lemma_no_mode_changes_two,
    lemma_only_commands_concat, lemma_only_commands_no_changes, lemma_ran_mode_change_last,
    lemma_ran_without_mode_changes, no_cursor_moves, no_mode_changes, only_commands,
    push_command, push_step, ran_driver, view_steps, DisplayInterface, Handed, Step, StepView,
};
use crate::mode::{BasicMode, Cursor};
use crate::rotation::{mirror_plan, mirror_steps, rotation_plan, rotation_steps, DisplayRotation};
use crate::size::DisplaySize;

verus! {

/// `x - 1`, or `0` for `x == 0`.
pub open spec fn saturating_dec(x: u8) -> u8 {
    if x == 0 {
        0
    } else {
        (x - 1) as u8
    }
}

/// The dimensions `(width, height)` of a `width` x `height` display as seen through
/// `rotation`: swapped when the image is turned sideways.
pub open spec fn rotated_dims(rotation: DisplayRotation, width: u8, height: u8) -> (u8, u8) {
    if rotation.is_sideways() {
        (height, width)
    } else {
        (width, height)
    }
}

/// The steps that set a brightness: pre-charge period, then contrast.
pub open spec fn brightness_plan(brightness: Brightness) -> Seq<StepView> {
    seq![
        command(Command::PreChargePeriod(brightness.precharge_spec(), 1)),
        command(Command::Contrast(brightness.contrast_spec())),
    ]
}

/// The steps that initialise a display of size `SIZE`, rotated by `rotation`, in
/// addressing mode `mode`; the last step records the new mode.
pub open spec fn init_plan<SIZE: DisplaySize>(mode: AddrMode, rotation: DisplayRotation) -> Seq<
    StepView,
> {
    init_body::<SIZE>(mode, rotation).push(StepView::AddrMode(mode))
}

/// The commands that start initialising a display of size `SIZE` in addressing mode `mode`:
/// switched off, with its clock, multiplex ratio, offset, start line, charge pump and
/// addressing mode.
pub open spec fn init_head<SIZE: DisplaySize>(mode: AddrMode) -> Seq<StepView> {
    commands(
        seq![
            Command::DisplayOn(false),
            Command::DisplayClockDiv(0x8, 0x0),
            Command::Multiplex((SIZE::height_spec() - 1) as u8),
            Command::DisplayOffset(0),
            Command::StartLine(0),
            Command::ChargePump(true),
            Command::AddressMode(mode),
        ],
    )
}

/// The commands that finish initialising a display: default brightness, VCOMH level, no
/// forced pixels, inversion or scrolling, and switched on.
pub open spec fn init_tail() -> Seq<StepView> {
    commands(
        seq![
            Command::PreChargePeriod(0x2, 1),
            Command::Contrast(0x5F),
            Command::VcomhDeselect(VcomhLevel::Auto),
            Command::AllOn(false),
            Command::Invert(false),
            Command::EnableScroll(false),
            Command::DisplayOn(true),
        ],
    )
}

/// The transfers that initialise a display of size `SIZE`, rotated by `rotation`, in
/// addressing mode `mode`.
pub open spec fn init_body<SIZE: DisplaySize>(mode: AddrMode, rotation: DisplayRotation) -> Seq<
    StepView,
> {
    init_head::<SIZE>(mode) + SIZE::configure_spec() + rotation_plan(rotation) + init_tail()
}

/// Initialisation sends only commands, and changes the addressing mode only at its end.
pub proof fn lemma_init_body_no_mode_changes<SIZE: DisplaySize>(
    mode: AddrMode,
    rotation: DisplayRotation,
)
    ensures
        only_commands(init_body::<SIZE>(mode, rotation)),
        no_mode_changes(init_body::<SIZE>(mode, rotation)),
        no_cursor_moves(init_body::<SIZE>(mode, rotation)),
{
    SIZE::lemma_geometry();
    let p = rotation_plan(rotation);
    assert(p =~= seq![p[0], p[1]]);
    lemma_only_commands_concat(init_head::<SIZE>(mode), SIZE::configure_spec());
    lemma_only_commands_concat(init_head::<SIZE>(mode) + SIZE::configure_spec(), p);
    lemma_only_commands_concat(init_head::<SIZE>(mode) + SIZE::configure_spec() + p, init_tail());
    lemma_only_commands_no_changes(init_body::<SIZE>(mode, rotation));
}

/// The steps that change the addressing mode; the last one records the new mode.
pub open spec fn addr_mode_plan(mode: AddrMode) -> Seq<StepView> {
    seq![command(Command::AddressMode(mode)), StepView::AddrMode(mode)]
}

/// The steps that limit drawing to the area from `start` up to (not including) `end`: the
/// column range, and the page range unless the display is in page addressing mode.
pub open spec fn draw_area_plan(addr_mode: AddrMode, start: (u8, u8), end: (u8, u8)) -> Seq<
    StepView,
> {
    seq![command(Command::ColumnAddress(start.0, saturating_dec(end.0)))] + if addr_mode
        != AddrMode::Page {
        seq![
            command(
                Command::PageAddress(Page::of_row(start.1), Page::of_row(saturating_dec(end.1))),
            ),
        ]
    } else {
        Seq::empty()
    }
}

/// The steps that set a brightness.
pub fn brightness_steps(brightness: Brightness) -> (r: Vec<Step>)
    ensures
        view_steps(r@) == brightness_plan(brightness),
{
    let mut steps: Vec<Step> = Vec::new();
    push_command(&mut steps, Command::PreChargePeriod(brightness.precharge(), 1));
    push_command(&mut steps, Command::Contrast(brightness.contrast()));
    assert(view_steps(steps@) =~= brightness_plan(brightness));
    steps
}

/// The steps that send one command.
pub fn command_steps(c: Command) -> (r: Vec<Step>)
    ensures
        view_steps(r@) == seq![command(c)],
{
    let mut steps: Vec<Step> = Vec::new();
    push_command(&mut steps, c);
    assert(view_steps(steps@) =~= seq![command(c)]);
    steps
}

/// The steps that initialise a display of size `SIZE`, rotated by `rotation`, in
/// addressing mode `mode`.
pub fn init_steps<SIZE: DisplaySize>(size: &SIZE, mode: AddrMode, rotation: DisplayRotation) -> (r:
    Vec<Step>)
    ensures
        view_steps(r@) == init_plan::<SIZE>(mode, rotation),
{
    proof {
        SIZE::lemma_geometry();
    }
    let mut steps: Vec<Step> = Vec::new();
    push_command(&mut steps, Command::DisplayOn(false));
    push_command(&mut steps, Command::DisplayClockDiv(0x8, 0x0));
    push_command(&mut steps, Command::Multiplex(SIZE::height() - 1));
    push_command(&mut steps, Command::DisplayOffset(0));
    push_command(&mut steps, Command::StartLine(0));
    push_command(&mut steps, Command::ChargePump(true));
    push_command(&mut steps, Command::AddressMode(mode));
    append_steps(&mut steps, size.configure());
    append_steps(&mut steps, rotation_steps(rotation));
    append_steps(&mut steps, brightness_steps(Brightness::default()));
    push_command(&mut steps, Command::VcomhDeselect(VcomhLevel::Auto));
    push_command(&mut steps, Command::AllOn(false));
    push_command(&mut steps, Command::Invert(false));
    push_command(&mut steps, Command::EnableScroll(false));
    push_command(&mut steps, Command::DisplayOn(true));
    push_step(&mut steps, Step::AddrMode(mode));
    assert(view_steps(steps@) =~= init_plan::<SIZE>(mode, rotation));
    steps
}

/// The steps that send `buffer` as display memory content.
pub fn data_steps(buffer: &[u8]) -> (r: Vec<Step>)
    ensures
        view_steps(r@) == seq![StepView::Data(buffer@)],
{
    let mut steps: Vec<Step> = Vec::new();
    let mut data: Vec<u8> = Vec::new();
    let mut i: usize = 0;
    while i < buffer.len()
        invariant
            i <= buffer@.len(),
            data@ == buffer@.take(i as int),
        decreases buffer@.len() - i,
    {
        data.push(buffer[i]);
        assert(buffer@.take(i + 1) =~= buffer@.take(i as int).push(buffer@[i as int]));
        i = i + 1;
    }
    assert(buffer@.take(buffer@.len() as int) =~= buffer@);
    push_step(&mut steps, Step::Data(data));
    assert(view_steps(steps@) =~= seq![StepView::Data(buffer@)]);
    steps
}

/// The steps that limit drawing to the area from `start` up to (not including) `end` on a
/// display in addressing mode `addr_mode`.
pub fn draw_area_steps(addr_mode: AddrMode, start: (u8, u8), end: (u8, u8)) -> (r: Vec<Step>)
    requires
        addr_mode != AddrMode::Page ==> start.1 < 128 && end.1 <= 128,
    ensures
        view_steps(r@) == draw_area_plan(addr_mode, start, end),
{
    let mut steps: Vec<Step> = Vec::new();
    let end_col = if end.0 == 0 {
        0
    } else {
        end.0 - 1
    };
    push_command(&mut steps, Command::ColumnAddress(start.0, end_col));
    if addr_mode != AddrMode::Page {
        let end_row = if end.1 == 0 {
            0
        } else {
            end.1 - 1
        };
        push_command(&mut steps, Command::PageAddress(Page::from(start.1), Page::from(end_row)));
    }
    assert(view_steps(steps@) =~= draw_area_plan(addr_mode, start, end));
    steps
}

/// SSD1306 driver.
///
/// Note that some methods are only available when the display is configured in a certain
/// [`mode`].
#[derive(Copy, Clone)]
pub struct Ssd1306<DI, SIZE, MODE> {
    pub(crate) interface: DI,
    pub(crate) mode: MODE,
    pub(crate) size: SIZE,
    pub(crate) addr_mode: AddrMode,
    pub(crate) rotation: DisplayRotation,
}

impl<DI, SIZE, MODE> Ssd1306<DI, SIZE, MODE> {
    /// The interface to the display.
    pub open(crate) spec fn interface_view(&self) -> DI {
        self.interface
    }

    /// The state of the display mode.
    pub open(crate) spec fn mode_view(&self) -> MODE {
        self.mode
    }

    /// The addressing mode the display was last set to.
    pub open(crate) spec fn addr_mode_view(&self) -> AddrMode {
        self.addr_mode
    }

    /// The display rotation.
    pub open(crate) spec fn rotation_view(&self) -> DisplayRotation {
        self.rotation
    }

    /// Both drivers are in the same state, whatever their interfaces are.
    pub open(crate) spec fn same_state(&self, other: &Self) -> bool {
        &&& self.mode == other.mode
        &&& self.size == other.size
        &&& self.addr_mode == other.addr_mode
        &&& self.rotation == other.rotation
    }

    /// Get the display rotation.
    pub fn rotation(&self) -> (r: DisplayRotation)
        ensures
            r == self.rotation_view(),
    {
        self.rotation
    }

    /// The addressing mode the display was last set to.
    pub fn addr_mode(&self) -> (r: AddrMode)
        ensures
            r == self.addr_mode_view(),
    {
        self.addr_mode
    }

    /// Release the contained interface.
    pub fn release(self) -> (r: DI)
        ensures
            r == self.interface_view(),
    {
        self.interface
    }

    /// Convert the display into another interface mode.
    pub(crate) fn into_mode<MODE2>(self, mode: MODE2) -> (r: Ssd1306<DI, SIZE, MODE2>)
        ensures
            r.interface == self.interface,
            r.mode == mode,
            r.size == self.size,
            r.addr_mode == self.addr_mode,
            r.rotation == self.rotation,
    {
        Ssd1306 {
            mode,
            addr_mode: self.addr_mode,
            interface: self.interface,
            size: self.size,
            rotation: self.rotation,
        }
    }
}

impl<DI, SIZE: DisplaySize> Ssd1306<DI, SIZE, BasicMode> {
    /// Create a basic SSD1306 interface, in page addressing mode.
    ///
    /// Use the `into_*_mode` methods to enable more functionality.
    pub fn new(interface: DI, size: SIZE, rotation: DisplayRotation) -> (r: Self)
        ensures
            r.interface_view() == interface,
            r.rotation_view() == rotation,
            r.addr_mode_view() == AddrMode::Page,
    {
        Self {
            interface,
            size,
            addr_mode: AddrMode::Page,
            mode: BasicMode,
            rotation,
        }
    }
}

impl<DI, SIZE: DisplaySize, MODE> Ssd1306<DI, SIZE, MODE> {
    /// Get display dimensions, taking into account the current rotation of the display
    pub fn dimensions(&self) -> (r: (u8, u8))
        ensures
            r == rotated_dims(self.rotation_view(), SIZE::width_spec(), SIZE::height_spec()),
    {
        match self.rotation {
            DisplayRotation::Rotate0 | DisplayRotation::Rotate180 => (
                SIZE::width(),
                SIZE::height(),
            ),
            DisplayRotation::Rotate90 | DisplayRotation::Rotate270 => (
                SIZE::height(),
                SIZE::width(),
            ),
        }
    }

    /// The steps that initialise the display in one of the available addressing modes.
    pub fn init_with_addr_mode_steps(&self, mode: AddrMode) -> (r: Vec<Step>)
        ensures
            view_steps(r@) == init_plan::<SIZE>(mode, self.rotation_view()),
    {
        init_steps(&self.size, mode, self.rotation)
    }

    /// The steps that change the addressing mode.
    pub fn set_addr_mode_steps(&self, mode: AddrMode) -> (r: Vec<Step>)
        ensures
            view_steps(r@) == addr_mode_plan(mode),
    {
        let mut steps: Vec<Step> = Vec::new();
        push_command(&mut steps, Command::AddressMode(mode));
        push_step(&mut steps, Step::AddrMode(mode));
        assert(view_steps(steps@) =~= addr_mode_plan(mode));
        steps
    }

    /// The steps that send the data to the display for drawing at the current position in
    /// the framebuffer and advance the position accordingly.
    pub fn draw_steps(&self, buffer: &[u8]) -> (r: Vec<Step>)
        ensures
            view_steps(r@) == seq![StepView::Data(buffer@)],
    {
        data_steps(buffer)
    }

    /// The steps that set mirroring: the mirrored configuration of the current rotation,
    /// or its plain configuration.
    pub fn set_mirror_steps(&self, mirror: bool) -> (r: Vec<Step>)
        ensures
            view_steps(r@) == if mirror {
                mirror_plan(self.rotation_view())
            } else {
                rotation_plan(self.rotation_view())
            },
    {
        if mirror {
            mirror_steps(self.rotation)
        } else {
            rotation_steps(self.rotation)
        }
    }

    /// The steps that set the position in the framebuffer of the display limiting where any
    /// sent data should be drawn.
    pub fn set_draw_area_steps(&self, start: (u8, u8), end: (u8, u8)) -> (r: Vec<Step>)
        requires
            self.addr_mode_view() != AddrMode::Page ==> start.1 < 128 && end.1 <= 128,
        ensures
            view_steps(r@) == draw_area_plan(self.addr_mode_view(), start, end),
    {
        draw_area_steps(self.addr_mode, start, end)
    }
}

impl<DI: DisplayInterface, SIZE: DisplaySize, MODE> Ssd1306<DI, SIZE, MODE> {
    /// Every transfer handed to the interface so far, in order.
    pub open spec fn sent_view(&self) -> Seq<Handed> {
        self.interface_view().sent()
    }

    /// Run a program of steps against the interface.
    pub(crate) fn run(&mut self, steps: &Vec<Step>) -> (r: Result<(), DisplayError>)
        ensures
            ran_driver(
                view_steps(steps@),
                r,
                old(self).addr_mode,
                old(self).sent_view(),
                final(self).addr_mode,
                final(self).sent_view(),
            ),
            final(self).mode == old(self).mode,
            final(self).size == old(self).size,
            final(self).rotation == old(self).rotation,
    {
        let mut cursor: Option<Cursor> = None;
        let r = execute(
            &mut self.interface,
            steps,
            &mut self.addr_mode,
            &mut cursor,
        );
        proof {
            lemma_carried_out_ran_driver(
                view_steps(steps@),
                r,
                old(self).addr_mode,
                None,
                old(self).sent_view(),
                self.addr_mode,
                cursor,
                self.sent_view(),
            );
        }
        r
    }

    /// Run a program that changes no driver state.
    pub(crate) fn run_without_mode_changes(&mut self, steps: &Vec<Step>) -> (r: Result<
        (),
        DisplayError,
    >)
        requires
            no_mode_changes(view_steps(steps@)),
        ensures
            ran_driver(
                view_steps(steps@),
                r,
                old(self).addr_mode,
                old(self).sent_view(),
                final(self).addr_mode,
                final(self).sent_view(),
            ),
            final(self).same_state(old(self)),
    {
        let r = self.run(steps);
        proof {
            lemma_ran_without_mode_changes(
                view_steps(steps@),
                r,
                old(self).addr_mode,
                old(self).sent_view(),
                self.addr_mode,
                self.sent_view(),
            );
        }
        r
    }

    /// Initialise the display in one of the available addressing modes.
    pub fn init_with_addr_mode(&mut self, mode: AddrMode) -> (r: Result<(), DisplayError>)
        ensures
            ran_driver(
                init_plan::<SIZE>(mode, old(self).rotation_view()),
                r,
                old(self).addr_mode_view(),
                old(self).sent_view(),
                final(self).addr_mode_view(),
                final(self).sent_view(),
            ),
            final(self).addr_mode_view() == if r is Ok {
                mode
            } else {
                old(self).addr_mode_view()
            },
            final(self).rotation_view() == old(self).rotation_view(),
            final(self).mode_view() == old(self).mode_view(),
    {
        let steps = self.init_with_addr_mode_steps(mode);
        let r = self.run(&steps);
        proof {
            lemma_init_body_no_mode_changes::<SIZE>(mode, old(self).rotation);
            lemma_ran_mode_change_last(
                init_body::<SIZE>(mode, old(self).rotation),
                mode,
                r,
                old(self).addr_mode,
                old(self).sent_view(),
                self.addr_mode,
                self.sent_view(),
            );
        }
        r
    }

    /// Change the addressing mode
    pub fn set_addr_mode(&mut self, mode: AddrMode) -> (r: Result<(), DisplayError>)
        ensures
            ran_driver(
                addr_mode_plan(mode),
                r,
                old(self).addr_mode_view(),
                old(self).sent_view(),
                final(self).addr_mode_view(),
                final(self).sent_view(),
            ),
            final(self).addr_mode_view() == if r is Ok {
                mode
            } else {
                old(self).addr_mode_view()
            },
            final(self).rotation_view() == old(self).rotation_view(),
            final(self).mode_view() == old(self).mode_view(),
    {
        let steps = self.set_addr_mode_steps(mode);
        let r = self.run(&steps);
        proof {
            let c = command(Command::AddressMode(mode));
            lemma_no_mode_changes_one(c);
            assert(addr_mode_plan(mode) =~= seq![c].push(StepView::AddrMode(mode)));
            lemma_ran_mode_change_last(
                seq![c],
                mode,
                r,
                old(self).addr_mode,
                old(self).sent_view(),
                self.addr_mode,
                self.sent_view(),
            );
        }
        r
    }

    /// Send the data to the display for drawing at the current position in the framebuffer
    /// and advance the position accordingly. Cf. `set_draw_area` to modify the affected area by
    /// this method.
    ///
    /// This method takes advantage of a bounding box for faster writes.
    pub fn bounded_draw(
        &mut self,
        buffer: &[u8],
        disp_width: usize,
        upper_left: (u8, u8),
        lower_right: (u8, u8),
    ) -> (r: Result<(), DisplayError>)
        requires
            chunks_drawable(buffer@.len() as int, disp_width as int, upper_left, lower_right),
        ensures
            ran_driver(
                chunks_plan(buffer@, disp_width as int, upper_left, lower_right),
                r,
                old(self).addr_mode_view(),
                old(self).sent_view(),
                final(self).addr_mode_view(),
                final(self).sent_view(),
            ),
            final(self).same_state(old(self)),
    {
        let steps = chunk_steps(buffer, disp_width, upper_left, lower_right);
        self.run_without_mode_changes(&steps)
    }

    /// Send a raw buffer to the display.
    pub fn draw(&mut self, buffer: &[u8]) -> (r: Result<(), DisplayError>)
        ensures
            ran_driver(
                seq![StepView::Data(buffer@)],
                r,
                old(self).addr_mode_view(),
                old(self).sent_view(),
                final(self).addr_mode_view(),
                final(self).sent_view(),
            ),
            final(self).same_state(old(self)),
    {
        let steps = self.draw_steps(buffer);
        proof {
            lemma_no_mode_changes_one(StepView::Data(buffer@));
        }
        self.run_without_mode_changes(&steps)
    }

    /// Set the display rotation.
    pub fn set_rotation(&mut self, rotation: DisplayRotation) -> (r: Result<(), DisplayError>)
        ensures
            ran_driver(
                rotation_plan(rotation),
                r,
                old(self).addr_mode_view(),
                old(self).sent_view(),
                final(self).addr_mode_view(),
                final(self).sent_view(),
            ),
            final(self).rotation_view() == rotation,
            final(self).addr_mode_view() == old(self).addr_mode_view(),
            final(self).mode_view() == old(self).mode_view(),
    {
        self.rotation = rotation;
        let steps = rotation_steps(rotation);
        proof {
            let p = rotation_plan(rotation);
            lemma_no_mode_changes_two(p[0], p[1]);
            assert(p =~= seq![p[0], p[1]]);
        }
        self.run_without_mode_changes(&steps)
    }

    /// Set mirror enabled/disabled.
    pub fn set_mirror(&mut self, mirror: bool) -> (r: Result<(), DisplayError>)
        ensures
            ran_driver(
                if mirror {
                    mirror_plan(old(self).rotation_view())
                } else {
                    rotation_plan(old(self).rotation_view())
                },
                r,
                old(self).addr_mode_view(),
                old(self).sent_view(),
                final(self).addr_mode_view(),
                final(self).sent_view(),
            ),
            final(self).same_state(old(self)),
    {
        let steps = self.set_mirror_steps(mirror);
        proof {
            let p = view_steps(steps@);
            lemma_no_mode_changes_two(p[0], p[1]);
            assert(p =~= seq![p[0], p[1]]);
        }
        self.run_without_mode_changes(&steps)
    }

    /// Change the display brightness.
    pub fn set_brightness(&mut self, brightness: Brightness) -> (r: Result<(), DisplayError>)
        ensures
            ran_driver(
                brightness_plan(brightness),
                r,
                old(self).addr_mode_view(),
                old(self).sent_view(),
                final(self).addr_mode_view(),
                final(self).sent_view(),
            ),
            final(self).same_state(old(self)),
    {
        let steps = brightness_steps(brightness);
        proof {
            let p = view_steps(steps@);
            lemma_no_mode_changes_two(p[0], p[1]);
            assert(p =~= seq![p[0], p[1]]);
        }
        self.run_without_mode_changes(&steps)
    }

    /// Turn the display on or off. The display can be drawn to and retains all
    /// of its memory even while off.
    pub fn set_display_on(&mut self, on: bool) -> (r: Result<(), DisplayError>)
        ensures
            ran_driver(
                seq![command(Command::DisplayOn(on))],
                r,
                old(self).addr_mode_view(),
                old(self).sent_view(),
                final(self).addr_mode_view(),
                final(self).sent_view(),
            ),
            final(self).same_state(old(self)),
    {
        self.send_command(Command::DisplayOn(on))
    }

    /// Set the position in the framebuffer of the display limiting where any sent data should be
    /// drawn. This method can be used for changing the affected area on the screen as well
    /// as (re-)setting the start point of the next `draw` call.
    pub fn set_draw_area(&mut self, start: (u8, u8), end: (u8, u8)) -> (r: Result<(), DisplayError>)
        requires
            old(self).addr_mode_view() != AddrMode::Page ==> start.1 < 128 && end.1 <= 128,
        ensures
            ran_driver(
                draw_area_plan(old(self).addr_mode_view(), start, end),
                r,
                old(self).addr_mode_view(),
                old(self).sent_view(),
                final(self).addr_mode_view(),
                final(self).sent_view(),
            ),
            final(self).same_state(old(self)),
    {
        let steps = self.set_draw_area_steps(start, end);
        proof {
            let p = view_steps(steps@);
            if p.len() == 1 {
                lemma_no_mode_changes_one(p[0]);
                assert(p =~= seq![p[0]]);
            } else {
                lemma_no_mode_changes_two(p[0], p[1]);
                assert(p =~= seq![p[0], p[1]]);
            }
        }
        self.run_without_mode_changes(&steps)
    }

    /// Set the column address in the framebuffer of the display where any sent data should be
    /// drawn.
    pub fn set_column(&mut self, column: u8) -> (r: Result<(), DisplayError>)
        ensures
            ran_driver(
                seq![command(Command::ColStart(column))],
                r,
                old(self).addr_mode_view(),
                old(self).sent_view(),
                final(self).addr_mode_view(),
                final(self).sent_view(),
            ),
            final(self).same_state(old(self)),
    {
        self.send_command(Command::ColStart(column))
    }

    /// Set the page address (row 8px high) in the framebuffer of the display where any sent data
    /// should be drawn.
    ///
    /// Note that the parameter is in pixels, but the page will be set to the start of the 8px
    /// row which contains the passed-in row.
    pub fn set_row(&mut self, row: u8) -> (r: Result<(), DisplayError>)
        requires
            row < 128,
        ensures
            ran_driver(
                seq![command(Command::PageStart(Page::of_row(row)))],
                r,
                old(self).addr_mode_view(),
                old(self).sent_view(),
                final(self).addr_mode_view(),
                final(self).sent_view(),
            ),
            final(self).same_state(old(self)),
    {
        self.send_command(Command::PageStart(Page::from(row)))
    }

    /// Set the screen pixel on/off inversion
    pub fn set_invert(&mut self, invert: bool) -> (r: Result<(), DisplayError>)
        ensures
            ran_driver(
                seq![command(Command::Invert(invert))],
                r,
                old(self).addr_mode_view(),
                old(self).sent_view(),
                final(self).addr_mode_view(),
                final(self).sent_view(),
            ),
            final(self).same_state(old(self)),
    {
        self.send_command(Command::Invert(invert))
    }

    /// Send one command.
    fn send_command(&mut self, c: Command) -> (r: Result<(), DisplayError>)
        ensures
            ran_driver(
                seq![command(c)],
                r,
                old(self).addr_mode_view(),
                old(self).sent_view(),
                final(self).addr_mode_view(),
                final(self).sent_view(),
            ),
            final(self).same_state(old(self)),
    {
        let steps = command_steps(c);
        proof {
            lemma_no_mode_changes_one(command(c));
        }
        self.run_without_mode_changes(&steps)
    }
}

/// Unmirroring does what setting the current rotation does: whatever `set_mirror(false)` can
/// have done to a display (which transfers it handed over, with which answers, the result, and
/// the driver state after it), `set_rotation(d.rotation())` can have done too.
pub proof fn lemma_unmirror_is_set_rotation<DI: DisplayInterface, SIZE: DisplaySize, MODE>(
    before: Ssd1306<DI, SIZE, MODE>,
    after: Ssd1306<DI, SIZE, MODE>,
    r: Result<(), DisplayError>,
)
    requires
        ran_driver(
            if false {
                mirror_plan(before.rotation_view())
            } else {
                rotation_plan(before.rotation_view())
            },
            r,
            before.addr_mode_view(),
            before.sent_view(),
            after.addr_mode_view(),
            after.sent_view(),
        ),
        after.same_state(&before),
    ensures
        ran_driver(
            rotation_plan(before.rotation_view()),
            r,
            before.addr_mode_view(),
            before.sent_view(),
            after.addr_mode_view(),
            after.sent_view(),
        ),
        after.rotation_view() == before.rotation_view(),
        after.addr_mode_view() == before.addr_mode_view(),
        after.mode_view() == before.mode_view(),
{
}

/// The rotation after a run of operations on a display that started in rotation `start`:
/// the one of the last operation that set it (`Some`), or `start` when none did.
pub open spec fn last_rotation_set(start: DisplayRotation, sets: Seq<Option<DisplayRotation>>) -> DisplayRotation
    decreases sets.len(),
{
    if sets.len() == 0 {
        start
    } else {
        match sets.last() {
            Some(rotation) => rotation,
            None => last_rotation_set(start, sets.drop_last()),
        }
    }
}

/// `rotation()` gives the last rotation set. Take the rotations of a display before and
/// after each of a run of operations, where operation `i` either sets the rotation to `r`
/// (`sets[i]` is `Some(r)`: `set_rotation(r)`) or keeps it (`None`: every other operation and
/// every change of mode); then the rotation after them all is the last one set, or the one
/// it started with.
pub proof fn lemma_rotation_is_last_set(
    rotations: Seq<DisplayRotation>,
    sets: Seq<Option<DisplayRotation>>,
)
    requires
        rotations.len() == sets.len() + 1,
        forall|i: int|
            0 <= i < sets.len() ==> rotations[i + 1] == match #[trigger] sets[i] {
                Some(rotation) => rotation,
                None => rotations[i],
            },
    ensures
        rotations.last() == last_rotation_set(rotations[0], sets),
    decreases sets.len(),
{
    if sets.len() > 0 {
        let k = sets.len() - 1;
        let front = rotations.drop_last();
        let fsets = sets.drop_last();
        assert forall|i: int| 0 <= i < fsets.len() implies front[i + 1] == match #[trigger] fsets[i] {
            Some(rotation) => rotation,
            None => front[i],
        } by {
            assert(fsets[i] == sets[i]);
            assert(front[i + 1] == rotations[i + 1] && front[i] == rotations[i]);
        }
        lemma_rotation_is_last_set(front, fsets);
        assert(sets[k] == sets.last());
        assert(front.last() == rotations[k]);
    }
}

/// Limiting drawing to the area from `start` up to (not including) `end` sets the column
/// range with `0x21`, from `start.0` to the column before `end.0`; in horizontal and in
/// vertical addressing mode alike it then sets the page range with `0x22`, from the page of
/// `start.1` to the page of the row before `end.1`. In page addressing mode only the column
/// range is set.
pub proof fn lemma_draw_area_commands(start: (u8, u8), end: (u8, u8))
    requires
        start.1 < 128,
        end.1 <= 128,
    ensures
        ({
            let last_col: u8 = if end.0 == 0 {
                0
            } else {
                (end.0 - 1) as u8
            };
            let last_row: u8 = if end.1 == 0 {
                0
            } else {
                (end.1 - 1) as u8
            };
            let columns = StepView::Commands(seq![0x21u8, start.0, last_col]);
            let pages = StepView::Commands(seq![0x22u8, start.1 / 8, last_row / 8]);
            &&& draw_area_plan(AddrMode::Horizontal, start, end) == seq![columns, pages]
            &&& draw_area_plan(AddrMode::Vertical, start, end) == seq![columns, pages]
            &&& draw_area_plan(AddrMode::Page, start, end) == seq![columns]
        }),
{
    let last_row = saturating_dec(end.1);
    lemma_addressing_commands(start.1, 0, 0, Page::of_row(start.1), Page::of_row(last_row));
    lemma_addressing_commands(last_row, 0, 0, Page::of_row(start.1), Page::of_row(last_row));
    let columns = command(Command::ColumnAddress(start.0, saturating_dec(end.0)));
    let pages = command(Command::PageAddress(Page::of_row(start.1), Page::of_row(last_row)));
    assert(draw_area_plan(AddrMode::Horizontal, start, end) =~= seq![columns, pages]);
    assert(draw_area_plan(AddrMode::Vertical, start, end) =~= seq![columns, pages]);
    assert(draw_area_plan(AddrMode::Page, start, end) =~= seq![columns]);
}

/// Initialisation starts with the display switched off (`0xAE`), the clock divider and
/// oscillator at their reset values (`0xD5 0x80`), one multiplexed row per pixel row of the
/// panel (`0xA8`, height - 1), no display offset (`0xD3 0x00`), start line 0 (`0x40`), the
/// charge pump on (`0x8D 0x14`) and the addressing mode (`0x20`, then 0 for horizontal, 1 for
/// vertical and 2 for page addressing). It ends with the medium brightness (pre-charge 2 in
/// phase 1: `0xD9 0x12`; contrast `0x81 0x5F`), the automatic VCOMH level (`0xDB 0x40`),
/// pixels following the memory (`0xA4`), no inversion (`0xA6`), no scrolling (`0x2E`) and the
/// display switched on (`0xAF`).
pub proof fn lemma_init_commands<SIZE: DisplaySize>(mode: AddrMode)
    ensures
        init_head::<SIZE>(mode) == seq![
            StepView::Commands(seq![0xAEu8]),
            StepView::Commands(seq![0xD5u8, 0x80u8]),
            StepView::Commands(seq![0xA8u8, (SIZE::height_spec() - 1) as u8]),
            StepView::Commands(seq![0xD3u8, 0x00u8]),
            StepView::Commands(seq![0x40u8]),
            StepView::Commands(seq![0x8Du8, 0x14u8]),
            StepView::Commands(
                seq![
                    0x20u8,
                    match mode {
                        AddrMode::Horizontal => 0u8,
                        AddrMode::Vertical => 1u8,
                        AddrMode::Page => 2u8,
                    },
                ],
            ),
        ],
        init_tail() == seq![
            StepView::Commands(seq![0xD9u8, 0x12u8]),
            StepView::Commands(seq![0x81u8, 0x5Fu8]),
            StepView::Commands(seq![0xDBu8, 0x40u8]),
            StepView::Commands(seq![0xA4u8]),
            StepView::Commands(seq![0xA6u8]),
            StepView::Commands(seq![0x2Eu8]),
            StepView::Commands(seq![0xAFu8]),
        ],
{
    assert(Command::DisplayClockDiv(0x8, 0x0).bytes() =~= seq![0xD5u8, 0x80u8]);
    assert(Command::Multiplex((SIZE::height_spec() - 1) as u8).bytes() =~= seq![
        0xA8u8,
        (SIZE::height_spec() - 1) as u8,
    ]);
    assert(Command::DisplayOffset(0).bytes() =~= seq![0xD3u8, 0x00u8]);
    assert(Command::StartLine(0).bytes() =~= seq![0x40u8]);
    assert(Command::PreChargePeriod(0x2, 1).bytes() =~= seq![0xD9u8, 0x12u8]);
    assert(Command::Contrast(0x5F).bytes() =~= seq![0x81u8, 0x5Fu8]);
    assert(Command::VcomhDeselect(VcomhLevel::Auto).bytes() =~= seq![0xDBu8, 0x40u8]);
    lemma_switch_commands();
    lemma_addressing_commands(0, 0, 0, Page::Page0, Page::Page0);
    assert(init_head::<SIZE>(mode) =~= seq![
        StepView::Commands(seq![0xAEu8]),
        StepView::Commands(seq![0xD5u8, 0x80u8]),
        StepView::Commands(seq![0xA8u8, (SIZE::height_spec() - 1) as u8]),
        StepView::Commands(seq![0xD3u8, 0x00u8]),
        StepView::Commands(seq![0x40u8]),
        StepView::Commands(seq![0x8Du8, 0x14u8]),
        StepView::Commands(
            seq![
                0x20u8,
                match mode {
                    AddrMode::Horizontal => 0u8,
                    AddrMode::Vertical => 1u8,
                    AddrMode::Page => 2u8,
                },
            ],
        ),
    ]);
    assert(init_tail() =~= seq![
        StepView::Commands(seq![0xD9u8, 0x12u8]),
        StepView::Commands(seq![0x81u8, 0x5Fu8]),
        StepView::Commands(seq![0xDBu8, 0x40u8]),
        StepView::Commands(seq![0xA4u8]),
        StepView::Commands(seq![0xA6u8]),
        StepView::Commands(seq![0x2Eu8]),
        StepView::Commands(seq![0xAFu8]),
    ]);
}

/// Setting a brightness sends its pre-charge period as phase 1 of `0xD9`, with phase 2 at
/// 1 (`0x10` plus the pre-charge), then its contrast with `0x81`; initialisation sets the
/// default brightness in just this way.
pub proof fn lemma_brightness_commands(b: Brightness)
    requires
        b.precharge_spec() <= 15,
    ensures
        brightness_plan(b) == seq![
            StepView::Commands(seq![0xD9u8, (0x10 + b.precharge_spec()) as u8]),
            StepView::Commands(seq![0x81u8, b.contrast_spec()]),
        ],
        init_tail().take(2) == seq![
            StepView::Commands(seq![0xD9u8, 0x12u8]),
            StepView::Commands(seq![0x81u8, 0x5Fu8]),
        ],
{
    let p = b.precharge_spec();
    assert(Command::PreChargePeriod(p, 1).bytes() =~= seq![0xD9u8, (0x10 + p) as u8]);
    assert(Command::Contrast(b.contrast_spec()).bytes() =~= seq![0x81u8, b.contrast_spec()]);
    assert(brightness_plan(b) =~= seq![
        StepView::Commands(seq![0xD9u8, (0x10 + p) as u8]),
        StepView::Commands(seq![0x81u8, b.contrast_spec()]),
    ]);
    lemma_init_commands::<crate::size::DisplaySize128x64>(AddrMode::Page);
    assert(init_tail().take(2) =~= seq![
        StepView::Commands(seq![0xD9u8, 0x12u8]),
        StepView::Commands(seq![0x81u8, 0x5Fu8]),
    ]);
}

} // verus!
