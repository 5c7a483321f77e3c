//! Container to store and set display properties

use display_interface::DisplayError;
use vstd::prelude::*;

use crate::brightness::Brightness;
use crate::command::{AddrMode, Command, Page, VcomhLevel};
use crate::interface::{
    append_steps, carried_out, chunk_steps, chunks_drawable, chunks_plan, command, commands,
    execute, lemma_carried_out_ran_driver, lemma_commands_no_mode_changes,
    lemma_no_mode_changes_concat, lemma_no_mode_changes_one, lemma_no_mode_changes_two,
    lemma_ran_mode_change_last, lemma_ran_without_mode_changes, no_mode_changes, push_command,
    push_step, ran_driver, view_steps, DisplayInterface, Handed, Step, StepView,
};
use crate::mode::Cursor;
use crate::rotation::{rotation_plan, rotation_steps, transform_spec, DisplayRotation};
use crate::size::DisplaySize;
use crate::{
    addr_mode_plan, brightness_plan, brightness_steps, command_steps, data_steps, init_body,
    init_plan, init_steps, lemma_init_body_no_mode_changes, rotated_dims,
};

verus! {

/// The transfers that initialise a display of size `SIZE` in column mode (horizontal
/// addressing), rotated by `rotation`, with contrast 0x8F and pre-charge period (1, 15).
pub open spec fn column_mode_body<SIZE: DisplaySize>(rotation: DisplayRotation) -> Seq<StepView> {
    commands(
        seq![
            Command::DisplayOn(false),
            Command::DisplayClockDiv(0x8, 0x0),
            Command::Multiplex((SIZE::height_spec() - 1) as u8),
            Command::DisplayOffset(0),
            Command::StartLine(0),
            Command::ChargePump(true),
            Command::AddressMode(AddrMode::Horizontal),
        ],
    ) + rotation_plan(rotation) + commands(
        seq![
            SIZE::com_pin_config_spec(),
            Command::Contrast(0x8F),
            Command::PreChargePeriod(0x1, 0xF),
            Command::VcomhDeselect(VcomhLevel::Auto),
            Command::AllOn(false),
            Command::Invert(false),
            Command::EnableScroll(false),
            Command::DisplayOn(true),
        ],
    )
}

/// The steps of [`DisplayProperties::init_column_mode`]; the last one records horizontal
/// addressing.
pub open spec fn column_mode_plan<SIZE: DisplaySize>(rotation: DisplayRotation) -> Seq<StepView> {
    column_mode_body::<SIZE>(rotation).push(StepView::AddrMode(AddrMode::Horizontal))
}

/// The steps that limit drawing to the columns and pages from `start` up to (not including)
/// `end`.
pub open spec fn area_plan(start: (u8, u8), end: (u8, u8)) -> Seq<StepView> {
    seq![
        command(Command::ColumnAddress(start.0, (end.0 - 1) as u8)),
        command(Command::PageAddress(Page::of_row(start.1), Page::of_row((end.1 - 1) as u8))),
    ]
}

/// The steps that limit drawing to the columns and pages from `start` up to (not including)
/// `end`.
pub fn area_steps(start: (u8, u8), end: (u8, u8)) -> (r: Vec<Step>)
    requires
        1 <= end.0,
        1 <= end.1 <= 128,
        start.1 < 128,
    ensures
        view_steps(r@) == area_plan(start, end),
{
    let mut steps: Vec<Step> = Vec::new();
    push_command(&mut steps, Command::ColumnAddress(start.0, end.0 - 1));
    push_command(&mut steps, Command::PageAddress(Page::from(start.1), Page::from(end.1 - 1)));
    assert(view_steps(steps@) =~= area_plan(start, end));
    steps
}

/// Column mode initialisation changes the addressing mode only at its end.
pub proof fn lemma_column_mode_body_no_mode_changes<SIZE: DisplaySize>(rotation: DisplayRotation)
    ensures
        no_mode_changes(column_mode_body::<SIZE>(rotation)),
{
    let a = commands(
        seq![
            Command::DisplayOn(false),
            Command::DisplayClockDiv(0x8, 0x0),
            Command::Multiplex((SIZE::height_spec() - 1) as u8),
            Command::DisplayOffset(0),
            Command::StartLine(0),
            Command::ChargePump(true),
            Command::AddressMode(AddrMode::Horizontal),
        ],
    );
    let c = seq![
        SIZE::com_pin_config_spec(),
        Command::Contrast(0x8F),
        Command::PreChargePeriod(0x1, 0xF),
        Command::VcomhDeselect(VcomhLevel::Auto),
        Command::AllOn(false),
        Command::Invert(false),
        Command::EnableScroll(false),
        Command::DisplayOn(true),
    ];
    lemma_commands_no_mode_changes(seq![
        Command::DisplayOn(false),
        Command::DisplayClockDiv(0x8, 0x0),
        Command::Multiplex((SIZE::height_spec() - 1) as u8),
        Command::DisplayOffset(0),
        Command::StartLine(0),
        Command::ChargePump(true),
        Command::AddressMode(AddrMode::Horizontal),
    ]);
    lemma_commands_no_mode_changes(c);
    let p = rotation_plan(rotation);
    lemma_no_mode_changes_two(p[0], p[1]);
    assert(p =~= seq![p[0], p[1]]);
    lemma_no_mode_changes_concat(a, p);
    lemma_no_mode_changes_concat(a + p, commands(c));
}

/// Display properties struct
pub struct DisplayProperties<DI, DSIZE> {
    pub(crate) iface: DI,
    pub(crate) display_size: DSIZE,
    pub(crate) display_rotation: DisplayRotation,
    pub(crate) addr_mode: AddrMode,
}

impl<DI, DSIZE> DisplayProperties<DI, DSIZE> {
    /// The interface to the display.
    pub open(crate) spec fn iface_view(&self) -> DI {
        self.iface
    }

    /// The display rotation.
    pub open(crate) spec fn rotation_view(&self) -> DisplayRotation {
        self.display_rotation
    }

    /// The addressing mode the display was last set to.
    pub open(crate) spec fn addr_mode_view(&self) -> AddrMode {
        self.addr_mode
    }

    /// The display size.
    pub open(crate) spec fn size_view(&self) -> DSIZE {
        self.display_size
    }

    /// Create new DisplayProperties instance, in page addressing mode.
    pub fn new(iface: DI, display_size: DSIZE, display_rotation: DisplayRotation) -> (r:
        DisplayProperties<DI, DSIZE>)
        ensures
            r.iface_view() == iface,
            r.size_view() == display_size,
            r.rotation_view() == display_rotation,
            r.addr_mode_view() == AddrMode::Page,
    {
        DisplayProperties {
            iface,
            display_size,
            display_rotation,
            addr_mode: AddrMode::Page,
        }
    }

    /// Get the configured display size
    pub fn get_size(&self) -> (r: &DSIZE)
        ensures
            *r == self.size_view(),
    {
        &self.display_size
    }

    /// Get the display rotation
    pub fn get_rotation(&self) -> (r: DisplayRotation)
        ensures
            r == self.rotation_view(),
    {
        self.display_rotation
    }

    /// Flip coordinates if the display is rotated sideways.
    pub fn transform(&self, x: u8, y: u8) -> (r: (u8, u8))
        ensures
            r == transform_spec(self.rotation_view(), x, y),
    {
        crate::rotation::transform(self.display_rotation, x, y)
    }

    /// Release the contained interface.
    pub fn release(self) -> (r: DI)
        ensures
            r == self.iface_view(),
    {
        self.iface
    }
}

impl<DI, DSIZE: DisplaySize> DisplayProperties<DI, DSIZE> {
    /// Get display dimensions, taking into account the current rotation of the display
    pub fn get_dimensions(&self) -> (r: (u8, u8))
        ensures
            r == rotated_dims(self.rotation_view(), DSIZE::width_spec(), DSIZE::height_spec()),
    {
        let (w, h) = (DSIZE::width(), DSIZE::height());
        match self.display_rotation {
            DisplayRotation::Rotate0 | DisplayRotation::Rotate180 => (w, h),
            DisplayRotation::Rotate90 | DisplayRotation::Rotate270 => (h, w),
        }
    }

    /// The steps that initialise the display in column mode (i.e. a byte walks down a column
    /// of 8 pixels) with column 0 on the left and column _(display_width - 1)_ on the right.
    pub fn init_column_mode_steps(&self) -> (r: Vec<Step>)
        ensures
            view_steps(r@) == column_mode_plan::<DSIZE>(self.rotation_view()),
    {
        proof {
            DSIZE::lemma_geometry();
        }
        let display_height = DSIZE::height();
        let mut steps: Vec<Step> = Vec::new();
        push_command(&mut steps, Command::DisplayOn(false));
        push_command(&mut steps, Command::DisplayClockDiv(0x8, 0x0));
        push_command(&mut steps, Command::Multiplex(display_height - 1));
        push_command(&mut steps, Command::DisplayOffset(0));
        push_command(&mut steps, Command::StartLine(0));
        push_command(&mut steps, Command::ChargePump(true));
        push_command(&mut steps, Command::AddressMode(AddrMode::Horizontal));
        append_steps(&mut steps, rotation_steps(self.display_rotation));
        push_command(&mut steps, DSIZE::com_pin_config());
        push_command(&mut steps, Command::Contrast(0x8F));
        push_command(&mut steps, Command::PreChargePeriod(0x1, 0xF));
        push_command(&mut steps, Command::VcomhDeselect(VcomhLevel::Auto));
        push_command(&mut steps, Command::AllOn(false));
        push_command(&mut steps, Command::Invert(false));
        push_command(&mut steps, Command::EnableScroll(false));
        push_command(&mut steps, Command::DisplayOn(true));
        push_step(&mut steps, Step::AddrMode(AddrMode::Horizontal));
        assert(view_steps(steps@) =~= column_mode_plan::<DSIZE>(self.rotation_view()));
        steps
    }

    /// The steps that initialise the display in one of the available addressing modes.
    pub fn init_with_mode_steps(&self, mode: AddrMode) -> (r: Vec<Step>)
        ensures
            view_steps(r@) == init_plan::<DSIZE>(mode, self.rotation_view()),
    {
        init_steps(&self.display_size, mode, self.display_rotation)
    }

    /// The steps that set the position in the framebuffer of the display where any sent data
    /// should be drawn: from `start` up to (not including) `end`.
    pub fn set_draw_area_steps(&self, start: (u8, u8), end: (u8, u8)) -> (r: Vec<Step>)
        requires
            1 <= end.0,
            1 <= end.1 <= 128,
            start.1 < 128,
        ensures
            view_steps(r@) == area_plan(start, end),
    {
        area_steps(start, end)
    }
}

impl<DI: DisplayInterface, DSIZE: DisplaySize> DisplayProperties<DI, DSIZE> {
    /// Every transfer handed to the interface so far, in order.
    pub open spec fn sent_view(&self) -> Seq<Handed> {
        self.iface_view().sent()
    }

    /// Run a program of steps against the interface, with the terminal cursor `cursor`.
    pub(crate) fn run_with_cursor(&mut self, steps: &Vec<Step>, cursor: &mut Option<Cursor>) -> (r:
        Result<(), DisplayError>)
        ensures
            carried_out(
                view_steps(steps@),
                r,
                old(self).addr_mode,
                *old(cursor),
                old(self).sent_view(),
                final(self).addr_mode,
                *final(cursor),
                final(self).sent_view(),
            ),
            final(self).display_rotation == old(self).display_rotation,
            final(self).display_size == old(self).display_size,
    {
        execute(&mut self.iface, steps, &mut self.addr_mode, cursor)
    }

    /// Run a program of steps against the interface.
    pub(crate) fn run(&mut self, steps: &Vec<Step>) -> (r: Result<(), DisplayError>)
        ensures
            ran_driver(
                view_steps(steps@),
                r,
                old(self).addr_mode,
                old(self).sent_view(),
                final(self).addr_mode,
                final(self).sent_view(),
            ),
            final(self).display_rotation == old(self).display_rotation,
            final(self).display_size == old(self).display_size,
    {
        let mut cursor: Option<Cursor> = None;
        let r = self.run_with_cursor(steps, &mut cursor);
        proof {
            lemma_carried_out_ran_driver(
                view_steps(steps@),
                r,
                old(self).addr_mode,
                None,
                old(self).sent_view(),
                self.addr_mode,
                cursor,
                self.sent_view(),
            );
        }
        r
    }

    /// Run a program that changes no addressing mode.
    pub(crate) fn run_without_mode_changes(&mut self, steps: &Vec<Step>) -> (r: Result<(), DisplayError>)
        requires
            no_mode_changes(view_steps(steps@)),
        ensures
            ran_driver(
                view_steps(steps@),
                r,
                old(self).addr_mode,
                old(self).sent_view(),
                final(self).addr_mode,
                final(self).sent_view(),
            ),
            final(self).display_rotation == old(self).display_rotation,
            final(self).display_size == old(self).display_size,
            final(self).addr_mode == old(self).addr_mode,
    {
        let r = self.run(steps);
        proof {
            lemma_ran_without_mode_changes(
                view_steps(steps@),
                r,
                old(self).addr_mode,
                old(self).sent_view(),
                self.addr_mode,
                self.sent_view(),
            );
        }
        r
    }

    /// Run a program of one transfer.
    fn run_one(&mut self, steps: &Vec<Step>) -> (r: Result<(), DisplayError>)
        requires
            view_steps(steps@).len() == 1,
            view_steps(steps@)[0].is_transfer(),
        ensures
            ran_driver(
                view_steps(steps@),
                r,
                old(self).addr_mode,
                old(self).sent_view(),
                final(self).addr_mode,
                final(self).sent_view(),
            ),
            final(self).display_rotation == old(self).display_rotation,
            final(self).display_size == old(self).display_size,
            final(self).addr_mode == old(self).addr_mode,
    {
        proof {
            lemma_no_mode_changes_one(view_steps(steps@)[0]);
            assert(view_steps(steps@) =~= seq![view_steps(steps@)[0]]);
        }
        self.run_without_mode_changes(steps)
    }

    /// Initialise the display in column mode (i.e. a byte walks down a column of 8 pixels)
    /// with column 0 on the left and column _(display_width - 1)_ on the right.
    pub fn init_column_mode(&mut self) -> (r: Result<(), DisplayError>)
        ensures
            ran_driver(
                column_mode_plan::<DSIZE>(old(self).rotation_view()),
                r,
                old(self).addr_mode_view(),
                old(self).sent_view(),
                final(self).addr_mode_view(),
                final(self).sent_view(),
            ),
            final(self).addr_mode_view() == if r is Ok {
                AddrMode::Horizontal
            } else {
                old(self).addr_mode_view()
            },
            final(self).rotation_view() == old(self).rotation_view(),
    {
        let steps = self.init_column_mode_steps();
        let r = self.run(&steps);
        proof {
            lemma_column_mode_body_no_mode_changes::<DSIZE>(old(self).display_rotation);
            lemma_ran_mode_change_last(
                column_mode_body::<DSIZE>(old(self).display_rotation),
                AddrMode::Horizontal,
                r,
                old(self).addr_mode,
                old(self).sent_view(),
                self.addr_mode,
                self.sent_view(),
            );
        }
        r
    }

    /// Initialise the display in one of the available addressing modes.
    pub fn init_with_mode(&mut self, mode: AddrMode) -> (r: Result<(), DisplayError>)
        ensures
            ran_driver(
                init_plan::<DSIZE>(mode, old(self).rotation_view()),
                r,
                old(self).addr_mode_view(),
                old(self).sent_view(),
                final(self).addr_mode_view(),
                final(self).sent_view(),
            ),
            final(self).addr_mode_view() == if r is Ok {
                mode
            } else {
                old(self).addr_mode_view()
            },
            final(self).rotation_view() == old(self).rotation_view(),
    {
        let steps = self.init_with_mode_steps(mode);
        let r = self.run(&steps);
        proof {
            lemma_init_body_no_mode_changes::<DSIZE>(mode, old(self).display_rotation);
            lemma_ran_mode_change_last(
                init_body::<DSIZE>(mode, old(self).display_rotation),
                mode,
                r,
                old(self).addr_mode,
                old(self).sent_view(),
                self.addr_mode,
                self.sent_view(),
            );
        }
        r
    }

    /// Change the addressing mode.
    pub fn change_mode(&mut self, mode: AddrMode) -> (r: Result<(), DisplayError>)
        ensures
            ran_driver(
                addr_mode_plan(mode),
                r,
                old(self).addr_mode_view(),
                old(self).sent_view(),
                final(self).addr_mode_view(),
                final(self).sent_view(),
            ),
            final(self).addr_mode_view() == if r is Ok {
                mode
            } else {
                old(self).addr_mode_view()
            },
            final(self).rotation_view() == old(self).rotation_view(),
    {
        let mut steps = command_steps(Command::AddressMode(mode));
        push_step(&mut steps, Step::AddrMode(mode));
        let r = self.run(&steps);
        proof {
            let c = command(Command::AddressMode(mode));
            lemma_no_mode_changes_one(c);
            assert(view_steps(steps@) =~= addr_mode_plan(mode));
            assert(addr_mode_plan(mode) =~= seq![c].push(StepView::AddrMode(mode)));
            lemma_ran_mode_change_last(
                seq![c],
                mode,
                r,
                old(self).addr_mode,
                old(self).sent_view(),
                self.addr_mode,
                self.sent_view(),
            );
        }
        r
    }

    /// Set the position in the framebuffer of the display where any sent data should be
    /// drawn. This method can be used for changing the affected area on the screen as well
    /// as (re-)setting the start point of the next `draw` call.
    pub fn set_draw_area(&mut self, start: (u8, u8), end: (u8, u8)) -> (r: Result<(), DisplayError>)
        requires
            1 <= end.0,
            1 <= end.1 <= 128,
            start.1 < 128,
        ensures
            ran_driver(
                area_plan(start, end),
                r,
                old(self).addr_mode_view(),
                old(self).sent_view(),
                final(self).addr_mode_view(),
                final(self).sent_view(),
            ),
            final(self).rotation_view() == old(self).rotation_view(),
            final(self).addr_mode_view() == old(self).addr_mode_view(),
    {
        let steps = self.set_draw_area_steps(start, end);
        proof {
            let p = view_steps(steps@);
            lemma_no_mode_changes_two(p[0], p[1]);
            assert(p =~= seq![p[0], p[1]]);
        }
        self.run_without_mode_changes(&steps)
    }

    /// Send the data to the display for drawing at the current position in the framebuffer
    /// and advance the position accordingly. Cf. `set_draw_area` to modify the affected area by
    /// this method.
    pub fn draw(&mut self, buffer: &[u8]) -> (r: Result<(), DisplayError>)
        ensures
            ran_driver(
                seq![StepView::Data(buffer@)],
                r,
                old(self).addr_mode_view(),
                old(self).sent_view(),
                final(self).addr_mode_view(),
                final(self).sent_view(),
            ),
            final(self).rotation_view() == old(self).rotation_view(),
            final(self).addr_mode_view() == old(self).addr_mode_view(),
    {
        let steps = data_steps(buffer);
        self.run_one(&steps)
    }

    /// Send the area from `upper_left` to `lower_right` of a buffer laid out in pages of
    /// `disp_width` bytes.
    pub fn bounded_draw(
        &mut self,
        buffer: &[u8],
        disp_width: usize,
        upper_left: (u8, u8),
        lower_right: (u8, u8),
    ) -> (r: Result<(), DisplayError>)
        requires
            chunks_drawable(buffer@.len() as int, disp_width as int, upper_left, lower_right),
        ensures
            ran_driver(
                chunks_plan(buffer@, disp_width as int, upper_left, lower_right),
                r,
                old(self).addr_mode_view(),
                old(self).sent_view(),
                final(self).addr_mode_view(),
                final(self).sent_view(),
            ),
            final(self).rotation_view() == old(self).rotation_view(),
            final(self).addr_mode_view() == old(self).addr_mode_view(),
    {
        let steps = chunk_steps(buffer, disp_width, upper_left, lower_right);
        self.run_without_mode_changes(&steps)
    }

    /// Set the display rotation
    pub fn set_rotation(&mut self, display_rotation: DisplayRotation) -> (r: Result<
        (),
        DisplayError,
    >)
        ensures
            ran_driver(
                rotation_plan(display_rotation),
                r,
                old(self).addr_mode_view(),
                old(self).sent_view(),
                final(self).addr_mode_view(),
                final(self).sent_view(),
            ),
            final(self).rotation_view() == display_rotation,
            final(self).addr_mode_view() == old(self).addr_mode_view(),
    {
        self.display_rotation = display_rotation;
        let steps = rotation_steps(display_rotation);
        proof {
            let p = view_steps(steps@);
            lemma_no_mode_changes_two(p[0], p[1]);
            assert(p =~= seq![p[0], p[1]]);
        }
        self.run_without_mode_changes(&steps)
    }

    /// Set the column address in the framebuffer of the display where any sent data should be
    /// drawn.
    pub fn set_column(&mut self, column: u8) -> (r: Result<(), DisplayError>)
        ensures
            ran_driver(
                seq![command(Command::ColStart(column))],
                r,
                old(self).addr_mode_view(),
                old(self).sent_view(),
                final(self).addr_mode_view(),
                final(self).sent_view(),
            ),
            final(self).rotation_view() == old(self).rotation_view(),
            final(self).addr_mode_view() == old(self).addr_mode_view(),
    {
        let steps = command_steps(Command::ColStart(column));
        self.run_one(&steps)
    }

    /// Set the page address (row 8px high) in the framebuffer of the display where any sent data
    /// should be drawn.
    pub fn set_row(&mut self, row: u8) -> (r: Result<(), DisplayError>)
        requires
            row < 128,
        ensures
            ran_driver(
                seq![command(Command::PageStart(Page::of_row(row)))],
                r,
                old(self).addr_mode_view(),
                old(self).sent_view(),
                final(self).addr_mode_view(),
                final(self).sent_view(),
            ),
            final(self).rotation_view() == old(self).rotation_view(),
            final(self).addr_mode_view() == old(self).addr_mode_view(),
    {
        let steps = command_steps(Command::PageStart(Page::from(row)));
        self.run_one(&steps)
    }

    /// Turn the display on or off. The display can be drawn to and retains all
    /// of its memory even while off.
    pub fn display_on(&mut self, on: bool) -> (r: Result<(), DisplayError>)
        ensures
            ran_driver(
                seq![command(Command::DisplayOn(on))],
                r,
                old(self).addr_mode_view(),
                old(self).sent_view(),
                final(self).addr_mode_view(),
                final(self).sent_view(),
            ),
            final(self).rotation_view() == old(self).rotation_view(),
            final(self).addr_mode_view() == old(self).addr_mode_view(),
    {
        let steps = command_steps(Command::DisplayOn(on));
        self.run_one(&steps)
    }

    /// Change the display brightness.
    pub fn set_brightness(&mut self, brightness: Brightness) -> (r: Result<(), DisplayError>)
        ensures
            ran_driver(
                brightness_plan(brightness),
                r,
                old(self).addr_mode_view(),
                old(self).sent_view(),
                final(self).addr_mode_view(),
                final(self).sent_view(),
            ),
            final(self).rotation_view() == old(self).rotation_view(),
            final(self).addr_mode_view() == old(self).addr_mode_view(),
    {
        let steps = brightness_steps(brightness);
        proof {
            let p = view_steps(steps@);
            lemma_no_mode_changes_two(p[0], p[1]);
            assert(p =~= seq![p[0], p[1]]);
        }
        self.run_without_mode_changes(&steps)
    }
}

/// Initialising in column mode starts as initialising a display in horizontal addressing
/// mode does, configures the rotation, then the size's COM pin wiring, contrast `0x8F`
/// (`0x81 0x8F`) and a pre-charge of 1 and 15 in phases 1 and 2 (`0xD9 0xF1`), and ends as
/// initialisation does, from the VCOMH level on.
pub proof fn lemma_column_mode_commands<SIZE: DisplaySize>(rotation: DisplayRotation)
    ensures
        column_mode_body::<SIZE>(rotation) == crate::init_head::<SIZE>(AddrMode::Horizontal)
            + rotation_plan(rotation) + seq![
            command(SIZE::com_pin_config_spec()),
            StepView::Commands(seq![0x81u8, 0x8Fu8]),
            StepView::Commands(seq![0xD9u8, 0xF1u8]),
        ] + crate::init_tail().skip(2),
{
    assert(Command::Contrast(0x8F).bytes() =~= seq![0x81u8, 0x8Fu8]);
    assert(Command::PreChargePeriod(0x1, 0xF).bytes() =~= seq![0xD9u8, 0xF1u8]);
    assert(column_mode_body::<SIZE>(rotation) =~= crate::init_head::<SIZE>(AddrMode::Horizontal)
        + rotation_plan(rotation) + seq![
        command(SIZE::com_pin_config_spec()),
        StepView::Commands(seq![0x81u8, 0x8Fu8]),
        StepView::Commands(seq![0xD9u8, 0xF1u8]),
    ] + crate::init_tail().skip(2));
}

/// Selecting an area for drawing through the display properties sends what the driver
/// sends for the same area in horizontal addressing mode: the column range, then the page
/// range.
pub proof fn lemma_area_is_draw_area(start: (u8, u8), end: (u8, u8))
    requires
        1 <= end.0,
        1 <= end.1 <= 128,
        start.1 < 128,
    ensures
        area_plan(start, end) == crate::draw_area_plan(AddrMode::Horizontal, start, end),
{
    assert(area_plan(start, end) =~= crate::draw_area_plan(AddrMode::Horizontal, start, end));
}

} // verus!
