//! Display size.

use vstd::prelude::*;

use crate::command::Command;
use crate::command_steps;
use crate::rotation::DisplayRotation;
use crate::interface::{
    command, lemma_no_mode_changes_one, lemma_no_mode_changes_two, no_mode_changes, only_commands,
    push_command, view_steps, Step, StepView,
};

verus! {

/// Maximum width supported by the display driver
pub const DRIVER_COLS: u8 = 128;

/// Maximum height supported by the display driver
pub const DRIVER_ROWS: u8 = 64;

/// Workaround trait, since `Default` is only implemented to arrays up to 32 of size
pub trait NewZeroed: Sized {
    /// Creates a new value with its memory set to zero
    fn new_zeroed() -> Self;
}

impl<const N: usize> NewZeroed for [u8; N] {
    /// An array of `N` zero bytes.
    fn new_zeroed() -> (r: Self)
        ensures
            r@ == Seq::new(N as nat, |i: int| 0u8),
    {
        let r: [u8; N] = vstd::array::array_fill_for_copy_types(0u8);
        assert(r@ =~= Seq::new(N as nat, |i: int| 0u8));
        r
    }
}

/// Display information.
///
/// This trait describes information related to a particular display.
/// This includes resolution, offset and framebuffer size.
pub trait DisplaySize {
    /// Width in pixels
    spec fn width_spec() -> u8;

    /// Height in pixels
    spec fn height_spec() -> u8;

    /// Horizontal offset in pixels
    spec fn offset_x_spec() -> u8;

    /// Vertical offset in pixels
    spec fn offset_y_spec() -> u8;

    /// COM pins hardware configuration
    spec fn com_pin_config_spec() -> Command;

    /// Commands of the resolution and model-dependent configuration
    spec fn configure_spec() -> Seq<StepView>;

    /// The display fits in the driver's memory, with whole pages of 8 rows and whole
    /// character cells of 8 x 8 pixels.
    proof fn lemma_geometry()
        ensures
            8 <= Self::width_spec(),
            8 <= Self::height_spec(),
            Self::width_spec() % 8 == 0,
            Self::height_spec() % 8 == 0,
            Self::width_spec() + Self::offset_x_spec() <= DRIVER_COLS,
            Self::height_spec() + Self::offset_y_spec() <= DRIVER_ROWS,
            no_mode_changes(Self::configure_spec()),
            only_commands(Self::configure_spec()),
    ;

    /// Width in pixels
    fn width() -> (r: u8)
        ensures
            r == Self::width_spec(),
    ;

    /// Height in pixels
    fn height() -> (r: u8)
        ensures
            r == Self::height_spec(),
    ;

    /// Horizontal offset in pixels
    fn offset_x() -> (r: u8)
        ensures
            r == Self::offset_x_spec(),
    ;

    /// Vertical offset in pixels
    fn offset_y() -> (r: u8)
        ensures
            r == Self::offset_y_spec(),
    ;

    /// COM pins hardware configuration
    fn com_pin_config() -> (r: Command)
        ensures
            r == Self::com_pin_config_spec(),
    ;

    /// The steps that send the resolution and model-dependent configuration to the display.
    ///
    /// See [`Command::ComPinConfig`]
    /// and [`Command::InternalIref`]
    /// for more information
    fn configure(&self) -> (r: Vec<Step>)
        ensures
            view_steps(r@) == Self::configure_spec(),
    ;
}

/// Size of the framebuffer of a display in bytes: one bit per pixel.
pub open spec fn buffer_len<SIZE: DisplaySize>() -> nat {
    (SIZE::width_spec() * SIZE::height_spec() / 8) as nat
}

/// Horizontal offset of the visible area in the driver's memory: counted from the other edge
/// when the segment order is flipped (`Rotate90`, `Rotate180`).
pub open spec fn offset_x_for<SIZE: DisplaySize>(rotation: DisplayRotation) -> int {
    if rotation is Rotate0 || rotation is Rotate270 {
        SIZE::offset_x_spec() as int
    } else {
        DRIVER_COLS - SIZE::width_spec() - SIZE::offset_x_spec()
    }
}

/// Horizontal offset of the visible area in the driver's memory under `rotation`.
pub fn visible_offset_x<SIZE: DisplaySize>(rotation: DisplayRotation) -> (r: u8)
    ensures
        r == offset_x_for::<SIZE>(rotation),
{
    proof {
        SIZE::lemma_geometry();
    }
    match rotation {
        DisplayRotation::Rotate0 | DisplayRotation::Rotate270 => SIZE::offset_x(),
        // If segment remapping is flipped, the offset counts from the other edge of the
        // display.
        DisplayRotation::Rotate180 | DisplayRotation::Rotate90 => DRIVER_COLS - SIZE::width()
            - SIZE::offset_x(),
    }
}

/// Size information for the common 128x64 variants
#[derive(Debug, Copy, Clone)]
pub struct DisplaySize128x64;

impl DisplaySize for DisplaySize128x64 {
    open spec fn width_spec() -> u8 {
        128
    }

    open spec fn height_spec() -> u8 {
        64
    }

    open spec fn offset_x_spec() -> u8 {
        0
    }

    open spec fn offset_y_spec() -> u8 {
        0
    }

    open spec fn com_pin_config_spec() -> Command {
        Command::ComPinConfig(true, false)
    }

    open spec fn configure_spec() -> Seq<StepView> {
        seq![command(Command::ComPinConfig(true, false))]
    }

    proof fn lemma_geometry() {
        lemma_no_mode_changes_one(command(Command::ComPinConfig(true, false)));
    }

    fn width() -> (r: u8) {
        128
    }

    fn height() -> (r: u8) {
        64
    }

    fn offset_x() -> (r: u8) {
        0
    }

    fn offset_y() -> (r: u8) {
        0
    }

    fn com_pin_config() -> (r: Command) {
        Command::ComPinConfig(true, false)
    }

    fn configure(&self) -> (r: Vec<Step>) {
        command_steps(Command::ComPinConfig(true, false))
    }
}

/// Size information for the common 128x32 variants
#[derive(Debug, Copy, Clone)]
pub struct DisplaySize128x32;

impl DisplaySize for DisplaySize128x32 {
    open spec fn width_spec() -> u8 {
        128
    }

    open spec fn height_spec() -> u8 {
        32
    }

    open spec fn offset_x_spec() -> u8 {
        0
    }

    open spec fn offset_y_spec() -> u8 {
        0
    }

    open spec fn com_pin_config_spec() -> Command {
        Command::ComPinConfig(false, false)
    }

    open spec fn configure_spec() -> Seq<StepView> {
        seq![command(Command::ComPinConfig(false, false))]
    }

    proof fn lemma_geometry() {
        lemma_no_mode_changes_one(command(Command::ComPinConfig(false, false)));
    }

    fn width() -> (r: u8) {
        128
    }

    fn height() -> (r: u8) {
        32
    }

    fn offset_x() -> (r: u8) {
        0
    }

    fn offset_y() -> (r: u8) {
        0
    }

    fn com_pin_config() -> (r: Command) {
        Command::ComPinConfig(false, false)
    }

    fn configure(&self) -> (r: Vec<Step>) {
        command_steps(Command::ComPinConfig(false, false))
    }
}

/// Size information for the common 96x16 variants
#[derive(Debug, Copy, Clone)]
pub struct DisplaySize96x16;

impl DisplaySize for DisplaySize96x16 {
    open spec fn width_spec() -> u8 {
        96
    }

    open spec fn height_spec() -> u8 {
        16
    }

    open spec fn offset_x_spec() -> u8 {
        0
    }

    open spec fn offset_y_spec() -> u8 {
        0
    }

    open spec fn com_pin_config_spec() -> Command {
        Command::ComPinConfig(false, false)
    }

    open spec fn configure_spec() -> Seq<StepView> {
        seq![command(Command::ComPinConfig(false, false))]
    }

    proof fn lemma_geometry() {
        lemma_no_mode_changes_one(command(Command::ComPinConfig(false, false)));
    }

    fn width() -> (r: u8) {
        96
    }

    fn height() -> (r: u8) {
        16
    }

    fn offset_x() -> (r: u8) {
        0
    }

    fn offset_y() -> (r: u8) {
        0
    }

    fn com_pin_config() -> (r: Command) {
        Command::ComPinConfig(false, false)
    }

    fn configure(&self) -> (r: Vec<Step>) {
        command_steps(Command::ComPinConfig(false, false))
    }
}

/// Size information for the common 72x40 variants
#[derive(Debug, Copy, Clone)]
pub struct DisplaySize72x40;

impl DisplaySize for DisplaySize72x40 {
    open spec fn width_spec() -> u8 {
        72
    }

    open spec fn height_spec() -> u8 {
        40
    }

    open spec fn offset_x_spec() -> u8 {
        28
    }

    open spec fn offset_y_spec() -> u8 {
        0
    }

    open spec fn com_pin_config_spec() -> Command {
        Command::ComPinConfig(true, false)
    }

    open spec fn configure_spec() -> Seq<StepView> {
        seq![
            command(Command::ComPinConfig(true, false)),
            command(Command::InternalIref(true, true)),
        ]
    }

    proof fn lemma_geometry() {
        lemma_no_mode_changes_two(
            command(Command::ComPinConfig(true, false)),
            command(Command::InternalIref(true, true)),
        );
    }

    fn width() -> (r: u8) {
        72
    }

    fn height() -> (r: u8) {
        40
    }

    fn offset_x() -> (r: u8) {
        28
    }

    fn offset_y() -> (r: u8) {
        0
    }

    fn com_pin_config() -> (r: Command) {
        Command::ComPinConfig(true, false)
    }

    fn configure(&self) -> (r: Vec<Step>) {
        let mut steps: Vec<Step> = Vec::new();
        push_command(&mut steps, Command::ComPinConfig(true, false));
        push_command(&mut steps, Command::InternalIref(true, true));
        assert(view_steps(steps@) =~= Self::configure_spec());
        steps
    }
}

/// Size information for the common 64x48 variants
#[derive(Debug, Copy, Clone)]
pub struct DisplaySize64x48;

impl DisplaySize for DisplaySize64x48 {
    open spec fn width_spec() -> u8 {
        64
    }

    open spec fn height_spec() -> u8 {
        48
    }

    open spec fn offset_x_spec() -> u8 {
        32
    }

    open spec fn offset_y_spec() -> u8 {
        0
    }

    open spec fn com_pin_config_spec() -> Command {
        Command::ComPinConfig(true, false)
    }

    open spec fn configure_spec() -> Seq<StepView> {
        seq![command(Command::ComPinConfig(true, false))]
    }

    proof fn lemma_geometry() {
        lemma_no_mode_changes_one(command(Command::ComPinConfig(true, false)));
    }

    fn width() -> (r: u8) {
        64
    }

    fn height() -> (r: u8) {
        48
    }

    fn offset_x() -> (r: u8) {
        32
    }

    fn offset_y() -> (r: u8) {
        0
    }

    fn com_pin_config() -> (r: Command) {
        Command::ComPinConfig(true, false)
    }

    fn configure(&self) -> (r: Vec<Step>) {
        command_steps(Command::ComPinConfig(true, false))
    }
}

/// Size information for the common 64x32 variants
#[derive(Debug, Copy, Clone)]
pub struct DisplaySize64x32;

impl DisplaySize for DisplaySize64x32 {
    open spec fn width_spec() -> u8 {
        64
    }

    open spec fn height_spec() -> u8 {
        32
    }

    open spec fn offset_x_spec() -> u8 {
        32
    }

    open spec fn offset_y_spec() -> u8 {
        0
    }

    open spec fn com_pin_config_spec() -> Command {
        Command::ComPinConfig(true, false)
    }

    open spec fn configure_spec() -> Seq<StepView> {
        seq![command(Command::ComPinConfig(true, false))]
    }

    proof fn lemma_geometry() {
        lemma_no_mode_changes_one(command(Command::ComPinConfig(true, false)));
    }

    fn width() -> (r: u8) {
        64
    }

    fn height() -> (r: u8) {
        32
    }

    fn offset_x() -> (r: u8) {
        32
    }

    fn offset_y() -> (r: u8) {
        0
    }

    fn com_pin_config() -> (r: Command) {
        Command::ComPinConfig(true, false)
    }

    fn configure(&self) -> (r: Vec<Step>) {
        command_steps(Command::ComPinConfig(true, false))
    }
}

/// The sizes as their panels are built: width, height and offset of the visible area in the
/// driver's memory, and the configuration sent at initialisation. The 128x32 and 96x16 panels
/// wire their COM pins sequentially (`0xDA 0x02`), the others alternately (`0xDA 0x12`), and
/// the 72x40 panel also selects the internal current reference (`0xAD 0x30`). Every size but
/// the 72x40 sends its COM pin configuration and nothing else.
pub proof fn lemma_sizes()
    ensures
        DisplaySize128x64::width_spec() == 128,
        DisplaySize128x64::height_spec() == 64,
        DisplaySize128x64::offset_x_spec() == 0,
        DisplaySize128x64::offset_y_spec() == 0,
        DisplaySize128x64::configure_spec() == seq![StepView::Commands(seq![0xDAu8, 0x12u8])],
        DisplaySize128x32::width_spec() == 128,
        DisplaySize128x32::height_spec() == 32,
        DisplaySize128x32::offset_x_spec() == 0,
        DisplaySize128x32::offset_y_spec() == 0,
        DisplaySize128x32::configure_spec() == seq![StepView::Commands(seq![0xDAu8, 0x02u8])],
        DisplaySize96x16::width_spec() == 96,
        DisplaySize96x16::height_spec() == 16,
        DisplaySize96x16::offset_x_spec() == 0,
        DisplaySize96x16::offset_y_spec() == 0,
        DisplaySize96x16::configure_spec() == seq![StepView::Commands(seq![0xDAu8, 0x02u8])],
        DisplaySize72x40::width_spec() == 72,
        DisplaySize72x40::height_spec() == 40,
        DisplaySize72x40::offset_x_spec() == 28,
        DisplaySize72x40::offset_y_spec() == 0,
        DisplaySize72x40::configure_spec() == seq![StepView::Commands(seq![0xDAu8, 0x12u8]), StepView::Commands(seq![0xADu8, 0x30u8])],
        DisplaySize64x48::width_spec() == 64,
        DisplaySize64x48::height_spec() == 48,
        DisplaySize64x48::offset_x_spec() == 32,
        DisplaySize64x48::offset_y_spec() == 0,
        DisplaySize64x48::configure_spec() == seq![StepView::Commands(seq![0xDAu8, 0x12u8])],
        DisplaySize64x32::width_spec() == 64,
        DisplaySize64x32::height_spec() == 32,
        DisplaySize64x32::offset_x_spec() == 32,
        DisplaySize64x32::offset_y_spec() == 0,
        DisplaySize64x32::configure_spec() == seq![StepView::Commands(seq![0xDAu8, 0x12u8])],
        DisplaySize128x64::configure_spec() == seq![command(DisplaySize128x64::com_pin_config_spec())],
        DisplaySize128x32::configure_spec() == seq![command(DisplaySize128x32::com_pin_config_spec())],
        DisplaySize96x16::configure_spec() == seq![command(DisplaySize96x16::com_pin_config_spec())],
        DisplaySize64x48::configure_spec() == seq![command(DisplaySize64x48::com_pin_config_spec())],
        DisplaySize64x32::configure_spec() == seq![command(DisplaySize64x32::com_pin_config_spec())],
        DisplaySize72x40::configure_spec()[0] == command(DisplaySize72x40::com_pin_config_spec()),
{
    let a = command(Command::ComPinConfig(true, false));
    let b = command(Command::ComPinConfig(false, false));
    let i = command(Command::InternalIref(true, true));
    assert(a == StepView::Commands(seq![0xDAu8, 0x12u8])) by {
        assert(Command::ComPinConfig(true, false).bytes() =~= seq![0xDAu8, 0x12u8]);
    }
    assert(b == StepView::Commands(seq![0xDAu8, 0x02u8])) by {
        assert(Command::ComPinConfig(false, false).bytes() =~= seq![0xDAu8, 0x02u8]);
    }
    assert(i == StepView::Commands(seq![0xADu8, 0x30u8])) by {
        assert(Command::InternalIref(true, true).bytes() =~= seq![0xADu8, 0x30u8]);
    }
}

} // verus!
