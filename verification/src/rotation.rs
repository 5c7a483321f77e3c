//! Display rotation.

use display_interface::DisplayError;
use vstd::prelude::*;

use crate::command::Command;
use crate::interface::{
    command, push_command, send_steps, sent_through, view_steps, DisplayInterface, Step, StepView,
};

verus! {

/// Display rotation values
#[derive(Copy, Clone, Debug, PartialEq, Eq, Structural)]
pub enum DisplayRotation {
    /// No image rotation
    Rotate0,
    /// Rotate the image 90º clockwise
    Rotate90,
    /// Rotate the image 180º clockwise
    Rotate180,
    /// Rotate the image 270º clockwise
    Rotate270,
}

impl DisplayRotation {
    /// The image is turned by a quarter turn, so the display's width and height trade places.
    pub open spec fn is_sideways(self) -> bool {
        self is Rotate90 || self is Rotate270
    }

    /// Is this `Rotate0`?
    pub fn is_0(self) -> (r: bool)
        ensures
            r == (self is Rotate0),
    {
        self == DisplayRotation::Rotate0
    }

    /// Is this `Rotate90`?
    pub fn is_90(self) -> (r: bool)
        ensures
            r == (self is Rotate90),
    {
        self == DisplayRotation::Rotate90
    }

    /// Is this `Rotate180`?
    pub fn is_180(self) -> (r: bool)
        ensures
            r == (self is Rotate180),
    {
        self == DisplayRotation::Rotate180
    }

    /// Is this `Rotate270`?
    pub fn is_270(self) -> (r: bool)
        ensures
            r == (self is Rotate270),
    {
        self == DisplayRotation::Rotate270
    }
}

/// Whether the segment (column) order is reversed for a rotation.
pub open spec fn segment_remap(rot: DisplayRotation) -> bool {
    rot is Rotate0 || rot is Rotate270
}

/// Whether the COM (row) scan direction is reversed for a rotation.
pub open spec fn reverse_com_dir(rot: DisplayRotation) -> bool {
    rot is Rotate0 || rot is Rotate90
}

/// The steps that configure the display for a rotation: segment remap, then COM scan
/// direction.
pub open spec fn rotation_plan(rot: DisplayRotation) -> Seq<StepView> {
    seq![
        command(Command::SegmentRemap(segment_remap(rot))),
        command(Command::ReverseComDir(reverse_com_dir(rot))),
    ]
}

/// The steps that configure the display for a rotation, mirrored: the segment order is
/// flipped for `Rotate0` and `Rotate180`, the COM scan direction for `Rotate90` and
/// `Rotate270`.
pub open spec fn mirror_plan(rot: DisplayRotation) -> Seq<StepView> {
    seq![
        command(Command::SegmentRemap(rot is Rotate180 || rot is Rotate270)),
        command(Command::ReverseComDir(rot is Rotate0 || rot is Rotate270)),
    ]
}

/// Coordinates `(x, y)` in the display's own orientation: swapped when the image is turned
/// sideways.
pub open spec fn transform_spec(rot: DisplayRotation, x: u8, y: u8) -> (u8, u8) {
    if rot.is_sideways() {
        (y, x)
    } else {
        (x, y)
    }
}

/// The steps that configure the display for `rot`.
pub fn rotation_steps(rot: DisplayRotation) -> (r: Vec<Step>)
    ensures
        view_steps(r@) == rotation_plan(rot),
{
    let mut steps: Vec<Step> = Vec::new();
    let (remap, reverse) = match rot {
        DisplayRotation::Rotate0 => (true, true),
        DisplayRotation::Rotate90 => (false, true),
        DisplayRotation::Rotate180 => (false, false),
        DisplayRotation::Rotate270 => (true, false),
    };
    push_command(&mut steps, Command::SegmentRemap(remap));
    push_command(&mut steps, Command::ReverseComDir(reverse));
    assert(view_steps(steps@) =~= rotation_plan(rot));
    steps
}

/// The steps that configure the display for `rot`, mirrored.
pub fn mirror_steps(rot: DisplayRotation) -> (r: Vec<Step>)
    ensures
        view_steps(r@) == mirror_plan(rot),
{
    let mut steps: Vec<Step> = Vec::new();
    let (remap, reverse) = match rot {
        DisplayRotation::Rotate0 => (false, true),
        DisplayRotation::Rotate90 => (false, false),
        DisplayRotation::Rotate180 => (true, false),
        DisplayRotation::Rotate270 => (true, true),
    };
    push_command(&mut steps, Command::SegmentRemap(remap));
    push_command(&mut steps, Command::ReverseComDir(reverse));
    assert(view_steps(steps@) =~= mirror_plan(rot));
    steps
}

/// Coordinates `(x, y)` in the display's own orientation.
pub fn transform(rot: DisplayRotation, x: u8, y: u8) -> (r: (u8, u8))
    ensures
        r == transform_spec(rot, x, y),
{
    match rot {
        DisplayRotation::Rotate0 | DisplayRotation::Rotate180 => (x, y),
        DisplayRotation::Rotate90 | DisplayRotation::Rotate270 => (y, x),
    }
}

/// Mirroring flips exactly one axis of the rotated image: compared with the plain
/// configuration of the rotation, the segment order is reversed for `Rotate0` and
/// `Rotate180` and the COM scan direction for `Rotate90` and `Rotate270`; the other
/// setting stays.
pub proof fn lemma_mirror_flips_one_axis(rot: DisplayRotation)
    ensures
        mirror_plan(rot) == if rot.is_sideways() {
            seq![
                command(Command::SegmentRemap(segment_remap(rot))),
                command(Command::ReverseComDir(!reverse_com_dir(rot))),
            ]
        } else {
            seq![
                command(Command::SegmentRemap(!segment_remap(rot))),
                command(Command::ReverseComDir(reverse_com_dir(rot))),
            ]
        },
{
}

/// The rotations as the panel is driven: unrotated, both the segment order and the COM scan
/// are reversed (`0xA1`, `0xC8`); a half turn undoes both (`0xA0`, `0xC0`); a quarter turn
/// (`Rotate90`) keeps the COM scan reversed and the segments in order (`0xA0`, `0xC8`), and
/// three quarters (`Rotate270`) is its half turn (`0xA1`, `0xC0`). Only the quarter turns
/// trade the display's coordinates.
pub proof fn lemma_rotation_commands(x: u8, y: u8)
    ensures
        rotation_plan(DisplayRotation::Rotate0) == seq![
            StepView::Commands(seq![0xA1u8]),
            StepView::Commands(seq![0xC8u8]),
        ],
        rotation_plan(DisplayRotation::Rotate90) == seq![
            StepView::Commands(seq![0xA0u8]),
            StepView::Commands(seq![0xC8u8]),
        ],
        rotation_plan(DisplayRotation::Rotate180) == seq![
            StepView::Commands(seq![0xA0u8]),
            StepView::Commands(seq![0xC0u8]),
        ],
        rotation_plan(DisplayRotation::Rotate270) == seq![
            StepView::Commands(seq![0xA1u8]),
            StepView::Commands(seq![0xC0u8]),
        ],
        transform_spec(DisplayRotation::Rotate0, x, y) == (x, y),
        transform_spec(DisplayRotation::Rotate180, x, y) == (x, y),
        transform_spec(DisplayRotation::Rotate90, x, y) == (y, x),
        transform_spec(DisplayRotation::Rotate270, x, y) == (y, x),
{
    crate::command::lemma_switch_commands();
}

/// Swapping coordinates twice gives them back.
pub proof fn lemma_transform_involutive(rot: DisplayRotation, x: u8, y: u8)
    ensures
        ({
            let (a, b) = transform_spec(rot, x, y);
            transform_spec(rot, a, b) == (x, y)
        }),
{
}

/// A valid display rotation value
pub trait DisplayRotationType {
    /// The rotation this value stands for.
    spec fn rotation_spec(&self) -> DisplayRotation;

    /// Send rotation related configuration
    fn configure<I: DisplayInterface>(&self, iface: &mut I) -> (r: Result<(), DisplayError>)
        ensures
            sent_through(rotation_plan(self.rotation_spec()), r, old(iface).sent(), final(iface).sent()),
    ;

    /// Flip coordinates if necessary
    fn transform(&self, x: u8, y: u8) -> (r: (u8, u8))
        ensures
            r == transform_spec(self.rotation_spec(), x, y),
    ;
}

/// Implementors of this trait support changing display rotation in runtime.
pub trait Rotatable {
    /// Change display rotation
    fn set_rotation(&mut self, rotation: DisplayRotation) -> Result<(), DisplayError>;

    /// Return the current rotation
    fn get_rotation(&self) -> DisplayRotation;
}

/// Using this rotation type enables changing the display rotation in runtime.
#[derive(Copy, Clone, Debug, PartialEq, Eq, Structural)]
pub struct DynamicRotation {
    rotation: DisplayRotation,
}

impl DynamicRotation {
    /// The current rotation.
    pub closed spec fn rotation_view(self) -> DisplayRotation {
        self.rotation
    }

    /// Create a DynamicRotation object from the given rotation value
    pub fn with_rotation(rotation: DisplayRotation) -> (r: Self)
        ensures
            r.rotation_view() == rotation,
    {
        Self { rotation }
    }

    /// Change display rotation: the display is reconfigured only when the rotation changes.
    pub fn set_rotation<I: DisplayInterface>(&mut self, rotation: DisplayRotation, iface: &mut I) -> (r:
        Result<(), DisplayError>)
        ensures
            final(self).rotation_view() == rotation,
            old(self).rotation_view() != rotation ==> sent_through(
                rotation_plan(rotation),
                r,
                old(iface).sent(),
                final(iface).sent(),
            ),
            old(self).rotation_view() == rotation ==> r is Ok && final(iface).sent() == old(
                iface,
            ).sent(),
    {
        let previous = self.rotation;
        self.rotation = rotation;
        if previous != rotation {
            self.configure(iface)
        } else {
            Ok(())
        }
    }

    /// Return the current rotation
    pub fn get_rotation(&self) -> (r: DisplayRotation)
        ensures
            r == self.rotation_view(),
    {
        self.rotation
    }
}

impl Default for DynamicRotation {
    /// No rotation.
    fn default() -> (r: Self)
        ensures
            r.rotation_view() == DisplayRotation::Rotate0,
    {
        Self::with_rotation(DisplayRotation::Rotate0)
    }
}

impl DisplayRotationType for DynamicRotation {
    open spec fn rotation_spec(&self) -> DisplayRotation {
        self.rotation_view()
    }

    fn configure<I: DisplayInterface>(&self, iface: &mut I) -> (r: Result<(), DisplayError>) {
        let steps = rotation_steps(self.rotation);
        send_steps(iface, &steps)
    }

    fn transform(&self, x: u8, y: u8) -> (r: (u8, u8)) {
        transform(self.rotation, x, y)
    }
}

/// No rotation
#[derive(Copy, Clone, Debug)]
pub struct Rotate0;

impl DisplayRotationType for Rotate0 {
    open spec fn rotation_spec(&self) -> DisplayRotation {
        DisplayRotation::Rotate0
    }

    fn configure<I: DisplayInterface>(&self, iface: &mut I) -> (r: Result<(), DisplayError>) {
        let steps = rotation_steps(DisplayRotation::Rotate0);
        send_steps(iface, &steps)
    }

    fn transform(&self, x: u8, y: u8) -> (r: (u8, u8)) {
        (x, y)
    }
}

/// 90º CW rotation
#[derive(Copy, Clone, Debug)]
pub struct Rotate90;

impl DisplayRotationType for Rotate90 {
    open spec fn rotation_spec(&self) -> DisplayRotation {
        DisplayRotation::Rotate90
    }

    fn configure<I: DisplayInterface>(&self, iface: &mut I) -> (r: Result<(), DisplayError>) {
        let steps = rotation_steps(DisplayRotation::Rotate90);
        send_steps(iface, &steps)
    }

    fn transform(&self, x: u8, y: u8) -> (r: (u8, u8)) {
        (y, x)
    }
}

/// 180º rotation
#[derive(Copy, Clone, Debug)]
pub struct Rotate180;

impl DisplayRotationType for Rotate180 {
    open spec fn rotation_spec(&self) -> DisplayRotation {
        DisplayRotation::Rotate180
    }

    fn configure<I: DisplayInterface>(&self, iface: &mut I) -> (r: Result<(), DisplayError>) {
        let steps = rotation_steps(DisplayRotation::Rotate180);
        send_steps(iface, &steps)
    }

    fn transform(&self, x: u8, y: u8) -> (r: (u8, u8)) {
        (x, y)
    }
}

/// 270º CW rotation
#[derive(Copy, Clone, Debug)]
pub struct Rotate270;

impl DisplayRotationType for Rotate270 {
    open spec fn rotation_spec(&self) -> DisplayRotation {
        DisplayRotation::Rotate270
    }

    fn configure<I: DisplayInterface>(&self, iface: &mut I) -> (r: Result<(), DisplayError>) {
        let steps = rotation_steps(DisplayRotation::Rotate270);
        send_steps(iface, &steps)
    }

    fn transform(&self, x: u8, y: u8) -> (r: (u8, u8)) {
        (y, x)
    }
}

} // verus!
