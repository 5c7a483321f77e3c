//! Buffered display mode over [`DisplayProperties`], for drawing with the
//! [embedded_graphics](https://crates.io/crates/embedded_graphics) crate.
//!
//! The pixel buffer and the bounding box of changed pixels are kept as in
//! [`BufferedGraphicsMode`]; pixels are addressed after the display rotation is applied, and
//! a flush sends the changed area in column mode.

use display_interface::DisplayError;
use vstd::prelude::*;

use crate::brightness::Brightness;
use crate::command::{AddrMode, Command};
use crate::interface::{
    append_steps, chunk_steps, chunks_drawable, chunks_drawable_check, chunks_plan, command,
    filled, filled_vec, lemma_no_mode_changes_concat, lemma_no_mode_changes_two,
    no_mode_changes, ran_driver, ran_to, view_steps, DisplayInterface, handed_over, Handed, Step, StepView,
};
use crate::mode::buffered_graphics::{
    bbox_empty, lemma_flush_chunks, lemma_page_end, lemma_pixel_in_buffer, max_u8, min_u8, no_bbox,
    with_bit, BufferedGraphicsMode,
};
use crate::mode::displaymode::DisplayModeTrait;
use crate::properties::{area_plan, area_steps, column_mode_plan, DisplayProperties};
use crate::rotation::{rotation_plan, transform, transform_spec, DisplayRotation, Rotatable};
use crate::{brightness_plan, rotated_dims};
use crate::size::{buffer_len, DisplaySize};

verus! {

/// The coordinates `(x, y)`, taken modulo 256, as the display memory sees them under
/// `rotation`.
pub open spec fn memory_coords(rotation: DisplayRotation, x: u32, y: u32) -> (u8, u8) {
    transform_spec(rotation, x as u8, y as u8)
}

/// Graphics mode handler
pub struct GraphicsMode<DI, DSIZE: DisplaySize> {
    pub(crate) properties: DisplayProperties<DI, DSIZE>,
    pub(crate) frame: BufferedGraphicsMode<DSIZE>,
}

impl<DI, DSIZE: DisplaySize> GraphicsMode<DI, DSIZE> {
    /// The display properties.
    pub open(crate) spec fn properties_view(&self) -> DisplayProperties<DI, DSIZE> {
        self.properties
    }

    /// The pixel buffer: pages of 8 rows, one byte per column of each page.
    pub open(crate) spec fn buffer_view(&self) -> Seq<u8> {
        self.frame.buffer_view()
    }

    /// The bounding box `(min_x, max_x, min_y, max_y)` of the pixels changed since the last
    /// flush, in display memory coordinates.
    pub open(crate) spec fn bbox(&self) -> (u8, u8, u8, u8) {
        self.frame.bbox()
    }

    /// The display rotation.
    pub open(crate) spec fn rotation_view(&self) -> DisplayRotation {
        self.properties.display_rotation
    }

    /// The addressing mode the display was last set to.
    pub open(crate) spec fn addr_mode_view(&self) -> AddrMode {
        self.properties.addr_mode
    }

    /// The corners of the area that a flush sends, in display memory coordinates: the
    /// bounding box seen through the rotation, one past it along the columns and to the end
    /// of its page along the rows, within the display.
    pub open(crate) spec fn flush_corners(&self) -> ((u8, u8), (u8, u8)) {
        let b = self.bbox();
        let rot = self.rotation_view();
        let dims = rotated_dims(rot, DSIZE::width_spec(), DSIZE::height_spec());
        let lo = transform_spec(rot, b.0, b.2);
        let hi = transform_spec(rot, b.1, b.3);
        (lo, (min_u8((hi.0 + 1) as u8, dims.0), min_u8(hi.1 | 7, dims.1)))
    }

    /// A flush neither overflows nor sends an area outside the buffer or the driver's
    /// memory.
    pub open(crate) spec fn flush_ok(&self) -> bool {
        let b = self.bbox();
        let rot = self.rotation_view();
        let (lo, hi) = self.flush_corners();
        let hi_raw = transform_spec(rot, b.1, b.3);
        let ox = DSIZE::offset_x_spec();
        let oy = DSIZE::offset_y_spec();
        let start = transform_spec(rot, (lo.0 + ox) as u8, (lo.1 + oy) as u8);
        let end = transform_spec(rot, (hi.0 + ox) as u8, (hi.1 + oy) as u8);
        !bbox_empty(b) ==> {
            &&& hi_raw.0 < 255
            &&& lo.0 + ox <= 255
            &&& lo.1 + oy <= 255
            &&& hi.0 + ox <= 255
            &&& hi.1 + oy <= 255
            &&& 1 <= end.0
            &&& 1 <= end.1 <= 128
            &&& start.1 < 128
            &&& chunks_drawable(
                self.buffer_view().len() as int,
                DSIZE::width_spec() as int,
                transform_spec(rot, lo.0, lo.1),
                transform_spec(rot, hi.0, hi.1),
            )
        }
    }

    /// The steps of a flush: nothing if no pixel changed, else the changed area is selected
    /// in the display's memory and its bytes are sent page by page.
    pub open(crate) spec fn flush_plan(&self) -> Seq<StepView> {
        let rot = self.rotation_view();
        let (lo, hi) = self.flush_corners();
        let ox = DSIZE::offset_x_spec();
        let oy = DSIZE::offset_y_spec();
        if bbox_empty(self.bbox()) {
            Seq::empty()
        } else {
            area_plan(
                transform_spec(rot, (lo.0 + ox) as u8, (lo.1 + oy) as u8),
                transform_spec(rot, (hi.0 + ox) as u8, (hi.1 + oy) as u8),
            ) + chunks_plan(
                self.buffer_view(),
                DSIZE::width_spec() as int,
                transform_spec(rot, lo.0, lo.1),
                transform_spec(rot, hi.0, hi.1),
            )
        }
    }

    /// Whether a flush of the current bounding box neither overflows nor leaves the buffer
    /// or the driver's memory, so that [`GraphicsMode::flush`] may be called.
    pub fn can_flush(&self) -> (r: bool)
        ensures
            r == self.flush_ok(),
    {
        proof {
            DSIZE::lemma_geometry();
        }
        let (b0, b1, b2, b3) = (self.frame.min_x, self.frame.max_x, self.frame.min_y, self.frame.max_y);
        if b1 < b0 || b3 < b2 {
            return true;
        }
        let (lo0, lo1) = self.properties.transform(b0, b2);
        let (h0, h1) = self.properties.transform(b1, b3);
        if h0 == 255 {
            return false;
        }
        let (width, height) = self.get_dimensions();
        let hi0 = if h0 + 1 < width {
            h0 + 1
        } else {
            width
        };
        let hi1 = if (h1 | 7) < height {
            h1 | 7
        } else {
            height
        };
        let ox = DSIZE::offset_x() as u16;
        let oy = DSIZE::offset_y() as u16;
        if lo0 as u16 + ox > 255 || lo1 as u16 + oy > 255 || hi0 as u16 + ox > 255 || hi1 as u16
            + oy > 255 {
            return false;
        }
        let start = self.properties.transform((lo0 as u16 + ox) as u8, (lo1 as u16 + oy) as u8);
        let end = self.properties.transform((hi0 as u16 + ox) as u8, (hi1 as u16 + oy) as u8);
        1 <= end.0 && 1 <= end.1 && end.1 <= 128 && start.1 < 128 && chunks_drawable_check(
            self.frame.buffer.len(),
            DSIZE::width() as usize,
            self.properties.transform(lo0, lo1),
            self.properties.transform(hi0, hi1),
        )
    }

    /// Clear the display buffer. You need to call `disp.flush()` for any effect on the screen
    pub fn clear(&mut self)
        ensures
            final(self).buffer_view() == filled(buffer_len::<DSIZE>(), 0),
            // Let flush() clip these
            final(self).bbox() == (0u8, 254u8, 0u8, 254u8),
            final(self).properties_view() == old(self).properties_view(),
    {
        proof {
            use_type_invariant(&self.frame);
        }
        let len = self.frame.buffer.len();
        self.frame.buffer = filled_vec(len, 0);
        self.frame.min_x = 0;
        self.frame.max_x = 254;
        self.frame.min_y = 0;
        self.frame.max_y = 254;
    }

    /// Turn a pixel on or off. A non-zero `value` is treated as on, `0` as off. If the X and Y
    /// coordinates are out of the bounds of the display, this method call is a noop.
    ///
    /// Otherwise the coordinates are seen through the rotation; the pixel's bit is set and the
    /// bounding box grows to hold the pixel.
    pub fn set_pixel(&mut self, x: u32, y: u32, value: u8)
        ensures
            final(self).properties_view() == old(self).properties_view(),
            ({
                let dims = rotated_dims(
                    old(self).rotation_view(),
                    DSIZE::width_spec(),
                    DSIZE::height_spec(),
                );
                let (mx, my) = memory_coords(old(self).rotation_view(), x, y);
                let idx = (my / 8) * DSIZE::width_spec() + mx;
                let buf = old(self).buffer_view();
                let b = old(self).bbox();
                if x < dims.0 && y < dims.1 {
                    &&& idx < buf.len()
                    &&& final(self).buffer_view() == buf.update(
                        idx,
                        with_bit(buf[idx], my % 8, value != 0),
                    )
                    &&& final(self).bbox() == (
                        min_u8(b.0, mx),
                        max_u8(b.1, mx),
                        min_u8(b.2, my),
                        max_u8(b.3, my),
                    )
                } else {
                    &&& final(self).buffer_view() == buf
                    &&& final(self).bbox() == b
                }
            }),
    {
        proof {
            use_type_invariant(&self.frame);
            DSIZE::lemma_geometry();
        }
        let (w, h) = self.properties.get_dimensions();
        if x >= w as u32 || y >= h as u32 {
            return;
        }
        proof {
            lemma_pixel_in_buffer::<DSIZE>(self.properties.rotation_view(), x, y);
        }
        let (x, y) = self.properties.transform(x as u8, y as u8);
        assert((y as usize / 8) * (DSIZE::width_spec() as usize) <= 31 * 128) by (nonlinear_arith)
            requires
                y as usize / 8 <= 31,
                DSIZE::width_spec() <= 128,
        ;
        let idx = (y as usize) / 8 * DSIZE::width() as usize + (x as usize);
        let bit = y % 8;
        // Keep track of max and min values
        self.frame.min_x = if x < self.frame.min_x {
            x
        } else {
            self.frame.min_x
        };
        self.frame.max_x = if self.frame.max_x < x {
            x
        } else {
            self.frame.max_x
        };
        self.frame.min_y = if y < self.frame.min_y {
            y
        } else {
            self.frame.min_y
        };
        self.frame.max_y = if self.frame.max_y < y {
            y
        } else {
            self.frame.max_y
        };
        // Set pixel value in byte
        let v: u8 = if value != 0 {
            1
        } else {
            0
        };
        let byte = self.frame.buffer[idx];
        self.frame.buffer[idx] = byte & !(1u8 << bit) | (v << bit);
    }

    /// Draw a pixel given in signed coordinates, as a drawing target does: pixels outside the
    /// display are skipped, others go to [`GraphicsMode::set_pixel`].
    pub fn draw_pixel(&mut self, x: i32, y: i32, value: u8)
        ensures
            final(self).properties_view() == old(self).properties_view(),
            ({
                let dims = rotated_dims(
                    old(self).rotation_view(),
                    DSIZE::width_spec(),
                    DSIZE::height_spec(),
                );
                let (mx, my) = memory_coords(old(self).rotation_view(), x as u32, y as u32);
                let idx = (my / 8) * DSIZE::width_spec() + mx;
                let buf = old(self).buffer_view();
                let b = old(self).bbox();
                if 0 <= x < dims.0 && 0 <= y < dims.1 {
                    &&& idx < buf.len()
                    &&& final(self).buffer_view() == buf.update(
                        idx,
                        with_bit(buf[idx], my % 8, value != 0),
                    )
                    &&& final(self).bbox() == (
                        min_u8(b.0, mx),
                        max_u8(b.1, mx),
                        min_u8(b.2, my),
                        max_u8(b.3, my),
                    )
                } else {
                    &&& final(self).buffer_view() == buf
                    &&& final(self).bbox() == b
                }
            }),
    {
        // Guard against negative values. All positive i32 values can be represented in the
        // `u32`s that `set_pixel()` accepts.
        if x < 0 || y < 0 {
            return ;
        }
        self.set_pixel(x as u32, y as u32, value);
    }

    /// Get display dimensions, taking into account the current rotation of the display
    pub fn get_dimensions(&self) -> (r: (u8, u8))
        ensures
            r == rotated_dims(self.rotation_view(), DSIZE::width_spec(), DSIZE::height_spec()),
    {
        self.properties.get_dimensions()
    }

    /// The steps of a flush of the current bounding box.
    pub fn flush_steps(&self) -> (r: Vec<Step>)
        requires
            self.flush_ok(),
        ensures
            view_steps(r@) == self.flush_plan(),
    {
        proof {
            use_type_invariant(&self.frame);
        }
        // Nothing to do if no pixels have changed since the last update
        if self.frame.max_x < self.frame.min_x || self.frame.max_y < self.frame.min_y {
            let r: Vec<Step> = Vec::new();
            assert(view_steps(r@) =~= Seq::<StepView>::empty());
            return r;
        }
        let (width, height) = self.get_dimensions();
        // Determine which bytes need to be sent
        let (disp_min_x, disp_min_y) = self.properties.transform(self.frame.min_x, self.frame.min_y);
        let (disp_max_x, disp_max_y) = self.properties.transform(self.frame.max_x, self.frame.max_y);
        let a = disp_max_x + 1;
        let b = disp_max_y | 7;
        let (disp_max_x, disp_max_y) = (if a < width {
            a
        } else {
            width
        }, if b < height {
            b
        } else {
            height
        });
        let ox = DSIZE::offset_x();
        let oy = DSIZE::offset_y();
        // Tell the display to update only the part that has changed
        let mut steps = area_steps(
            self.properties.transform(disp_min_x + ox, disp_min_y + oy),
            self.properties.transform(disp_max_x + ox, disp_max_y + oy),
        );
        append_steps(
            &mut steps,
            chunk_steps(
                self.frame.buffer.as_slice(),
                DSIZE::width() as usize,
                self.properties.transform(disp_min_x, disp_min_y),
                self.properties.transform(disp_max_x, disp_max_y),
            ),
        );
        steps
    }
}

/// The bounding box `b` is the one that holds no pixel, or it starts within the display
/// memory of a display `width` x `height` pixels; its far corner may lie beyond, as a flush
/// clips it, but below 255.
pub open spec fn starts_within(b: (u8, u8, u8, u8), width: u8, height: u8) -> bool {
    b == no_bbox() || (b.0 <= b.1 < 255 && b.2 <= b.3 < 255 && b.0 < width && b.2 < height)
}

impl<DI, DSIZE: DisplaySize> GraphicsMode<DI, DSIZE> {
    /// A flush neither overflows nor leaves the buffer or the driver's memory while the
    /// bounding box of changed pixels starts within the display memory, provided that, with
    /// the display turned sideways, its rows with the horizontal offset still fit the
    /// driver's 128 page rows.
    pub proof fn lemma_flush_ok_within_memory(&self)
        requires
            self.buffer_view().len() == buffer_len::<DSIZE>(),
            starts_within(self.bbox(), DSIZE::width_spec(), DSIZE::height_spec()),
            self.rotation_view().is_sideways() ==> DSIZE::offset_x_spec() + DSIZE::height_spec()
                <= 128,
        ensures
            self.flush_ok(),
    {
        DSIZE::lemma_geometry();
        let b = self.bbox();
        let w = DSIZE::width_spec() as int;
        let h = DSIZE::height_spec() as int;
        if !bbox_empty(b) {
            if !self.rotation_view().is_sideways() {
                lemma_page_end(b.3);
                let hi1 = min_u8(b.3 | 7, DSIZE::height_spec());
                let hi0 = min_u8((b.1 + 1) as u8, DSIZE::width_spec());
                lemma_flush_chunks(w, h, b.2 as int, hi1 as int, b.0 as int, hi0 as int);
            } else {
                lemma_page_end(b.1);
                let hi0 = min_u8((b.3 + 1) as u8, DSIZE::height_spec());
                let hi1 = min_u8(b.1 | 7, DSIZE::width_spec());
                lemma_flush_chunks(w, h, b.2 as int, hi0 as int, b.0 as int, hi1 as int);
            }
        }
    }
}

impl<DI, DSIZE: DisplaySize> DisplayModeTrait<DI, DSIZE> for GraphicsMode<DI, DSIZE> {
    open spec fn held_properties(&self) -> DisplayProperties<DI, DSIZE> {
        self.properties_view()
    }

    /// Create new GraphicsMode instance, with all pixels off and nothing to flush.
    fn new(properties: DisplayProperties<DI, DSIZE>) -> (r: Self)
        ensures
            r.properties_view() == properties,
            r.buffer_view() == filled(buffer_len::<DSIZE>(), 0),
            r.bbox() == no_bbox(),
    {
        GraphicsMode { properties, frame: BufferedGraphicsMode::new() }
    }

    /// Release the display properties used by `GraphicsMode`
    fn into_properties(self) -> (r: DisplayProperties<DI, DSIZE>)
        ensures
            r == self.properties_view(),
    {
        self.properties
    }
}

impl<DI: DisplayInterface, DSIZE: DisplaySize> GraphicsMode<DI, DSIZE> {
    /// Every transfer handed to the interface so far, in order.
    pub open spec fn sent_view(&self) -> Seq<Handed> {
        self.properties_view().sent_view()
    }

    /// Write out data to a display.
    ///
    /// This only updates the parts of the display that have changed since the last flush,
    /// and then marks nothing as changed.
    pub fn flush(&mut self) -> (r: Result<(), DisplayError>)
        requires
            old(self).flush_ok(),
        ensures
            ran_driver(
                old(self).flush_plan(),
                r,
                old(self).addr_mode_view(),
                old(self).sent_view(),
                final(self).addr_mode_view(),
                final(self).sent_view(),
            ),
            final(self).buffer_view() == old(self).buffer_view(),
            final(self).bbox() == if bbox_empty(old(self).bbox()) {
                old(self).bbox()
            } else {
                no_bbox()
            },
            final(self).rotation_view() == old(self).rotation_view(),
            final(self).properties_view().addr_mode_view() == old(
                self,
            ).properties_view().addr_mode_view(),
    {
        proof {
            use_type_invariant(&self.frame);
        }
        // Nothing to do if no pixels have changed since the last update
        if self.frame.max_x < self.frame.min_x || self.frame.max_y < self.frame.min_y {
            proof {
                let p = self.flush_plan();
                assert(self.properties.sent_view() + handed_over(p, 0, Ok(())) =~= self.properties.sent_view());
                assert(ran_to(p, 0, Ok(())));
            }
            return Ok(());
        }
        let steps = self.flush_steps();
        self.frame.min_x = 255;
        self.frame.max_x = 0;
        self.frame.min_y = 255;
        self.frame.max_y = 0;
        proof {
            let p = view_steps(steps@);
            let a = p.take(2);
            assert(p =~= a + p.skip(2));
            lemma_no_mode_changes_two(p[0], p[1]);
            assert(a =~= seq![p[0], p[1]]);
            assert(no_mode_changes(p.skip(2)));
            lemma_no_mode_changes_concat(a, p.skip(2));
        }
        self.properties.run_without_mode_changes(&steps)
    }

    /// Display is set up in column mode, i.e. a byte walks down a column of 8 pixels from
    /// column 0 on the left, to column _n_ on the right
    pub fn init(&mut self) -> (r: Result<(), DisplayError>)
        ensures
            ran_driver(
                column_mode_plan::<DSIZE>(old(self).rotation_view()),
                r,
                old(self).addr_mode_view(),
                old(self).sent_view(),
                final(self).addr_mode_view(),
                final(self).sent_view(),
            ),
            final(self).buffer_view() == filled(buffer_len::<DSIZE>(), 0),
            final(self).bbox() == (0u8, 254u8, 0u8, 254u8),
            final(self).rotation_view() == old(self).rotation_view(),
    {
        self.clear();
        self.properties.init_column_mode()
    }

    /// Turn the display on or off. The display can be drawn to and retains all
    /// of its memory even while off.
    pub fn display_on(&mut self, on: bool) -> (r: Result<(), DisplayError>)
        ensures
            ran_driver(
                seq![command(Command::DisplayOn(on))],
                r,
                old(self).addr_mode_view(),
                old(self).sent_view(),
                final(self).addr_mode_view(),
                final(self).sent_view(),
            ),
            final(self).buffer_view() == old(self).buffer_view(),
            final(self).bbox() == old(self).bbox(),
            final(self).rotation_view() == old(self).rotation_view(),
    {
        self.properties.display_on(on)
    }

    /// Change the display brightness.
    pub fn set_brightness(&mut self, brightness: Brightness) -> (r: Result<(), DisplayError>)
        ensures
            ran_driver(
                brightness_plan(brightness),
                r,
                old(self).addr_mode_view(),
                old(self).sent_view(),
                final(self).addr_mode_view(),
                final(self).sent_view(),
            ),
            final(self).buffer_view() == old(self).buffer_view(),
            final(self).bbox() == old(self).bbox(),
            final(self).rotation_view() == old(self).rotation_view(),
    {
        self.properties.set_brightness(brightness)
    }
}

impl<DI: DisplayInterface, DSIZE: DisplaySize> Rotatable for GraphicsMode<DI, DSIZE> {
    /// Change display rotation; the buffer and the bounding box stay as they are.
    fn set_rotation(&mut self, rotation: DisplayRotation) -> (r: Result<(), DisplayError>)
        ensures
            ran_driver(
                rotation_plan(rotation),
                r,
                old(self).addr_mode_view(),
                old(self).sent_view(),
                final(self).addr_mode_view(),
                final(self).sent_view(),
            ),
            final(self).rotation_view() == rotation,
            final(self).buffer_view() == old(self).buffer_view(),
            final(self).bbox() == old(self).bbox(),
    {
        self.properties.set_rotation(rotation)
    }

    /// Return the current rotation
    fn get_rotation(&self) -> (r: DisplayRotation)
        ensures
            r == self.rotation_view(),
    {
        self.properties.get_rotation()
    }
}

} // verus!
