//! Buffered graphics mode.

use core::marker::PhantomData;

use display_interface::DisplayError;
use vstd::prelude::*;

use crate::command::{flag, AddrMode};
use crate::interface::{
    append_steps, chunk_steps, chunks_drawable, chunks_drawable_check, chunks_plan, filled,
    filled_vec, lemma_chunks_cover, pages_drawn, ran_driver, ran_to, view_steps, DisplayInterface,
    handed_over, Step, StepView,
};
use crate::mode::DisplayConfig;
use crate::rotation::{rotation_plan, DisplayRotation};
use crate::size::{buffer_len, offset_x_for, visible_offset_x, DisplaySize, DRIVER_COLS};
use crate::{draw_area_plan, init_plan, rotated_dims, Ssd1306};

verus! {

/// Buffered graphics mode.
///
/// This mode keeps a pixel buffer in system memory, up to 1024 bytes for 128x64px displays.
/// This buffer is drawn to by [`set_pixel`](Ssd1306::set_pixel) commands. The display can
/// then be updated using the [`flush`](Ssd1306::flush) method, which sends only the part of
/// the buffer inside the bounding box of the pixels changed since the last flush.
#[derive(Debug)]
pub struct BufferedGraphicsMode<SIZE: DisplaySize> {
    pub(crate) buffer: Vec<u8>,
    pub(crate) min_x: u8,
    pub(crate) max_x: u8,
    pub(crate) min_y: u8,
    pub(crate) max_y: u8,
    pub(crate) size: PhantomData<SIZE>,
}

/// The bounding box that holds no pixel: `(min_x, max_x, min_y, max_y) = (255, 0, 255, 0)`.
pub open spec fn no_bbox() -> (u8, u8, u8, u8) {
    (255, 0, 255, 0)
}

/// The bounding box `(min_x, max_x, min_y, max_y)` holds no pixel.
pub open spec fn bbox_empty(b: (u8, u8, u8, u8)) -> bool {
    b.1 < b.0 || b.3 < b.2
}

/// The smaller of two bytes.
pub open spec fn min_u8(a: u8, b: u8) -> u8 {
    if a < b {
        a
    } else {
        b
    }
}

/// The larger of two bytes.
pub open spec fn max_u8(a: u8, b: u8) -> u8 {
    if a < b {
        b
    } else {
        a
    }
}

/// The byte `byte` with bit `bit` set to `value`.
pub open spec fn with_bit(byte: u8, bit: u8, value: bool) -> u8 {
    (byte & !(1u8 << bit)) | (flag(value) << bit)
}

/// Bit `bit` of `byte`.
pub open spec fn bit_of(byte: u8, bit: u8) -> bool {
    (byte >> bit) & 1 == 1
}

/// The framebuffer byte that holds pixel `(x, y)` of a display `width` pixels wide, seen
/// through `rotation`. The buffer holds pages of 8 rows: byte `page * width + column`.
pub open spec fn pixel_index(rotation: DisplayRotation, width: u8, x: u32, y: u32) -> int {
    if rotation.is_sideways() {
        (x / 8) * width + y
    } else {
        (y / 8) * width + x
    }
}

/// The bit of its framebuffer byte that holds pixel `(x, y)`.
pub open spec fn pixel_bit(rotation: DisplayRotation, x: u32, y: u32) -> u8 {
    if rotation.is_sideways() {
        (x % 8) as u8
    } else {
        (y % 8) as u8
    }
}

/// The exclusive lower right corner of the area that a flush sends, in the rotated view:
/// one past the bounding box along the display's columns, to the end of the page along its
/// pages, within the display.
pub open spec fn flush_end(rotation: DisplayRotation, b: (u8, u8, u8, u8), dims: (u8, u8)) -> (u8, u8) {
    if !rotation.is_sideways() {
        (min_u8((b.1 + 1) as u8, dims.0), min_u8(b.3 | 7, dims.1))
    } else {
        (min_u8(b.1 | 7, dims.0), min_u8((b.3 + 1) as u8, dims.1))
    }
}

impl<SIZE: DisplaySize> BufferedGraphicsMode<SIZE> {
    /// The framebuffer has one bit per pixel of the display.
    #[verifier::type_invariant]
    pub(crate) open spec fn buffer_wf(self) -> bool {
        self.buffer@.len() == buffer_len::<SIZE>()
    }

    /// The framebuffer.
    pub open(crate) spec fn buffer_view(&self) -> Seq<u8> {
        self.buffer@
    }

    /// The bounding box `(min_x, max_x, min_y, max_y)` of the pixels changed since the last
    /// flush.
    pub open(crate) spec fn bbox(&self) -> (u8, u8, u8, u8) {
        (self.min_x, self.max_x, self.min_y, self.max_y)
    }
}

impl<SIZE: DisplaySize> BufferedGraphicsMode<SIZE> {
    /// Create a new buffered graphics mode instance, with all pixels off and nothing to
    /// flush.
    pub(crate) fn new() -> (r: Self)
        ensures
            r.buffer_view() == filled(buffer_len::<SIZE>(), 0),
            r.bbox() == no_bbox(),
    {
        proof {
            SIZE::lemma_geometry();
        }
        assert(SIZE::width_spec() * SIZE::height_spec() <= 128 * 64) by (nonlinear_arith)
            requires
                SIZE::width_spec() <= 128,
                SIZE::height_spec() <= 64,
        ;
        let len = SIZE::width() as usize * SIZE::height() as usize / 8;
        Self {
            buffer: filled_vec(len, 0),
            min_x: 255,
            max_x: 0,
            min_y: 255,
            max_y: 0,
            size: PhantomData,
        }
    }
}

impl<DI, SIZE: DisplaySize, MODE> Ssd1306<DI, SIZE, MODE> {
    /// Convert the display into a buffered graphics mode, with all pixels off.
    ///
    /// See [`BufferedGraphicsMode`] for more information.
    pub fn into_buffered_graphics_mode(self) -> (r: Ssd1306<DI, SIZE, BufferedGraphicsMode<SIZE>>)
        ensures
            r.interface_view() == self.interface_view(),
            r.addr_mode_view() == self.addr_mode_view(),
            r.rotation_view() == self.rotation_view(),
            r.mode_view().buffer_view() == filled(buffer_len::<SIZE>(), 0),
            r.mode_view().bbox() == no_bbox(),
    {
        self.into_mode(BufferedGraphicsMode::new())
    }
}

impl<DI, SIZE: DisplaySize> Ssd1306<DI, SIZE, BufferedGraphicsMode<SIZE>> {
    /// A flush sends no area outside the buffer or the display's memory.
    pub open(crate) spec fn flush_ok(&self) -> bool {
        let b = self.mode.bbox();
        let rot = self.rotation;
        let dims = rotated_dims(rot, SIZE::width_spec(), SIZE::height_spec());
        let (dx, dy) = flush_end(rot, b, dims);
        let off = offset_x_for::<SIZE>(rot);
        let oy = SIZE::offset_y_spec();
        let len = self.mode.buffer@.len() as int;
        !bbox_empty(b) ==> if !rot.is_sideways() {
            &&& b.1 < 255
            &&& b.0 + off <= 255
            &&& b.2 + oy <= 255
            &&& dx + off <= 255
            &&& dy + oy <= 255
            &&& self.addr_mode != AddrMode::Page ==> b.2 + oy < 128 && dy + oy <= 128
            &&& chunks_drawable(len, dims.0 as int, (b.0, b.2), (dx, dy))
        } else {
            &&& b.3 < 255
            &&& b.2 + off <= 255
            &&& b.0 + oy <= 255
            &&& dy + off <= 255
            &&& dx + oy <= 255
            &&& self.addr_mode != AddrMode::Page ==> b.0 + oy < 128 && dx + oy <= 128
            &&& chunks_drawable(len, dims.1 as int, (b.2, b.0), (dy, dx))
        }
    }

    /// The steps of a flush: nothing if no pixel changed, else the area of the bounding box,
    /// widened to whole pages, is selected in the display's memory and its bytes are sent
    /// page by page.
    pub open(crate) spec fn flush_plan(&self) -> Seq<StepView> {
        let b = self.mode.bbox();
        let rot = self.rotation;
        let dims = rotated_dims(rot, SIZE::width_spec(), SIZE::height_spec());
        let (dx, dy) = flush_end(rot, b, dims);
        let off = offset_x_for::<SIZE>(rot);
        let oy = SIZE::offset_y_spec();
        if bbox_empty(b) {
            Seq::empty()
        } else if !rot.is_sideways() {
            draw_area_plan(
                self.addr_mode,
                ((b.0 + off) as u8, (b.2 + oy) as u8),
                ((dx + off) as u8, (dy + oy) as u8),
            ) + chunks_plan(self.mode.buffer@, dims.0 as int, (b.0, b.2), (dx, dy))
        } else {
            draw_area_plan(
                self.addr_mode,
                ((b.2 + off) as u8, (b.0 + oy) as u8),
                ((dy + off) as u8, (dx + oy) as u8),
            ) + chunks_plan(self.mode.buffer@, dims.1 as int, (b.2, b.0), (dy, dx))
        }
    }

    /// Whether a flush of the current bounding box stays within the buffer and the display's
    /// memory, so that [`Ssd1306::flush`] may be called.
    pub fn can_flush(&self) -> (r: bool)
        ensures
            r == self.flush_ok(),
    {
        proof {
            use_type_invariant(&self.mode);
            SIZE::lemma_geometry();
        }
        let (b0, b1, b2, b3) = (self.mode.min_x, self.mode.max_x, self.mode.min_y, self.mode.max_y);
        if b1 < b0 || b3 < b2 {
            return true;
        }
        let (width, height) = self.dimensions();
        let off = visible_offset_x::<SIZE>(self.rotation) as u16;
        let oy = SIZE::offset_y() as u16;
        let len = self.mode.buffer.len();
        let paged = self.addr_mode == AddrMode::Page;
        match self.rotation {
            DisplayRotation::Rotate0 | DisplayRotation::Rotate180 => {
                if b1 == 255 {
                    return false;
                }
                let dx = if b1 + 1 < width {
                    b1 + 1
                } else {
                    width
                };
                let dy = if (b3 | 7) < height {
                    b3 | 7
                } else {
                    height
                };
                b0 as u16 + off <= 255 && b2 as u16 + oy <= 255 && dx as u16 + off <= 255 && dy as u16
                    + oy <= 255 && (paged || (b2 as u16 + oy < 128 && dy as u16 + oy <= 128))
                    && chunks_drawable_check(len, width as usize, (b0, b2), (dx, dy))
            },
            DisplayRotation::Rotate90 | DisplayRotation::Rotate270 => {
                if b3 == 255 {
                    return false;
                }
                let dx = if (b1 | 7) < width {
                    b1 | 7
                } else {
                    width
                };
                let dy = if b3 + 1 < height {
                    b3 + 1
                } else {
                    height
                };
                b2 as u16 + off <= 255 && b0 as u16 + oy <= 255 && dy as u16 + off <= 255 && dx as u16
                    + oy <= 255 && (paged || (b0 as u16 + oy < 128 && dx as u16 + oy <= 128))
                    && chunks_drawable_check(len, height as usize, (b2, b0), (dy, dx))
            },
        }
    }

    /// Fill the framebuffer with `value` and mark the whole display as changed.
    pub fn clear_impl(&mut self, value: bool)
        ensures
            final(self).mode_view().buffer_view() == filled(
                buffer_len::<SIZE>(),
                if value {
                    0xff
                } else {
                    0
                },
            ),
            final(self).mode_view().bbox() == ({
                let dims = rotated_dims(
                    old(self).rotation_view(),
                    SIZE::width_spec(),
                    SIZE::height_spec(),
                );
                (0u8, (dims.0 - 1) as u8, 0u8, (dims.1 - 1) as u8)
            }),
            bbox_within(
                final(self).mode_view().bbox(),
                rotated_dims(old(self).rotation_view(), SIZE::width_spec(), SIZE::height_spec()),
            ),
            final(self).rotation_view() == old(self).rotation_view(),
            final(self).addr_mode_view() == old(self).addr_mode_view(),
            final(self).interface_view() == old(self).interface_view(),
    {
        proof {
            SIZE::lemma_geometry();
            use_type_invariant(&self.mode);
        }
        let fill: u8 = if value {
            0xff
        } else {
            0
        };
        let len = self.mode.buffer.len();
        self.mode.buffer = filled_vec(len, fill);
        let (width, height) = self.dimensions();
        self.mode.min_x = 0;
        self.mode.max_x = width - 1;
        self.mode.min_y = 0;
        self.mode.max_y = height - 1;
    }

    /// Clear the underlying framebuffer. You need to call `disp.flush()` for any effect on the
    /// screen.
    pub fn clear_buffer(&mut self)
        ensures
            final(self).mode_view().buffer_view() == filled(buffer_len::<SIZE>(), 0),
            final(self).mode_view().bbox() == ({
                let dims = rotated_dims(
                    old(self).rotation_view(),
                    SIZE::width_spec(),
                    SIZE::height_spec(),
                );
                (0u8, (dims.0 - 1) as u8, 0u8, (dims.1 - 1) as u8)
            }),
            final(self).rotation_view() == old(self).rotation_view(),
            final(self).addr_mode_view() == old(self).addr_mode_view(),
            final(self).interface_view() == old(self).interface_view(),
    {
        self.clear_impl(false);
    }

    /// Turn a pixel on or off. If the X and Y coordinates are out of the bounds of the display,
    /// this method call is a noop. Otherwise the pixel's bit is set and the bounding box of
    /// changed pixels grows to hold the coordinates.
    pub fn set_pixel(&mut self, x: u32, y: u32, value: bool)
        ensures
            final(self).rotation_view() == old(self).rotation_view(),
            final(self).addr_mode_view() == old(self).addr_mode_view(),
            final(self).interface_view() == old(self).interface_view(),
            ({
                let dims = rotated_dims(
                    old(self).rotation_view(),
                    SIZE::width_spec(),
                    SIZE::height_spec(),
                );
                let idx = pixel_index(old(self).rotation_view(), SIZE::width_spec(), x, y);
                let bit = pixel_bit(old(self).rotation_view(), x, y);
                let buf = old(self).mode_view().buffer_view();
                let b = old(self).mode_view().bbox();
                if x < dims.0 && y < dims.1 {
                    &&& idx < buf.len()
                    &&& final(self).mode_view().buffer_view() == buf.update(
                        idx,
                        with_bit(buf[idx], bit, value),
                    )
                    &&& final(self).mode_view().bbox() == (
                        min_u8(b.0, x as u8),
                        max_u8(b.1, x as u8),
                        min_u8(b.2, y as u8),
                        max_u8(b.3, y as u8),
                    )
                } else {
                    final(self).mode_view() == old(self).mode_view()
                }
            }),
    {
        proof {
            SIZE::lemma_geometry();
            use_type_invariant(&self.mode);
        }
        let (w, h) = self.dimensions();
        if x >= w as u32 || y >= h as u32 {
            return;
        }
        proof {
            lemma_pixel_in_buffer::<SIZE>(self.rotation, x, y);
            assert((y as u64 / 8) * (SIZE::width_spec() as u64) <= 32 * 128) by (nonlinear_arith)
                requires
                    y as u64 / 8 <= 32,
                    SIZE::width_spec() <= 128,
            ;
            assert((x as u64 / 8) * (SIZE::width_spec() as u64) <= 32 * 128) by (nonlinear_arith)
                requires
                    x as u64 / 8 <= 32,
                    SIZE::width_spec() <= 128,
            ;
        }
        let width = SIZE::width() as u64;
        let (idx, bit): (u64, u8) = match self.rotation {
            DisplayRotation::Rotate0 | DisplayRotation::Rotate180 => {
                ((y as u64) / 8 * width + (x as u64), (y % 8) as u8)
            },
            DisplayRotation::Rotate90 | DisplayRotation::Rotate270 => {
                ((x as u64) / 8 * width + (y as u64), (x % 8) as u8)
            },
        };
        if idx < self.mode.buffer.len() as u64 {
            let i = idx as usize;
            let xb = #[verifier::truncate] (x as u8);
            let yb = #[verifier::truncate] (y as u8);
            // Keep track of max and min values
            self.mode.min_x = if xb < self.mode.min_x {
                xb
            } else {
                self.mode.min_x
            };
            self.mode.max_x = if self.mode.max_x < xb {
                xb
            } else {
                self.mode.max_x
            };
            self.mode.min_y = if yb < self.mode.min_y {
                yb
            } else {
                self.mode.min_y
            };
            self.mode.max_y = if self.mode.max_y < yb {
                yb
            } else {
                self.mode.max_y
            };
            let v: u8 = if value {
                1
            } else {
                0
            };
            let byte = self.mode.buffer[i];
            self.mode.buffer[i] = (byte & !(1u8 << bit)) | (v << bit);
        }
    }

    /// Draw a pixel given in signed coordinates, as a drawing target does: pixels outside the
    /// display's bounding box `(0, 0)` to `(width - 1, height - 1)` are skipped.
    pub fn draw_pixel(&mut self, x: i32, y: i32, on: bool)
        ensures
            final(self).rotation_view() == old(self).rotation_view(),
            final(self).addr_mode_view() == old(self).addr_mode_view(),
            final(self).interface_view() == old(self).interface_view(),
            bbox_within(
                old(self).mode_view().bbox(),
                rotated_dims(old(self).rotation_view(), SIZE::width_spec(), SIZE::height_spec()),
            ) ==> bbox_within(
                final(self).mode_view().bbox(),
                rotated_dims(old(self).rotation_view(), SIZE::width_spec(), SIZE::height_spec()),
            ),
            ({
                let dims = rotated_dims(
                    old(self).rotation_view(),
                    SIZE::width_spec(),
                    SIZE::height_spec(),
                );
                if 0 <= x < dims.0 && 0 <= y < dims.1 {
                    let idx = pixel_index(
                        old(self).rotation_view(),
                        SIZE::width_spec(),
                        x as u32,
                        y as u32,
                    );
                    let bit = pixel_bit(old(self).rotation_view(), x as u32, y as u32);
                    let buf = old(self).mode_view().buffer_view();
                    let b = old(self).mode_view().bbox();
                    &&& idx < buf.len()
                    &&& final(self).mode_view().buffer_view() == buf.update(
                        idx,
                        with_bit(buf[idx], bit, on),
                    )
                    &&& final(self).mode_view().bbox() == (
                        min_u8(b.0, x as u8),
                        max_u8(b.1, x as u8),
                        min_u8(b.2, y as u8),
                        max_u8(b.3, y as u8),
                    )
                } else {
                    final(self).mode_view() == old(self).mode_view()
                }
            }),
    {
        proof {
            use_type_invariant(&self.mode);
        }
        let (width, height) = self.dimensions();
        if 0 <= x && x < width as i32 && 0 <= y && y < height as i32 {
            proof {
                lemma_pixel_in_buffer::<SIZE>(self.rotation, x as u32, y as u32);
            }
            self.set_pixel(x as u32, y as u32, on);
        }
    }

    /// The steps of a flush of the current bounding box.
    pub fn flush_steps(&self) -> (r: Vec<Step>)
        requires
            self.flush_ok(),
        ensures
            view_steps(r@) == self.flush_plan(),
    {
        proof {
            SIZE::lemma_geometry();
        }
        let mut steps: Vec<Step> = Vec::new();
        // Nothing to do if no pixels have changed since the last update
        if self.mode.max_x < self.mode.min_x || self.mode.max_y < self.mode.min_y {
            assert(view_steps(steps@) =~= Seq::<StepView>::empty());
            return steps;
        }
        let (width, height) = self.dimensions();
        // Determine which bytes need to be sent
        let disp_min_x = self.mode.min_x;
        let disp_min_y = self.mode.min_y;
        let (disp_max_x, disp_max_y) = match self.rotation {
            DisplayRotation::Rotate0 | DisplayRotation::Rotate180 => {
                let a = self.mode.max_x + 1;
                let b = self.mode.max_y | 7;
                (if a < width {
                    a
                } else {
                    width
                }, if b < height {
                    b
                } else {
                    height
                })
            },
            DisplayRotation::Rotate90 | DisplayRotation::Rotate270 => {
                let a = self.mode.max_x | 7;
                let b = self.mode.max_y + 1;
                (if a < width {
                    a
                } else {
                    width
                }, if b < height {
                    b
                } else {
                    height
                })
            },
        };
        // Tell the display to update only the part that has changed
        let offset_x = match self.rotation {
            DisplayRotation::Rotate0 | DisplayRotation::Rotate270 => SIZE::offset_x(),
            DisplayRotation::Rotate180 | DisplayRotation::Rotate90 => {
                // If segment remapping is flipped, we need to calculate
                // the offset from the other edge of the display.
                DRIVER_COLS - SIZE::width() - SIZE::offset_x()
            },
        };
        let offset_y = SIZE::offset_y();
        match self.rotation {
            DisplayRotation::Rotate0 | DisplayRotation::Rotate180 => {
                append_steps(
                    &mut steps,
                    self.set_draw_area_steps(
                        (disp_min_x + offset_x, disp_min_y + offset_y),
                        (disp_max_x + offset_x, disp_max_y + offset_y),
                    ),
                );
                append_steps(
                    &mut steps,
                    chunk_steps(
                        self.mode.buffer.as_slice(),
                        width as usize,
                        (disp_min_x, disp_min_y),
                        (disp_max_x, disp_max_y),
                    ),
                );
            },
            DisplayRotation::Rotate90 | DisplayRotation::Rotate270 => {
                append_steps(
                    &mut steps,
                    self.set_draw_area_steps(
                        (disp_min_y + offset_x, disp_min_x + offset_y),
                        (disp_max_y + offset_x, disp_max_x + offset_y),
                    ),
                );
                append_steps(
                    &mut steps,
                    chunk_steps(
                        self.mode.buffer.as_slice(),
                        height as usize,
                        (disp_min_y, disp_min_x),
                        (disp_max_y, disp_max_x),
                    ),
                );
            },
        }
        steps
    }
}

/// A pixel inside the rotated display has a byte in the framebuffer.
pub proof fn lemma_pixel_in_buffer<SIZE: DisplaySize>(rotation: DisplayRotation, x: u32, y: u32)
    requires
        ({
            let dims = rotated_dims(rotation, SIZE::width_spec(), SIZE::height_spec());
            x < dims.0 && y < dims.1
        }),
    ensures
        0 <= pixel_index(rotation, SIZE::width_spec(), x, y) < buffer_len::<SIZE>(),
        pixel_bit(rotation, x, y) < 8,
{
    SIZE::lemma_geometry();
    let w = SIZE::width_spec() as int;
    let h = SIZE::height_spec() as int;
    assert(w * h / 8 == w * (h / 8)) by (nonlinear_arith)
        requires
            h % 8 == 0,
            h >= 0,
    ;
    let (a, b) = if rotation.is_sideways() {
        (x as int, y as int)
    } else {
        (y as int, x as int)
    };
    assert(a < h && b < w);
    assert(a / 8 <= h / 8 - 1);
    assert((a / 8) * w <= (h / 8 - 1) * w) by (nonlinear_arith)
        requires
            a / 8 <= h / 8 - 1,
            w > 0,
    ;
    assert((h / 8 - 1) * w == w * (h / 8) - w) by (nonlinear_arith);
}

/// The pixel `(x, y)` of a framebuffer of a display `width` pixels wide, seen through
/// `rotation`: the bit that holds it, or off where the buffer has no byte for it.
pub open spec fn pixel_at(buf: Seq<u8>, rotation: DisplayRotation, width: u8, x: u32, y: u32) -> bool {
    let idx = pixel_index(rotation, width, x, y);
    0 <= idx < buf.len() && bit_of(buf[idx], pixel_bit(rotation, x, y))
}

/// Setting bit `bit` of a byte to `value` gives that bit the value and keeps the others.
pub proof fn lemma_with_bit(byte: u8, bit: u8, value: bool, other: u8)
    by (bit_vector)
    requires
        bit < 8,
        other < 8,
    ensures
        bit_of(with_bit(byte, bit, value), bit) == value,
        other != bit ==> bit_of(with_bit(byte, bit, value), other) == bit_of(byte, other),
{
}

/// What `set_pixel` writes reads back: the pixel set has the value set, and every pixel kept
/// in another bit of the buffer is as it was.
pub proof fn lemma_set_pixel_reads_back(
    buf: Seq<u8>,
    rotation: DisplayRotation,
    width: u8,
    x: u32,
    y: u32,
    value: bool,
    x2: u32,
    y2: u32,
)
    requires
        0 <= pixel_index(rotation, width, x, y) < buf.len(),
    ensures
        ({
            let idx = pixel_index(rotation, width, x, y);
            let bit = pixel_bit(rotation, x, y);
            let new = buf.update(idx, with_bit(buf[idx], bit, value));
            &&& pixel_at(new, rotation, width, x, y) == value
            &&& (pixel_index(rotation, width, x2, y2) != idx || pixel_bit(rotation, x2, y2) != bit)
                ==> pixel_at(new, rotation, width, x2, y2) == pixel_at(buf, rotation, width, x2, y2)
        }),
{
    let idx = pixel_index(rotation, width, x, y);
    let bit = pixel_bit(rotation, x, y);
    let idx2 = pixel_index(rotation, width, x2, y2);
    let bit2 = pixel_bit(rotation, x2, y2);
    lemma_with_bit(buf[idx], bit, value, bit2);
}

/// The bounding box `b` is the one that holds no pixel, or it holds pixels of a display of
/// `dims` pixels only.
pub open spec fn bbox_within(b: (u8, u8, u8, u8), dims: (u8, u8)) -> bool {
    b == no_bbox() || (b.0 <= b.1 < dims.0 && b.2 <= b.3 < dims.1)
}

/// Rounding a row up to the end of its page keeps it above the next page.
pub(crate) proof fn lemma_page_end(v: u8)
    by (bit_vector)
    ensures
        v <= (v | 7),
        7 <= (v | 7),
        (v | 7) / 8 == v / 8,
        (v | 7) % 8 == 7,
{
}

/// A buffer of whole pages of a display `w` pixels wide and `h` pixels high splits into
/// `h / 8` pages of `w` bytes, from which the chunks of a flush, starting at page
/// `top_row / 8` and ending at the page of `bottom_row` or at the last page, can be cut.
pub(crate) proof fn lemma_flush_chunks(w: int, h: int, top_row: int, bottom_row: int, lo: int, hi: int)
    requires
        8 <= w <= 128,
        8 <= h <= 128,
        h % 8 == 0,
        0 <= top_row < h,
        top_row <= bottom_row <= 255,
        0 <= lo <= hi <= w,
    ensures
        ({
            let ul = (lo as u8, top_row as u8);
            let lr = (hi as u8, bottom_row as u8);
            chunks_drawable(w * h / 8, w, ul, lr)
        }),
{
    assert(w * h / 8 == w * (h / 8)) by (nonlinear_arith)
        requires
            h % 8 == 0,
            h >= 0,
    ;
    let len = w * (h / 8);
    assert(len / w == h / 8 && len % w == 0) by (nonlinear_arith)
        requires
            len == w * (h / 8),
            w > 0,
            h >= 0,
    ;
    let ul = (lo as u8, top_row as u8);
    let lr = (hi as u8, bottom_row as u8);
    let pages = pages_drawn(len, w, ul, lr);
    let first = top_row / 8;
    assert(first < h / 8);
    assert(pages <= h / 8 - first);
    if pages > 0 {
        assert((first + pages - 1) * w <= (h / 8 - 1) * w) by (nonlinear_arith)
            requires
                first + pages - 1 <= h / 8 - 1,
                w > 0,
        ;
        assert((h / 8 - 1) * w + w == w * (h / 8)) by (nonlinear_arith);
    }
}

impl<DI, SIZE: DisplaySize> Ssd1306<DI, SIZE, BufferedGraphicsMode<SIZE>> {
    /// A flush never leaves the buffer or the display's memory while the bounding box of
    /// changed pixels lies within the display as it is turned.
    pub proof fn lemma_flush_ok_within_display(&self)
        requires
            self.mode_view().buffer_view().len() == buffer_len::<SIZE>(),
            bbox_within(
                self.mode_view().bbox(),
                rotated_dims(self.rotation_view(), SIZE::width_spec(), SIZE::height_spec()),
            ),
        ensures
            self.flush_ok(),
    {
        SIZE::lemma_geometry();
        let b = self.mode.bbox();
        let rot = self.rotation;
        let dims = rotated_dims(rot, SIZE::width_spec(), SIZE::height_spec());
        let (dx, dy) = flush_end(rot, b, dims);
        let w = SIZE::width_spec() as int;
        let h = SIZE::height_spec() as int;
        if !bbox_empty(b) {
            if !rot.is_sideways() {
                lemma_page_end(b.3);
                lemma_flush_chunks(w, h, b.2 as int, dy as int, b.0 as int, dx as int);
            } else {
                lemma_page_end(b.1);
                lemma_flush_chunks(w, h, b.0 as int, dx as int, b.2 as int, dy as int);
            }
        }
    }

    /// A flush sends every changed pixel: for each pixel `(x, y)` in the bounding box of
    /// changes, one block of data that the flush sends holds the framebuffer byte of that
    /// pixel, as far into the block as the pixel's memory column lies from the box's first
    /// memory column.
    pub proof fn lemma_flush_sends_changed_pixels(&self, x: u32, y: u32)
        requires
            self.mode_view().buffer_view().len() == buffer_len::<SIZE>(),
            bbox_within(
                self.mode_view().bbox(),
                rotated_dims(self.rotation_view(), SIZE::width_spec(), SIZE::height_spec()),
            ),
            !bbox_empty(self.mode_view().bbox()),
            self.mode_view().bbox().0 <= x <= self.mode_view().bbox().1,
            self.mode_view().bbox().2 <= y <= self.mode_view().bbox().3,
        ensures
            sends_byte(
                self.flush_plan(),
                if self.rotation_view().is_sideways() {
                    y - self.mode_view().bbox().2
                } else {
                    x - self.mode_view().bbox().0
                },
                self.mode_view().buffer_view()[pixel_index(
                    self.rotation_view(),
                    SIZE::width_spec(),
                    x,
                    y,
                )],
            ),
    {
        SIZE::lemma_geometry();
        lemma_pixel_in_buffer::<SIZE>(self.rotation, x, y);
        let b = self.mode.bbox();
        let rot = self.rotation;
        let dims = rotated_dims(rot, SIZE::width_spec(), SIZE::height_spec());
        let (dx, dy) = flush_end(rot, b, dims);
        let off = offset_x_for::<SIZE>(rot);
        let oy = SIZE::offset_y_spec();
        let buf = self.mode.buffer@;
        let w = SIZE::width_spec() as int;
        let idx = pixel_index(rot, SIZE::width_spec(), x, y);
        let p = self.flush_plan();
        if !rot.is_sideways() {
            let a = draw_area_plan(
                self.addr_mode,
                ((b.0 + off) as u8, (b.2 + oy) as u8),
                ((dx + off) as u8, (dy + oy) as u8),
            );
            assert(p == a + chunks_plan(buf, w, (b.0, b.2), (dx, dy)));
            assert(chunks_drawable(buf.len() as int, w, (b.0, b.2), (dx, dy))) by {
                self.lemma_flush_ok_within_display();
            }
            lemma_page_end(b.3);
            assert(idx == (y / 8) * w + x);
            lemma_flush_sends(a, buf, w, (b.0, b.2), (dx, dy), b.3, x as int, y as int);
        } else {
            let a = draw_area_plan(
                self.addr_mode,
                ((b.2 + off) as u8, (b.0 + oy) as u8),
                ((dy + off) as u8, (dx + oy) as u8),
            );
            assert(p == a + chunks_plan(buf, w, (b.2, b.0), (dy, dx)));
            assert(chunks_drawable(buf.len() as int, w, (b.2, b.0), (dy, dx))) by {
                self.lemma_flush_ok_within_display();
            }
            lemma_page_end(b.1);
            assert(idx == (x / 8) * w + y);
            lemma_flush_sends(a, buf, w, (b.2, b.0), (dy, dx), b.1, y as int, x as int);
        }
    }
}

impl<DI: DisplayInterface, SIZE: DisplaySize> Ssd1306<DI, SIZE, BufferedGraphicsMode<SIZE>> {
    /// Write out data to a display.
    ///
    /// This only updates the parts of the display that have changed since the last flush,
    /// and then marks nothing as changed.
    pub fn flush(&mut self) -> (r: Result<(), DisplayError>)
        requires
            old(self).flush_ok(),
        ensures
            ran_driver(
                old(self).flush_plan(),
                r,
                old(self).addr_mode_view(),
                old(self).sent_view(),
                final(self).addr_mode_view(),
                final(self).sent_view(),
            ),
            final(self).mode_view().buffer_view() == old(self).mode_view().buffer_view(),
            final(self).mode_view().bbox() == if bbox_empty(old(self).mode_view().bbox()) {
                old(self).mode_view().bbox()
            } else {
                no_bbox()
            },
            final(self).rotation_view() == old(self).rotation_view(),
            final(self).addr_mode_view() == old(self).addr_mode_view(),
    {
        proof {
            use_type_invariant(&self.mode);
        }
        if self.mode.max_x < self.mode.min_x || self.mode.max_y < self.mode.min_y {
            proof {
                let p = self.flush_plan();
                assert(self.sent_view() + handed_over(p, 0, Ok(())) =~= self.sent_view());
                assert(ran_to(p, 0, Ok(())));
            }
            return Ok(());
        }
        let steps = self.flush_steps();
        self.mode.min_x = 255;
        self.mode.max_x = 0;
        self.mode.min_y = 255;
        self.mode.max_y = 0;
        self.run_without_mode_changes(&steps)
    }
}

impl<DI: DisplayInterface, SIZE: DisplaySize> DisplayConfig for Ssd1306<
    DI,
    SIZE,
    BufferedGraphicsMode<SIZE>,
> {
    type Error = DisplayError;

    /// Set the display rotation
    ///
    /// This method resets the cursor but does not clear the screen.
    fn set_rotation(&mut self, rot: DisplayRotation) -> (r: Result<(), DisplayError>)
        ensures
            ran_driver(
                rotation_plan(rot),
                r,
                old(self).addr_mode_view(),
                old(self).sent_view(),
                final(self).addr_mode_view(),
                final(self).sent_view(),
            ),
            final(self).rotation_view() == rot,
            final(self).addr_mode_view() == old(self).addr_mode_view(),
            final(self).mode_view() == old(self).mode_view(),
    {
        Ssd1306::set_rotation(self, rot)
    }

    /// Initialise and clear the display in graphics mode.
    fn init(&mut self) -> (r: Result<(), DisplayError>)
        ensures
            final(self).mode_view().buffer_view() == filled(buffer_len::<SIZE>(), 0),
            final(self).mode_view().bbox() == ({
                let dims = rotated_dims(
                    old(self).rotation_view(),
                    SIZE::width_spec(),
                    SIZE::height_spec(),
                );
                (0u8, (dims.0 - 1) as u8, 0u8, (dims.1 - 1) as u8)
            }),
            ran_driver(
                init_plan::<SIZE>(AddrMode::Horizontal, old(self).rotation_view()),
                r,
                old(self).addr_mode_view(),
                old(self).sent_view(),
                final(self).addr_mode_view(),
                final(self).sent_view(),
            ),
            final(self).addr_mode_view() == if r is Ok {
                AddrMode::Horizontal
            } else {
                old(self).addr_mode_view()
            },
            final(self).rotation_view() == old(self).rotation_view(),
    {
        self.clear_impl(false);
        self.init_with_addr_mode(AddrMode::Horizontal)
    }
}

/// One of the data blocks of `steps` holds `value`, `offset` bytes into the block.
pub open spec fn sends_byte(steps: Seq<StepView>, offset: int, value: u8) -> bool {
    exists|k: int|
        0 <= k < steps.len() && (#[trigger] steps[k]) is Data && 0 <= offset < steps[k]->Data_0.len()
            && steps[k]->Data_0[offset] == value
}

/// The block of a bounded draw that holds column `x` of the page of row `y`, when the area
/// ends at the last row of the page of `last_row`, at or below `y`.
proof fn lemma_flush_block(
    buf: Seq<u8>,
    width: int,
    upper_left: (u8, u8),
    lower_right: (u8, u8),
    last_row: u8,
    x: int,
    y: int,
)
    requires
        chunks_drawable(buf.len() as int, width, upper_left, lower_right),
        upper_left.0 <= x < lower_right.0,
        upper_left.1 <= y <= last_row,
        lower_right.1 == (last_row | 7),
        last_row <= (last_row | 7),
        (last_row | 7) / 8 == last_row / 8,
        (last_row | 7) % 8 == 7,
        0 <= (y / 8) * width + x < buf.len(),
    ensures
        ({
            let plan = chunks_plan(buf, width, upper_left, lower_right);
            let j = y / 8 - upper_left.1 / 8;
            &&& 0 <= j < plan.len()
            &&& plan[j] is Data
            &&& 0 <= x - upper_left.0 < plan[j]->Data_0.len()
            &&& plan[j]->Data_0[x - upper_left.0] == buf[(y / 8) * width + x]
        }),
{
    let top = upper_left.1 as int;
    let end = lower_right.1 as int;
    assert(y / 8 - top / 8 <= (end - top) / 8) by (nonlinear_arith)
        requires
            top <= y <= last_row,
            last_row <= end,
            end / 8 == last_row / 8,
            end % 8 == 7,
    ;
    lemma_chunks_cover(buf, width, upper_left, lower_right, x, y);
}

/// The steps `a` followed by a bounded draw send the byte of column `x` in the page of row
/// `y`, `x - upper_left.0` bytes into its block, when the area ends at the last row of the
/// page of `last_row`, at or below `y`.
proof fn lemma_flush_sends(
    a: Seq<StepView>,
    buf: Seq<u8>,
    width: int,
    upper_left: (u8, u8),
    lower_right: (u8, u8),
    last_row: u8,
    x: int,
    y: int,
)
    requires
        chunks_drawable(buf.len() as int, width, upper_left, lower_right),
        upper_left.0 <= x < lower_right.0,
        upper_left.1 <= y <= last_row,
        lower_right.1 == (last_row | 7),
        last_row <= (last_row | 7),
        (last_row | 7) / 8 == last_row / 8,
        (last_row | 7) % 8 == 7,
        0 <= (y / 8) * width + x < buf.len(),
    ensures
        sends_byte(
            a + chunks_plan(buf, width, upper_left, lower_right),
            x - upper_left.0,
            buf[(y / 8) * width + x],
        ),
{
    let c = chunks_plan(buf, width, upper_left, lower_right);
    lemma_flush_block(buf, width, upper_left, lower_right, last_row, x, y);
    let j = y / 8 - upper_left.1 / 8;
    lemma_block_in_concat(a, c, j);
    let k = a.len() + j;
    assert((a + c)[k] is Data);
}

/// Step `j` of the second of two programs is step `a.len() + j` of both together.
proof fn lemma_block_in_concat(a: Seq<StepView>, c: Seq<StepView>, j: int)
    requires
        0 <= j < c.len(),
    ensures
        0 <= a.len() + j < (a + c).len(),
        (a + c)[a.len() + j] == c[j],
{
}

} // verus!
