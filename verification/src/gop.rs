use vstd::prelude::*;

verus! {

use crate::graphics::PixelFormat;
use vstd::arithmetic::mul::{
    lemma_mul_inequality,
    lemma_mul_is_distributive_add_other_way,
    lemma_mul_is_distributive_sub_other_way,
    lemma_mul_nonnegative,
};

/// The named colors of the early console, in red-green-blue order.
#[derive(Clone, Copy, Debug, PartialEq, Eq, Structural)]
pub enum ColorCode {
    Black,
    Gray,
    Blue,
    Green,
    Red,
    Magenta,
    White,
}

/// The red-green-blue-alpha value of a named color.
pub open spec fn spec_color_value(code: ColorCode) -> u32 {
    match code {
        ColorCode::Black => 0x00_00_00_00,
        ColorCode::Gray => 0x22_22_22_00,
        ColorCode::Blue => 0x00_00_ff_00,
        ColorCode::Green => 0x00_ff_00_00,
        ColorCode::Red => 0xff_00_00_00,
        ColorCode::Magenta => 0xff_00_ff_00,
        ColorCode::White => 0xff_ff_ff_00,
    }
}

impl ColorCode {
    /// The red-green-blue-alpha value of this named color.
    pub fn value(&self) -> (r: u32)
        ensures
            r == spec_color_value(*self),
    {
        match *self {
            ColorCode::Black => 0x00_00_00_00,
            ColorCode::Gray => 0x22_22_22_00,
            ColorCode::Blue => 0x00_00_ff_00,
            ColorCode::Green => 0x00_ff_00_00,
            ColorCode::Red => 0xff_00_00_00,
            ColorCode::Magenta => 0xff_00_ff_00,
            ColorCode::White => 0xff_ff_ff_00,
        }
    }
}

/// A 32-bit color in red-green-blue-alpha order, highest byte first.
#[derive(Clone, Copy, Debug, PartialEq, Eq, Structural)]
pub struct Color(pub u32);

/// The four bytes a color is written out as, in red-green-blue order.
pub open spec fn spec_format(value: u32) -> Seq<u8> {
    seq![(value >> 24) as u8, (value >> 16) as u8, (value >> 8) as u8, 0u8]
}

/// The four bytes a color is written out as, in blue-green-red order.
pub open spec fn spec_format_bgr(value: u32) -> Seq<u8> {
    seq![(value >> 8) as u8, (value >> 16) as u8, (value >> 24) as u8, 0u8]
}

impl Color {
    /// Wraps the value of a named color.
    pub fn new(color_code: ColorCode) -> (r: Color)
        ensures
            r.0 == spec_color_value(color_code),
    {
        Color(color_code.value())
    }

    /// The color as red-green-blue bytes, one per channel.
    pub fn format(&self) -> (r: [u8; 4])
        ensures
            r@ == spec_format(self.0),
    {
        let color_code = self.0;
        let bytes = [(color_code >> 24) as u8, (color_code >> 16) as u8, (color_code >> 8) as u8, 0u8];
        proof {
            assert(bytes@ =~= spec_format(self.0));
        }
        bytes
    }

    /// The color as blue-green-red bytes: its `format` with the red and
    /// blue channels exchanged.
    pub fn format_as_bgr(&self) -> (r: [u8; 4])
        ensures
            r@ == spec_format_bgr(self.0),
    {
        let color_code = self.0;
        let bytes = [(color_code >> 8) as u8, (color_code >> 16) as u8, (color_code >> 24) as u8, 0u8];
        proof {
            assert(bytes@ =~= spec_format_bgr(self.0));
        }
        bytes
    }
}

impl From<ColorCode> for Color {
    /// The same wrapping as `Color::new`.
    fn from(c: ColorCode) -> (r: Color) {
        Color(c.value())
    }
}

impl vstd::std_specs::convert::FromSpecImpl<ColorCode> for Color {
    open spec fn obeys_from_spec() -> bool {
        true
    }

    open spec fn from_spec(c: ColorCode) -> Color {
        Color(spec_color_value(c))
    }
}

/// A pixel position on the canvas.
#[derive(Clone, Copy, Debug, PartialEq, Eq, Structural)]
pub struct Coordinates {
    pub x: usize,
    pub y: usize,
}

impl Coordinates {
    /// The position at column `x` of row `y`.
    pub fn new(x: usize, y: usize) -> (r: Coordinates)
        ensures
            r.x == x,
            r.y == y,
    {
        Coordinates { x, y }
    }
}

impl Default for Coordinates {
    /// The top-left corner.
    fn default() -> (r: Coordinates)
        ensures
            r.x == 0,
            r.y == 0,
    {
        Coordinates::new(0, 0)
    }
}

/// The geometry of the loader-reported frame buffer.
#[derive(Clone, Copy, Debug, PartialEq, Eq, Structural)]
pub struct FrameBufferInfo {
    pub horizontal_resolution: usize,
    pub vertical_resolution: usize,
    pub stride: usize,
    pub bytes_per_pixel: usize,
    pub pixel_format: PixelFormat,
}

/// A writer over the linear frame buffer: each pixel takes
/// `bytes_per_pixel` bytes, each row `stride * bytes_per_pixel`.
pub struct Writer {
    pub frame_buffer: Vec<u8>,
    pub info: FrameBufferInfo,
}

impl Writer {
    /// The geometry is consistent: pixels are at most four bytes, rows hold
    /// a whole line, and the buffer holds all rows.
    pub open spec fn wf(self) -> bool {
        &&& 1 <= self.info.bytes_per_pixel <= 4
        &&& self.info.stride >= self.info.horizontal_resolution
        &&& self.frame_buffer@.len() == self.info.vertical_resolution * (self.info.stride
            * self.info.bytes_per_pixel)
    }

    /// The byte offset of the pixel at `(x, y)`: the row takes
    /// `stride * bytes_per_pixel` bytes.
    pub open spec fn spec_offset(self, x: int, y: int) -> int {
        y * (self.info.stride * self.info.bytes_per_pixel) + x * self.info.bytes_per_pixel
    }

    /// The bytes a color is drawn as on this buffer: blue-green-red where
    /// the buffer wants that order, red-green-blue otherwise.
    pub open spec fn spec_color_bytes(self, color: Color) -> Seq<u8> {
        if self.info.pixel_format == PixelFormat::Bgr {
            spec_format_bgr(color.0)
        } else {
            spec_format(color.0)
        }
    }

    /// The pixel at `(x, y)` holds the first `bytes_per_pixel` bytes of the
    /// color's encoding.
    pub open spec fn pixel_drawn(self, x: int, y: int, color: Color) -> bool {
        forall|k: int|
            0 <= k < self.info.bytes_per_pixel ==> self.frame_buffer@[self.spec_offset(x, y) + k]
                == self.spec_color_bytes(color)[k]
    }

    /// Both writers agree on their geometry.
    pub open spec fn same_geometry(new: Writer, old: Writer) -> bool {
        new.info == old.info && new.frame_buffer@.len() == old.frame_buffer@.len()
    }

    /// An in-range pixel's bytes lie inside the buffer.
    pub proof fn lemma_offset_in_bounds(self, x: int, y: int)
        requires
            self.wf(),
            0 <= x < self.info.horizontal_resolution,
            0 <= y < self.info.vertical_resolution,
        ensures
            0 <= y * (self.info.stride * self.info.bytes_per_pixel),
            0 <= x * self.info.bytes_per_pixel,
            0 <= self.spec_offset(x, y),
            self.spec_offset(x, y) + self.info.bytes_per_pixel <= self.frame_buffer@.len(),
            self.frame_buffer@.len() <= usize::MAX,
            self.info.stride * self.info.bytes_per_pixel <= self.frame_buffer@.len(),
    {
        vstd::std_specs::vec::axiom_spec_len(&self.frame_buffer);
        let row = self.info.stride * self.info.bytes_per_pixel;
        lemma_mul_inequality(1, self.info.vertical_resolution as int, row);
        lemma_mul_nonnegative(self.info.stride as int, self.info.bytes_per_pixel as int);
        lemma_mul_nonnegative(y, row);
        lemma_mul_nonnegative(x, self.info.bytes_per_pixel as int);
        lemma_mul_inequality(y + 1, self.info.vertical_resolution as int, row);
        lemma_mul_is_distributive_add_other_way(row, y, 1);
        lemma_mul_inequality(x + 1, self.info.stride as int, self.info.bytes_per_pixel as int);
        lemma_mul_is_distributive_add_other_way(self.info.bytes_per_pixel as int, x, 1);
    }

    /// Distinct in-range pixels occupy disjoint byte ranges.
    pub proof fn lemma_pixels_disjoint(self, x1: int, y1: int, x2: int, y2: int)
        requires
            self.wf(),
            0 <= x1 < self.info.horizontal_resolution,
            0 <= y1 < self.info.vertical_resolution,
            0 <= x2 < self.info.horizontal_resolution,
            0 <= y2 < self.info.vertical_resolution,
            !(x1 == x2 && y1 == y2),
        ensures
            self.spec_offset(x1, y1) + self.info.bytes_per_pixel <= self.spec_offset(x2, y2)
                || self.spec_offset(x2, y2) + self.info.bytes_per_pixel <= self.spec_offset(
                x1,
                y1,
            ),
    {
        let bpp = self.info.bytes_per_pixel as int;
        let row = self.info.stride * self.info.bytes_per_pixel;
        if y1 == y2 {
            if x1 < x2 {
                lemma_mul_inequality(x1 + 1, x2, bpp);
                lemma_mul_is_distributive_add_other_way(bpp, x1, 1);
            } else {
                lemma_mul_inequality(x2 + 1, x1, bpp);
                lemma_mul_is_distributive_add_other_way(bpp, x2, 1);
            }
        } else {
            let (ya, xa, yb, xb) = if y1 < y2 {
                (y1, x1, y2, x2)
            } else {
                (y2, x2, y1, x1)
            };
            lemma_mul_inequality(1, yb - ya, row);
            lemma_mul_is_distributive_sub_other_way(row, yb, ya);
            lemma_mul_inequality(xa + 1, self.info.stride as int, bpp);
            lemma_mul_is_distributive_add_other_way(bpp, xa, 1);
            lemma_mul_nonnegative(xb, bpp);
        }
    }

    /// Takes the frame buffer and its geometry; rejects a geometry whose
    /// rows or buffer cannot hold the pixels it claims.
    pub fn new(frame_buffer: Vec<u8>, info: FrameBufferInfo) -> (r: Option<Writer>)
        ensures
            match r {
                Some(w) => w.wf() && w.frame_buffer == frame_buffer && w.info == info,
                None => !(1 <= info.bytes_per_pixel <= 4 && info.stride
                    >= info.horizontal_resolution && info.stride * info.bytes_per_pixel
                    <= usize::MAX && frame_buffer@.len() == info.vertical_resolution * (info.stride
                    * info.bytes_per_pixel)),
            },
    {
        if info.bytes_per_pixel < 1 || info.bytes_per_pixel > 4 {
            return None;
        }
        if info.stride < info.horizontal_resolution {
            return None;
        }
        let row = match info.stride.checked_mul(info.bytes_per_pixel) {
            Some(row) => row,
            None => {
                return None;
            },
        };
        let expected = match info.vertical_resolution.checked_mul(row) {
            Some(e) => e,
            None => {
                proof {
                    lemma_mul_nonnegative(info.vertical_resolution as int, row as int);
                    vstd::std_specs::vec::axiom_spec_len(&frame_buffer);
                }
                return None;
            },
        };
        if frame_buffer.len() != expected {
            return None;
        }
        Some(Writer { frame_buffer, info })
    }

    /// Wraps a frame buffer the loader may not have supplied: without one
    /// there is nothing to draw into, which is reported as an error, as is
    /// a buffer whose geometry is inconsistent.
    pub fn try_new(frame_buffer: Option<(Vec<u8>, FrameBufferInfo)>) -> (r: Result<
        Writer,
        &'static str,
    >)
        ensures
            match r {
                Ok(w) => w.wf() && (frame_buffer matches Some(p) && w.frame_buffer == p.0
                    && w.info == p.1),
                Err(m) => m@ == "Failed to acquire frame buffer handle"@,
            },
            (frame_buffer matches Some(p) && 1 <= p.1.bytes_per_pixel <= 4 && p.1.stride
                >= p.1.horizontal_resolution && p.1.stride * p.1.bytes_per_pixel <= usize::MAX
                && p.0@.len() == p.1.vertical_resolution * (p.1.stride * p.1.bytes_per_pixel))
                ==> r is Ok,
    {
        match frame_buffer {
            Some((buffer, info)) => match Writer::new(buffer, info) {
                Some(w) => Ok(w),
                None => Err("Failed to acquire frame buffer handle"),
            },
            None => Err("Failed to acquire frame buffer handle"),
        }
    }

    /// The byte offset at which a pixel starts: the pixel's row and column,
    /// each scaled by the bytes they take.
    fn get_offset(&self, position: Coordinates) -> (r: usize)
        requires
            self.wf(),
            position.x < self.info.horizontal_resolution,
            position.y < self.info.vertical_resolution,
        ensures
            r == self.spec_offset(position.x as int, position.y as int),
    {
        proof {
            self.lemma_offset_in_bounds(position.x as int, position.y as int);
            vstd::arithmetic::mul::lemma_mul_is_commutative(
                (self.info.stride * self.info.bytes_per_pixel) as int,
                position.y as int,
            );
            vstd::arithmetic::mul::lemma_mul_is_commutative(
                self.info.bytes_per_pixel as int,
                position.x as int,
            );
        }
        (self.info.stride * self.info.bytes_per_pixel * position.y) + (self.info.bytes_per_pixel
            * position.x)
    }

    /// Draws one pixel: its bytes take the color, encoded for the buffer's
    /// pixel format; every other byte keeps its value.
    pub fn draw(&mut self, position: Coordinates, color: Color)
        requires
            old(self).wf(),
            position.x < old(self).info.horizontal_resolution,
            position.y < old(self).info.vertical_resolution,
        ensures
            final(self).wf(),
            Writer::same_geometry(*final(self), *old(self)),
            final(self).pixel_drawn(position.x as int, position.y as int, color),
            forall|i: int|
                0 <= i < old(self).frame_buffer@.len()
                    && !(old(self).spec_offset(position.x as int, position.y as int) <= i
                    < old(self).spec_offset(position.x as int, position.y as int)
                    + old(self).info.bytes_per_pixel)
                    ==> final(self).frame_buffer@[i] == old(self).frame_buffer@[i],
    {
        proof {
            self.lemma_offset_in_bounds(position.x as int, position.y as int);
        }
        let offset = self.get_offset(position);
        let bytes_per_pixel = self.info.bytes_per_pixel;
        let color_formatted = if self.info.pixel_format == PixelFormat::Bgr {
            color.format_as_bgr()
        } else {
            color.format()
        };
        let mut k: usize = 0;
        while k < bytes_per_pixel
            invariant
                old(self).wf(),
                self.info == old(self).info,
                self.frame_buffer@.len() == old(self).frame_buffer@.len(),
                k <= bytes_per_pixel,
                bytes_per_pixel == self.info.bytes_per_pixel,
                offset == old(self).spec_offset(position.x as int, position.y as int),
                0 <= offset,
                offset + bytes_per_pixel <= self.frame_buffer@.len(),
                self.frame_buffer@.len() <= usize::MAX,
                color_formatted@ == old(self).spec_color_bytes(color),
                forall|j: int|
                    0 <= j < k ==> self.frame_buffer@[offset + j] == color_formatted@[j],
                forall|i: int|
                    0 <= i < old(self).frame_buffer@.len() && !(offset <= i < offset + k)
                        ==> self.frame_buffer@[i] == old(self).frame_buffer@[i],
            decreases bytes_per_pixel - k,
        {
            self.frame_buffer[offset + k] = color_formatted[k];
            k += 1;
        }
    }

    /// Paints every pixel of the buffer with the color.
    pub fn fill(&mut self, color: Color)
        requires
            old(self).wf(),
        ensures
            final(self).wf(),
            Writer::same_geometry(*final(self), *old(self)),
            forall|px: int, py: int|
                0 <= px < old(self).info.horizontal_resolution && 0 <= py < old(
                    self,
                ).info.vertical_resolution ==> final(self).pixel_drawn(px, py, color),
    {
        let ghost dev0 = *self;
        let mut x: usize = 0;
        while x < self.info.horizontal_resolution
            invariant
                self.wf(),
                Writer::same_geometry(*self, dev0),
                x <= dev0.info.horizontal_resolution,
                forall|px: int, py: int|
                    0 <= px < x && 0 <= py < dev0.info.vertical_resolution ==> self.pixel_drawn(
                        px,
                        py,
                        color,
                    ),
            decreases dev0.info.horizontal_resolution - x,
        {
            let mut y: usize = 0;
            while y < self.info.vertical_resolution
                invariant
                    self.wf(),
                    Writer::same_geometry(*self, dev0),
                    x < dev0.info.horizontal_resolution,
                    y <= dev0.info.vertical_resolution,
                    forall|px: int, py: int|
                        0 <= px < x && 0 <= py < dev0.info.vertical_resolution
                            ==> self.pixel_drawn(px, py, color),
                    forall|py: int| 0 <= py < y ==> self.pixel_drawn(x as int, py, color),
                decreases dev0.info.vertical_resolution - y,
            {
                let ghost before = *self;
                self.draw(Coordinates::new(x, y), color);
                proof {
                    assert forall|px: int, py: int|
                        (0 <= px < x as int && 0 <= py < dev0.info.vertical_resolution) || (px
                            == x as int && 0 <= py < y as int + 1) implies self.pixel_drawn(
                        px,
                        py,
                        color,
                    ) by {
                        if !(px == x as int && py == y as int) {
                            assert(before.pixel_drawn(px, py, color));
                            before.lemma_pixels_disjoint(px, py, x as int, y as int);
                            before.lemma_offset_in_bounds(px, py);
                            assert forall|k: int|
                                0 <= k < self.info.bytes_per_pixel implies self.frame_buffer@[self.spec_offset(
                                px,
                                py,
                            ) + k] == self.spec_color_bytes(color)[k] by {
                                assert(before.frame_buffer@[before.spec_offset(px, py) + k]
                                    == before.spec_color_bytes(color)[k]);
                            }
                        }
                    }
                }
                y += 1;
            }
            x += 1;
        }
    }

    /// Paints the whole buffer gray, the console background.
    pub fn clear(&mut self)
        requires
            old(self).wf(),
        ensures
            final(self).wf(),
            Writer::same_geometry(*final(self), *old(self)),
            forall|px: int, py: int|
                0 <= px < old(self).info.horizontal_resolution && 0 <= py < old(
                    self,
                ).info.vertical_resolution ==> final(self).pixel_drawn(
                    px,
                    py,
                    Color(spec_color_value(ColorCode::Gray)),
                ),
    {
        let color = Color::new(ColorCode::Gray);
        self.fill(color);
    }

    /// Paints the rectangle of `dimensions` pixels whose top-left corner is
    /// `start_position`; every pixel outside it keeps its bytes.
    pub fn draw_rectangle(
        &mut self,
        start_position: Coordinates,
        dimensions: Coordinates,
        color_code: Color,
    )
        requires
            old(self).wf(),
            start_position.x + dimensions.x <= old(self).info.horizontal_resolution,
            start_position.y + dimensions.y <= old(self).info.vertical_resolution,
        ensures
            final(self).wf(),
            Writer::same_geometry(*final(self), *old(self)),
            forall|px: int, py: int|
                start_position.x <= px < start_position.x + dimensions.x && start_position.y <= py
                    < start_position.y + dimensions.y ==> final(self).pixel_drawn(
                    px,
                    py,
                    color_code,
                ),
            forall|px: int, py: int|
                0 <= px < old(self).info.horizontal_resolution && 0 <= py < old(
                    self,
                ).info.vertical_resolution && !(start_position.x <= px < start_position.x
                    + dimensions.x && start_position.y <= py < start_position.y + dimensions.y)
                    ==> Writer::pixel_same(*final(self), *old(self), px, py),
    {
        let ghost dev0 = *self;
        let x0 = start_position.x;
        let y0 = start_position.y;
        let mut x: usize = x0;
        while x < x0 + dimensions.x
            invariant
                self.wf(),
                Writer::same_geometry(*self, dev0),
                x0 <= x <= x0 + dimensions.x,
                x0 + dimensions.x <= dev0.info.horizontal_resolution,
                y0 + dimensions.y <= dev0.info.vertical_resolution,
                forall|px: int, py: int|
                    x0 <= px < x && y0 <= py < y0 + dimensions.y ==> self.pixel_drawn(
                        px,
                        py,
                        color_code,
                    ),
                forall|px: int, py: int|
                    0 <= px < dev0.info.horizontal_resolution && 0 <= py
                        < dev0.info.vertical_resolution && !(x0 <= px < x0 + dimensions.x && y0
                        <= py < y0 + dimensions.y) ==> Writer::pixel_same(*self, dev0, px, py),
            decreases x0 + dimensions.x - x,
        {
            let mut y: usize = y0;
            while y < y0 + dimensions.y
                invariant
                    self.wf(),
                    Writer::same_geometry(*self, dev0),
                    x0 <= x < x0 + dimensions.x,
                    y0 <= y <= y0 + dimensions.y,
                    x0 + dimensions.x <= dev0.info.horizontal_resolution,
                    y0 + dimensions.y <= dev0.info.vertical_resolution,
                    forall|px: int, py: int|
                        x0 <= px < x && y0 <= py < y0 + dimensions.y ==> self.pixel_drawn(
                            px,
                            py,
                            color_code,
                        ),
                    forall|py: int|
                        y0 <= py < y ==> self.pixel_drawn(x as int, py, color_code),
                    forall|px: int, py: int|
                        0 <= px < dev0.info.horizontal_resolution && 0 <= py
                            < dev0.info.vertical_resolution && !(x0 <= px < x0 + dimensions.x && y0
                            <= py < y0 + dimensions.y) ==> Writer::pixel_same(*self, dev0, px, py),
                decreases y0 + dimensions.y - y,
            {
                let ghost before = *self;
                self.draw(Coordinates::new(x, y), color_code);
                proof {
                    assert forall|px: int, py: int|
                        (x0 <= px < x as int && y0 <= py < y0 + dimensions.y) || (px == x as int
                            && y0 <= py < y as int + 1) implies self.pixel_drawn(
                        px,
                        py,
                        color_code,
                    ) by {
                        if !(px == x as int && py == y as int) {
                            assert(before.pixel_drawn(px, py, color_code));
                            before.lemma_pixels_disjoint(px, py, x as int, y as int);
                            before.lemma_offset_in_bounds(px, py);
                            assert forall|k: int|
                                0 <= k < self.info.bytes_per_pixel implies self.frame_buffer@[self.spec_offset(
                                px,
                                py,
                            ) + k] == self.spec_color_bytes(color_code)[k] by {
                                assert(before.frame_buffer@[before.spec_offset(px, py) + k]
                                    == before.spec_color_bytes(color_code)[k]);
                            }
                        }
                    }
                    assert forall|px: int, py: int|
                        0 <= px < dev0.info.horizontal_resolution && 0 <= py
                            < dev0.info.vertical_resolution && !(x0 <= px < x0 + dimensions.x && y0
                            <= py < y0 + dimensions.y) implies Writer::pixel_same(
                        *self,
                        dev0,
                        px,
                        py,
                    ) by {
                        assert(Writer::pixel_same(before, dev0, px, py));
                        before.lemma_pixels_disjoint(px, py, x as int, y as int);
                        before.lemma_offset_in_bounds(px, py);
                        assert forall|k: int|
                            0 <= k < dev0.info.bytes_per_pixel implies #[trigger] self.frame_buffer@[dev0.spec_offset(
                            px,
                            py,
                        ) + k] == dev0.frame_buffer@[dev0.spec_offset(px, py) + k] by {
                            assert(before.frame_buffer@[before.spec_offset(px, py) + k]
                                == dev0.frame_buffer@[dev0.spec_offset(px, py) + k]);
                        }
                    }
                }
                y += 1;
            }
            x += 1;
        }
    }

    /// The pixel at `(x, y)` holds the same bytes in both writers.
    pub open spec fn pixel_same(new: Writer, old: Writer, x: int, y: int) -> bool {
        forall|k: int|
            0 <= k < old.info.bytes_per_pixel ==> #[trigger] new.frame_buffer@[old.spec_offset(
                x,
                y,
            ) + k] == old.frame_buffer@[old.spec_offset(x, y) + k]
    }
}

} // verus!
