use vstd::prelude::*;

verus! {

use crate::color::{spec_as_bgr, spec_as_rgb, Color};
use vstd::arithmetic::mul::{
    lemma_mul_inequality,
    lemma_mul_is_distributive_add_other_way,
    lemma_mul_is_distributive_sub_other_way,
    lemma_mul_nonnegative,
};

/// The byte order a frame buffer expects its pixels in.
#[derive(Clone, Copy, Debug, PartialEq, Eq, Structural)]
pub enum PixelFormat {
    Rgb,
    Bgr,
}

/// What every drawing backend offers the layers above it; pixel devices and
/// test doubles implement it.
pub trait GraphicsDevice {
    fn width(&self) -> usize;

    fn height(&self) -> usize;

    fn pitch(&self) -> usize;

    fn pixel_bytes(&self) -> usize;

    fn set_byte(&mut self, offset: usize, value: u8);

    fn set_pixel(&mut self, x: usize, y: usize, color: Color);

    fn fill(&mut self, color: Color);
}

/// A linear frame buffer as the loader hands it over, with its geometry:
/// `pitch` bytes per row, four bytes per pixel.
pub struct GopDevice {
    pub buffer: Vec<u8>,
    pub width: usize,
    pub height: usize,
    pub pitch: usize,
    pub pixel_bytes: usize,
    pub pixel_format: PixelFormat,
}

impl GopDevice {
    /// The geometry is consistent: four bytes per pixel, rows that hold a
    /// whole line of pixels, and a buffer that holds all rows.
    pub open spec fn wf(self) -> bool {
        &&& self.pixel_bytes == 4
        &&& self.pitch >= 4 * self.width
        &&& self.buffer@.len() == self.height * self.pitch
    }

    /// The byte offset of pixel `(x, y)` in the buffer.
    pub open spec fn spec_pixel_offset(self, x: int, y: int) -> int {
        y * self.pitch + x * self.pixel_bytes
    }

    /// The color value encoded the way this device's pixel format wants it.
    pub open spec fn spec_format_color(self, color: Color) -> u32 {
        match self.pixel_format {
            PixelFormat::Rgb => spec_as_rgb(color),
            PixelFormat::Bgr => spec_as_bgr(color),
        }
    }

    /// The four bytes of pixel `(x, y)` hold `value`, highest byte first.
    pub open spec fn pixel_holds(self, x: int, y: int, value: u32) -> bool {
        let offset = self.spec_pixel_offset(x, y);
        &&& self.buffer@[offset] == (value >> 24) as u8
        &&& self.buffer@[offset + 1] == (value >> 16) as u8
        &&& self.buffer@[offset + 2] == (value >> 8) as u8
        &&& self.buffer@[offset + 3] == value as u8
    }

    /// Pixel `(x, y)` holds the same four bytes in both buffers.
    pub open spec fn pixel_unchanged(new: GopDevice, old: GopDevice, x: int, y: int) -> bool {
        let offset = old.spec_pixel_offset(x, y);
        &&& new.buffer@[offset] == old.buffer@[offset]
        &&& new.buffer@[offset + 1] == old.buffer@[offset + 1]
        &&& new.buffer@[offset + 2] == old.buffer@[offset + 2]
        &&& new.buffer@[offset + 3] == old.buffer@[offset + 3]
    }

    /// The geometry of both devices agrees.
    pub open spec fn same_geometry(new: GopDevice, old: GopDevice) -> bool {
        &&& new.width == old.width
        &&& new.height == old.height
        &&& new.pitch == old.pitch
        &&& new.pixel_bytes == old.pixel_bytes
        &&& new.pixel_format == old.pixel_format
        &&& new.buffer@.len() == old.buffer@.len()
    }

    /// An in-range pixel's four bytes lie inside the buffer.
    pub proof fn lemma_pixel_in_bounds(self, x: int, y: int)
        requires
            self.wf(),
            0 <= x < self.width,
            0 <= y < self.height,
        ensures
            0 <= y * self.pitch,
            0 <= x * self.pixel_bytes,
            0 <= self.spec_pixel_offset(x, y),
            self.spec_pixel_offset(x, y) + 4 <= self.buffer@.len(),
            self.buffer@.len() <= usize::MAX,
    {
        vstd::std_specs::vec::axiom_spec_len(&self.buffer);
        lemma_mul_nonnegative(y, self.pitch as int);
        lemma_mul_nonnegative(x, self.pixel_bytes as int);
        lemma_mul_inequality(y + 1, self.height as int, self.pitch as int);
        lemma_mul_is_distributive_add_other_way(self.pitch as int, y, 1);
        lemma_mul_inequality(x + 1, self.width as int, 4);
        lemma_mul_is_distributive_add_other_way(4, x, 1);
    }

    /// Distinct in-range pixels occupy disjoint byte ranges.
    pub proof fn lemma_pixel_ranges_disjoint(self, x1: int, y1: int, x2: int, y2: int)
        requires
            self.wf(),
            0 <= x1 < self.width,
            0 <= y1 < self.height,
            0 <= x2 < self.width,
            0 <= y2 < self.height,
            !(x1 == x2 && y1 == y2),
        ensures
            self.spec_pixel_offset(x1, y1) + 4 <= self.spec_pixel_offset(x2, y2)
                || self.spec_pixel_offset(x2, y2) + 4 <= self.spec_pixel_offset(x1, y1),
    {
        if y1 == y2 {
        } else if y1 < y2 {
            lemma_mul_inequality(1, y2 - y1, self.pitch as int);
            lemma_mul_is_distributive_sub_other_way(self.pitch as int, y2, y1);
            lemma_mul_inequality(x1, self.width - 1, 4);
            lemma_mul_nonnegative(x2, 4);
        } else {
            lemma_mul_inequality(1, y1 - y2, self.pitch as int);
            lemma_mul_is_distributive_sub_other_way(self.pitch as int, y1, y2);
            lemma_mul_inequality(x2, self.width - 1, 4);
            lemma_mul_nonnegative(x1, 4);
        }
    }

    /// Takes the loader-reported frame buffer and its geometry; rejects a
    /// geometry whose rows or buffer cannot hold the pixels it claims.
    pub fn new(
        buffer: Vec<u8>,
        width: usize,
        height: usize,
        stride: usize,
        bytes_per_pixel: usize,
        pixel_format: PixelFormat,
    ) -> (r: Option<GopDevice>)
        ensures
            match r {
                Some(d) => {
                    &&& d.wf()
                    &&& d.buffer == buffer
                    &&& d.width == width
                    &&& d.height == height
                    &&& d.pitch == stride * 4
                    &&& d.pixel_bytes == bytes_per_pixel
                    &&& d.pixel_format == pixel_format
                },
                None => !(bytes_per_pixel == 4 && stride * 4 <= usize::MAX && stride * 4 >= 4
                    * width && buffer@.len() == height * (stride * 4)),
            },
    {
        if bytes_per_pixel != 4 {
            return None;
        }
        let pitch = match stride.checked_mul(4) {
            Some(p) => p,
            None => {
                return None;
            },
        };
        if width > usize::MAX / 4 || pitch < 4 * width {
            return None;
        }
        let expected = match height.checked_mul(pitch) {
            Some(e) => e,
            None => {
                proof {
                    lemma_mul_nonnegative(height as int, pitch as int);
                    vstd::std_specs::vec::axiom_spec_len(&buffer);
                }
                return None;
            },
        };
        if buffer.len() != expected {
            return None;
        }
        Some(
            GopDevice {
                buffer,
                width,
                height,
                pitch,
                pixel_bytes: bytes_per_pixel,
                pixel_format,
            },
        )
    }

    /// The width of the device in pixels.
    pub fn width(&self) -> (r: usize)
        ensures
            r == self.width,
    {
        self.width
    }

    /// The height of the device in pixels.
    pub fn height(&self) -> (r: usize)
        ensures
            r == self.height,
    {
        self.height
    }

    /// The number of bytes per buffer row.
    pub fn pitch(&self) -> (r: usize)
        ensures
            r == self.pitch,
    {
        self.pitch
    }

    /// The number of bytes per pixel.
    pub fn pixel_bytes(&self) -> (r: usize)
        ensures
            r == self.pixel_bytes,
    {
        self.pixel_bytes
    }

    /// The color value encoded for this device's pixel format.
    pub fn format_color(&self, color: Color) -> (r: u32)
        ensures
            r == self.spec_format_color(color),
    {
        match self.pixel_format {
            PixelFormat::Rgb => color.as_rgb(),
            PixelFormat::Bgr => color.as_bgr(),
        }
    }

    /// The byte offset at which pixel `(x, y)` starts.
    pub fn pixel_start_offset(&self, x: usize, y: usize) -> (r: usize)
        requires
            self.wf(),
            x < self.width,
            y < self.height,
        ensures
            r == self.spec_pixel_offset(x as int, y as int),
    {
        proof {
            self.lemma_pixel_in_bounds(x as int, y as int);
        }
        y * self.pitch + x * self.pixel_bytes
    }

    /// Overwrites one byte of the buffer.
    pub fn set_byte(&mut self, offset: usize, value: u8)
        requires
            old(self).wf(),
            offset < old(self).buffer@.len(),
        ensures
            final(self).wf(),
            GopDevice::same_geometry(*final(self), *old(self)),
            final(self).buffer@ == old(self).buffer@.update(offset as int, value),
    {
        self.buffer[offset] = value;
    }

    /// Writes one pixel: its four bytes take the color, encoded for the
    /// device's format, highest byte first; every other byte keeps its
    /// value.
    pub fn set_pixel(&mut self, x: usize, y: usize, color: Color)
        requires
            old(self).wf(),
            x < old(self).width,
            y < old(self).height,
        ensures
            final(self).wf(),
            GopDevice::same_geometry(*final(self), *old(self)),
            final(self).pixel_holds(x as int, y as int, old(self).spec_format_color(color)),
            forall|i: int|
                0 <= i < old(self).buffer@.len()
                    && !(old(self).spec_pixel_offset(x as int, y as int) <= i
                    < old(self).spec_pixel_offset(x as int, y as int) + 4)
                    ==> final(self).buffer@[i] == old(self).buffer@[i],
    {
        proof {
            self.lemma_pixel_in_bounds(x as int, y as int);
        }
        let offset = y * self.pitch + x * self.pixel_bytes;
        let value = self.format_color(color);
        self.buffer[offset] = (value >> 24) as u8;
        self.buffer[offset + 1] = (value >> 16) as u8;
        self.buffer[offset + 2] = (value >> 8) as u8;
        self.buffer[offset + 3] = value as u8;
    }

    /// Paints every pixel of the device with the color.
    pub fn fill(&mut self, color: Color)
        requires
            old(self).wf(),
        ensures
            final(self).wf(),
            GopDevice::same_geometry(*final(self), *old(self)),
            forall|px: int, py: int|
                0 <= px < old(self).width && 0 <= py < old(self).height
                    ==> final(self).pixel_holds(px, py, old(self).spec_format_color(color)),
    {
        let ghost dev0 = *self;
        let mut y: usize = 0;
        while y < self.height
            invariant
                self.wf(),
                GopDevice::same_geometry(*self, dev0),
                y <= self.height,
                forall|px: int, py: int|
                    0 <= px < dev0.width && 0 <= py < y ==> self.pixel_holds(
                        px,
                        py,
                        dev0.spec_format_color(color),
                    ),
            decreases self.height - y,
        {
            let mut x: usize = 0;
            while x < self.width
                invariant
                    self.wf(),
                    GopDevice::same_geometry(*self, dev0),
                    x <= self.width,
                    y < self.height,
                    forall|px: int, py: int|
                        0 <= px < dev0.width && 0 <= py < y ==> self.pixel_holds(
                            px,
                            py,
                            dev0.spec_format_color(color),
                        ),
                    forall|px: int|
                        0 <= px < x ==> self.pixel_holds(
                            px,
                            y as int,
                            dev0.spec_format_color(color),
                        ),
                decreases self.width - x,
            {
                let ghost before = *self;
                self.set_pixel(x, y, color);
                proof {
                    assert forall|px: int, py: int|
                        (0 <= px < dev0.width && 0 <= py < y as int) || (0 <= px < x as int + 1
                            && py == y as int) implies self.pixel_holds(
                        px,
                        py,
                        dev0.spec_format_color(color),
                    ) by {
                        if px == x as int && py == y as int {
                        } else {
                            assert(before.pixel_holds(px, py, dev0.spec_format_color(color)));
                            before.lemma_pixel_ranges_disjoint(px, py, x as int, y as int);
                            before.lemma_pixel_in_bounds(px, py);
                        }
                    }
                }
                x += 1;
            }
            y += 1;
        }
    }

    /// Paints the `size`-by-`size` square whose corner is `(x, y)`; every
    /// pixel outside the square keeps its value.
    pub fn draw_square(&mut self, x: usize, y: usize, size: usize, color: Color)
        requires
            old(self).wf(),
            x + size <= old(self).width,
            y + size <= old(self).height,
        ensures
            final(self).wf(),
            GopDevice::same_geometry(*final(self), *old(self)),
            forall|px: int, py: int|
                x <= px < x + size && y <= py < y + size ==> final(self).pixel_holds(
                    px,
                    py,
                    old(self).spec_format_color(color),
                ),
            forall|px: int, py: int|
                0 <= px < old(self).width && 0 <= py < old(self).height && !(x <= px < x + size
                    && y <= py < y + size) ==> GopDevice::pixel_unchanged(
                    *final(self),
                    *old(self),
                    px,
                    py,
                ),
    {
        let ghost dev0 = *self;
        let mut cx: usize = x;
        while cx < x + size
            invariant
                self.wf(),
                GopDevice::same_geometry(*self, dev0),
                x <= cx <= x + size,
                x + size <= dev0.width,
                y + size <= dev0.height,
                forall|px: int, py: int|
                    x <= px < cx && y <= py < y + size ==> self.pixel_holds(
                        px,
                        py,
                        dev0.spec_format_color(color),
                    ),
                forall|px: int, py: int|
                    0 <= px < dev0.width && 0 <= py < dev0.height && !(x <= px < x + size && y
                        <= py < y + size) ==> GopDevice::pixel_unchanged(*self, dev0, px, py),
            decreases x + size - cx,
        {
            let mut cy: usize = y;
            while cy < y + size
                invariant
                    self.wf(),
                    GopDevice::same_geometry(*self, dev0),
                    x <= cx < x + size,
                    y <= cy <= y + size,
                    x + size <= dev0.width,
                    y + size <= dev0.height,
                    forall|px: int, py: int|
                        x <= px < cx && y <= py < y + size ==> self.pixel_holds(
                            px,
                            py,
                            dev0.spec_format_color(color),
                        ),
                    forall|py: int|
                        y <= py < cy ==> self.pixel_holds(
                            cx as int,
                            py,
                            dev0.spec_format_color(color),
                        ),
                    forall|px: int, py: int|
                        0 <= px < dev0.width && 0 <= py < dev0.height && !(x <= px < x + size
                            && y <= py < y + size) ==> GopDevice::pixel_unchanged(
                            *self,
                            dev0,
                            px,
                            py,
                        ),
                decreases y + size - cy,
            {
                let ghost before = *self;
                self.set_pixel(cx, cy, color);
                proof {
                    assert forall|px: int, py: int|
                        (x <= px < cx as int && y <= py < y + size) || (px == cx as int && y <= py
                            < cy as int + 1) implies self.pixel_holds(
                        px,
                        py,
                        dev0.spec_format_color(color),
                    ) by {
                        if px == cx as int && py == cy as int {
                        } else {
                            assert(before.pixel_holds(px, py, dev0.spec_format_color(color)));
                            before.lemma_pixel_ranges_disjoint(px, py, cx as int, cy as int);
                            before.lemma_pixel_in_bounds(px, py);
                        }
                    }
                    assert forall|px: int, py: int|
                        0 <= px < dev0.width && 0 <= py < dev0.height && !(x <= px < x + size && y
                            <= py < y + size) implies GopDevice::pixel_unchanged(
                        *self,
                        dev0,
                        px,
                        py,
                    ) by {
                        assert(GopDevice::pixel_unchanged(before, dev0, px, py));
                        before.lemma_pixel_ranges_disjoint(px, py, cx as int, cy as int);
                        before.lemma_pixel_in_bounds(px, py);
                    }
                }
                cy += 1;
            }
            cx += 1;
        }
    }
}

} // verus!
