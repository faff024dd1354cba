use vstd::prelude::*;

verus! {

use crate::font::{basic_glyph, glyph_of};
use crate::gop::{spec_color_value, Color, ColorCode, Coordinates, Writer};
use vstd::arithmetic::mul::{lemma_mul_inequality, lemma_mul_nonnegative};

/// A character cell on the console grid: column `x` of row `y`.
#[derive(Clone, Copy, Debug, PartialEq, Eq, Structural)]
pub struct Position {
    pub x: usize,
    pub y: usize,
}

impl Position {
    /// The cell at column `x` of row `y`.
    pub fn new(x: usize, y: usize) -> (r: Position)
        ensures
            r.x == x,
            r.y == y,
    {
        Position { x, y }
    }

    /// The number of cells in a grid of these dimensions.
    pub fn flat(&self) -> (r: usize)
        requires
            self.x * self.y <= usize::MAX,
        ensures
            r == self.x * self.y,
    {
        proof {
            lemma_mul_nonnegative(self.x as int, self.y as int);
        }
        self.x * self.y
    }
}

impl Default for Position {
    /// The top-left cell.
    fn default() -> (r: Position)
        ensures
            r.x == 0,
            r.y == 0,
    {
        Position::new(0, 0)
    }
}

/// The four directions the cursor can be moved in.
#[derive(Clone, Copy, Debug, PartialEq, Eq, Structural)]
pub enum Direction {
    Left,
    Right,
    Up,
    Down,
}

/// The character grid kept behind the pixel buffer, row-major: what each
/// cell currently shows, if anything.
pub struct BackBuffer {
    pub inner: Vec<Option<char>>,
    pub capacity: usize,
    pub width: usize,
}

/// The row-major sequence after scrolling one row up: each cell takes the
/// value of the cell one row below it, and the last row is cleared.
pub open spec fn shift_rows(cells: Seq<Option<char>>, width: int) -> Seq<Option<char>> {
    Seq::new(cells.len(), |i: int| if i < cells.len() - width {
        cells[i + width]
    } else {
        None
    })
}

impl BackBuffer {
    /// The vector holds exactly `capacity` cells.
    pub open spec fn wf(self) -> bool {
        self.inner@.len() == self.capacity
    }

    /// The index of a cell in the row-major vector.
    pub open spec fn spec_index_of(self, position: Position) -> int {
        position.y * self.width + position.x
    }

    /// An empty grid of the given dimensions.
    pub fn new(dimensions: Position) -> (r: BackBuffer)
        requires
            dimensions.x * dimensions.y <= usize::MAX,
        ensures
            r.wf(),
            r.capacity == dimensions.x * dimensions.y,
            r.width == dimensions.x,
            forall|i: int| 0 <= i < r.capacity ==> r.inner@[i] is None,
    {
        let capacity = dimensions.flat();
        let inner = vec![None::<char>; capacity];
        BackBuffer { inner, capacity, width: dimensions.x }
    }

    /// The index of a cell, row-major.
    fn index(&self, position: Position) -> (r: usize)
        requires
            self.wf(),
            self.spec_index_of(position) < self.capacity,
            position.x < self.width || (position.x == 0 && self.width == 0),
        ensures
            r == self.spec_index_of(position),
    {
        proof {
            lemma_mul_nonnegative(position.y as int, self.width as int);
        }
        (position.y * self.width) + position.x
    }

    /// What the cell at `position` shows.
    pub fn get(&self, position: Position) -> (r: Option<char>)
        requires
            self.wf(),
            self.spec_index_of(position) < self.capacity,
            position.x < self.width || (position.x == 0 && self.width == 0),
        ensures
            r == self.inner@[self.spec_index_of(position)],
    {
        let i = self.index(position);
        self.inner[i]
    }

    /// Sets what the cell at `position` shows.
    pub fn set(&mut self, position: Position, c: Option<char>)
        requires
            old(self).wf(),
            old(self).spec_index_of(position) < old(self).capacity,
            position.x < old(self).width || (position.x == 0 && old(self).width == 0),
        ensures
            final(self).wf(),
            final(self).capacity == old(self).capacity,
            final(self).width == old(self).width,
            final(self).inner@ == old(self).inner@.update(
                old(self).spec_index_of(position),
                c,
            ),
    {
        let i = self.index(position);
        self.set_index(i, c);
    }

    /// Sets the `i`-th cell, row-major.
    pub fn set_index(&mut self, i: usize, c: Option<char>)
        requires
            old(self).wf(),
            i < old(self).capacity,
        ensures
            final(self).wf(),
            final(self).capacity == old(self).capacity,
            final(self).width == old(self).width,
            final(self).inner@ == old(self).inner@.update(i as int, c),
    {
        self.inner[i] = c;
    }

    /// Empties every cell.
    pub fn clear(&mut self)
        requires
            old(self).wf(),
        ensures
            final(self).wf(),
            final(self).capacity == old(self).capacity,
            final(self).width == old(self).width,
            forall|i: int| 0 <= i < final(self).capacity ==> final(self).inner@[i] is None,
    {
        let mut i: usize = 0;
        while i < self.capacity
            invariant
                self.wf(),
                self.capacity == old(self).capacity,
                self.width == old(self).width,
                i <= self.capacity,
                forall|j: int| 0 <= j < i ==> self.inner@[j] is None,
            decreases self.capacity - i,
        {
            self.set_index(i, None);
            i += 1;
        }
    }

    /// Scrolls the grid one row up: every cell takes the value of the cell
    /// one row below it, and the last row is emptied.
    pub fn shift(&mut self)
        requires
            old(self).wf(),
            old(self).width <= old(self).capacity,
        ensures
            final(self).wf(),
            final(self).capacity == old(self).capacity,
            final(self).width == old(self).width,
            final(self).inner@ == shift_rows(old(self).inner@, old(self).width as int),
    {
        let limit = self.capacity - self.width;
        let mut i: usize = 0;
        while i < limit
            invariant
                self.wf(),
                self.capacity == old(self).capacity,
                self.width == old(self).width,
                limit == self.capacity - self.width,
                i <= limit,
                forall|j: int| i <= j < self.capacity ==> self.inner@[j] == old(self).inner@[j],
                forall|j: int|
                    0 <= j < i ==> self.inner@[j] == old(self).inner@[j + self.width],
            decreases limit - i,
        {
            let moved = self.inner[i + self.width];
            self.set_index(i, moved);
            i += 1;
        }
        let mut k: usize = limit;
        while k < self.capacity
            invariant
                self.wf(),
                self.capacity == old(self).capacity,
                self.width == old(self).width,
                limit == self.capacity - self.width,
                limit <= k <= self.capacity,
                forall|j: int|
                    0 <= j < limit ==> self.inner@[j] == old(self).inner@[j + self.width],
                forall|j: int| limit <= j < k ==> self.inner@[j] is None,
            decreases self.capacity - k,
        {
            self.set_index(k, None);
            k += 1;
        }
        proof {
            assert(self.inner@ =~= shift_rows(old(self).inner@, old(self).width as int));
        }
    }
}

/// Whether the glyph lights the pixel at column `gx` of its row `gy`: the
/// low bit of a row byte is the leftmost column.
pub open spec fn glyph_bit(glyph: Seq<u8>, gx: int, gy: int) -> bool {
    (glyph[gy] >> (gx as u8)) & 1 == 1
}

/// The color a glyph paints the pixel at `(gx, gy)` of its cell: white
/// where the glyph is lit, black elsewhere.
pub open spec fn glyph_color(glyph: Seq<u8>, gx: int, gy: int) -> Color {
    if glyph_bit(glyph, gx, gy) {
        Color(spec_color_value(ColorCode::White))
    } else {
        Color(spec_color_value(ColorCode::Black))
    }
}

/// The pixel at `(gx, gy)` of the cell whose top-left pixel is
/// `(x0, y0)` shows the glyph's color for that spot.
pub open spec fn glyph_pixel_drawn(
    w: Writer,
    glyph: Seq<u8>,
    x0: int,
    y0: int,
    gx: int,
    gy: int,
) -> bool {
    w.pixel_drawn(x0 + gx, y0 + gy, glyph_color(glyph, gx, gy))
}

/// Every pixel of the eight-by-eight cell at column `cx` of row `cy`
/// shows the glyph's color for its spot.
pub open spec fn cell_rendered(w: Writer, glyph: Seq<u8>, cx: int, cy: int) -> bool {
    forall|gx: int, gy: int|
        0 <= gx < 8 && 0 <= gy < 8 ==> #[trigger] glyph_pixel_drawn(
            w,
            glyph,
            8 * cx,
            8 * cy,
            gx,
            gy,
        )
}

/// Drawing into one cell leaves every other cell's rendering alone:
/// knowing only that the bytes outside the written cell's pixel block
/// kept their values, a cell rendered before is rendered still.
pub proof fn lemma_other_cell_rendering_preserved(
    pre: Writer,
    post: Writer,
    glyph: Seq<u8>,
    cx: int,
    cy: int,
    dx: int,
    dy: int,
    dimensions: Position,
)
    requires
        pre.wf(),
        Writer::same_geometry(post, pre),
        0 <= cx < dimensions.x,
        0 <= cy < dimensions.y,
        0 <= dx < dimensions.x,
        0 <= dy < dimensions.y,
        dimensions.x * 8 <= pre.info.horizontal_resolution,
        dimensions.y * 8 <= pre.info.vertical_resolution,
        !(cx == dx && cy == dy),
        forall|px: int, py: int|
            0 <= px < pre.info.horizontal_resolution && 0 <= py < pre.info.vertical_resolution
                && !(dx * 8 <= px < dx * 8 + 8 && dy * 8 <= py < dy * 8 + 8)
                ==> Writer::pixel_same(post, pre, px, py),
        cell_rendered(pre, glyph, cx, cy),
    ensures
        cell_rendered(post, glyph, cx, cy),
{
    assert forall|gx: int, gy: int|
        0 <= gx < 8 && 0 <= gy < 8 implies #[trigger] glyph_pixel_drawn(
        post,
        glyph,
        8 * cx,
        8 * cy,
        gx,
        gy,
    ) by {
        let px = 8 * cx + gx;
        let py = 8 * cy + gy;
        let color = glyph_color(glyph, gx, gy);
        assert(glyph_pixel_drawn(pre, glyph, 8 * cx, 8 * cy, gx, gy));
        assert(Writer::pixel_same(post, pre, px, py));
        assert forall|k: int|
            0 <= k < post.info.bytes_per_pixel implies #[trigger] post.frame_buffer@[post.spec_offset(
            px,
            py,
        ) + k] == post.spec_color_bytes(color)[k] by {
            assert(pre.frame_buffer@[pre.spec_offset(px, py) + k] == pre.spec_color_bytes(
                color,
            )[k]);
            assert(post.frame_buffer@[pre.spec_offset(px, py) + k] == pre.frame_buffer@[pre.spec_offset(
                px,
                py,
            ) + k]);
        }
    }
}

/// The pixel canvas a console draws its cells onto, eight pixels a side
/// per cell.
pub struct FrontBuffer(pub Writer);

impl FrontBuffer {
    /// Wraps the pixel writer.
    pub fn new(writer: Writer) -> (r: FrontBuffer)
        ensures
            r.0 == writer,
    {
        FrontBuffer(writer)
    }

    /// The glyph the built-in font has for `c`, or an error for a
    /// character it does not cover.
    fn render_char(&self, c: char) -> (r: Result<[u8; 8], &'static str>)
        ensures
            match r {
                Ok(g) => (c as u32) < 128 && g@ == glyph_of(c),
                Err(m) => (c as u32) >= 128 && m@ == "Invalid keycode"@,
            },
    {
        match basic_glyph(c) {
            Some(rendered_char) => Ok(rendered_char),
            None => Err("Invalid keycode"),
        }
    }

    /// The top-left pixel of a character cell.
    fn get_offset(&self, position: Position) -> (r: Position)
        requires
            position.x * 8 + 8 <= usize::MAX,
            position.y * 8 + 8 <= usize::MAX,
        ensures
            r.x == position.x * 8,
            r.y == position.y * 8,
    {
        proof {
            lemma_mul_nonnegative(position.x as int, 8);
            lemma_mul_nonnegative(position.y as int, 8);
        }
        Position::new(position.x * 8, position.y * 8)
    }

    /// Draws the glyph of `c` into the cell at `position`: each of the 64
    /// cell pixels is painted white where the glyph is lit and black where
    /// it is not. A character the font does not cover draws nothing, and
    /// every pixel outside the cell keeps its bytes either way.
    pub fn put_char(&mut self, c: char, position: Position)
        requires
            old(self).0.wf(),
            position.x * 8 + 8 <= old(self).0.info.horizontal_resolution,
            position.y * 8 + 8 <= old(self).0.info.vertical_resolution,
        ensures
            final(self).0.wf(),
            Writer::same_geometry(final(self).0, old(self).0),
            (c as u32) < 128 ==> forall|gx: int, gy: int|
                0 <= gx < 8 && 0 <= gy < 8 ==> #[trigger] glyph_pixel_drawn(
                    final(self).0,
                    glyph_of(c),
                    position.x * 8,
                    position.y * 8,
                    gx,
                    gy,
                ),
            (c as u32) >= 128 ==> final(self).0 == old(self).0,
            forall|px: int, py: int|
                0 <= px < old(self).0.info.horizontal_resolution && 0 <= py < old(
                    self,
                ).0.info.vertical_resolution && !(position.x * 8 <= px < position.x * 8 + 8
                    && position.y * 8 <= py < position.y * 8 + 8) ==> Writer::pixel_same(
                    final(self).0,
                    old(self).0,
                    px,
                    py,
                ),
    {
        let rendered_char = match self.render_char(c) {
            Ok(rendered_char) => rendered_char,
            Err(_) => {
                return ;
            },
        };
        let offset = self.get_offset(position);
        let ghost dev0 = self.0;
        let ghost glyph = glyph_of(c);
        let x0 = offset.x;
        let y0 = offset.y;
        let mut gy: usize = 0;
        while gy < 8
            invariant
                self.0.wf(),
                Writer::same_geometry(self.0, dev0),
                gy <= 8,
                x0 == position.x * 8,
                y0 == position.y * 8,
                x0 + 8 <= dev0.info.horizontal_resolution,
                y0 + 8 <= dev0.info.vertical_resolution,
                rendered_char@ == glyph,
                forall|ax: int, ay: int|
                    0 <= ax < 8 && 0 <= ay < gy ==> glyph_pixel_drawn(
                        self.0,
                        glyph,
                        x0 as int,
                        y0 as int,
                        ax,
                        ay,
                    ),
                forall|px: int, py: int|
                    0 <= px < dev0.info.horizontal_resolution && 0 <= py
                        < dev0.info.vertical_resolution && !(x0 <= px < x0 + 8 && y0 <= py < y0
                        + 8) ==> Writer::pixel_same(self.0, dev0, px, py),
            decreases 8 - gy,
        {
            let byte = rendered_char[gy];
            let mut gx: usize = 0;
            while gx < 8
                invariant
                    self.0.wf(),
                    Writer::same_geometry(self.0, dev0),
                    gy < 8,
                    gx <= 8,
                    x0 == position.x * 8,
                    y0 == position.y * 8,
                    x0 + 8 <= dev0.info.horizontal_resolution,
                    y0 + 8 <= dev0.info.vertical_resolution,
                    rendered_char@ == glyph,
                    byte == glyph[gy as int],
                    forall|ax: int, ay: int|
                        0 <= ax < 8 && 0 <= ay < gy ==> glyph_pixel_drawn(
                            self.0,
                            glyph,
                            x0 as int,
                            y0 as int,
                            ax,
                            ay,
                        ),
                    forall|ax: int|
                        0 <= ax < gx ==> glyph_pixel_drawn(
                            self.0,
                            glyph,
                            x0 as int,
                            y0 as int,
                            ax,
                            gy as int,
                        ),
                    forall|px: int, py: int|
                        0 <= px < dev0.info.horizontal_resolution && 0 <= py
                            < dev0.info.vertical_resolution && !(x0 <= px < x0 + 8 && y0 <= py < y0
                            + 8) ==> Writer::pixel_same(self.0, dev0, px, py),
                decreases 8 - gx,
            {
                let bit = gx as u8;
                let lit = byte & (1u8 << bit) != 0;
                proof {
                    assert(bit < 8 ==> ((byte & (1u8 << bit) != 0) == ((byte >> bit) & 1 == 1)))
                        by (bit_vector);
                }
                let color = if lit {
                    Color::new(ColorCode::White)
                } else {
                    Color::new(ColorCode::Black)
                };
                let ghost before = self.0;
                self.0.draw(Coordinates::new(x0 + gx, y0 + gy), color);
                proof {
                    assert(color == glyph_color(glyph, gx as int, gy as int));
                    assert forall|ax: int, ay: int|
                        (0 <= ax < 8 && 0 <= ay < gy) || (ay == gy as int && 0 <= ax < gx
                            + 1) implies glyph_pixel_drawn(
                        self.0,
                        glyph,
                        x0 as int,
                        y0 as int,
                        ax,
                        ay,
                    ) by {
                        if !(ax == gx as int && ay == gy as int) {
                            let px = x0 + ax;
                            let py = y0 + ay;
                            let pixel_color = glyph_color(glyph, ax, ay);
                            assert(glyph_pixel_drawn(before, glyph, x0 as int, y0 as int, ax, ay));
                            assert(before.pixel_drawn(px, py, pixel_color));
                            before.lemma_pixels_disjoint(px, py, x0 + gx, y0 + gy);
                            before.lemma_offset_in_bounds(px, py);
                            assert forall|k: int|
                                0 <= k < self.0.info.bytes_per_pixel implies #[trigger] self.0.frame_buffer@[self.0.spec_offset(
                                px,
                                py,
                            ) + k] == self.0.spec_color_bytes(pixel_color)[k] by {
                                assert(before.frame_buffer@[before.spec_offset(px, py) + k]
                                    == before.spec_color_bytes(pixel_color)[k]);
                            }
                        }
                    }
                    assert forall|px: int, py: int|
                        0 <= px < dev0.info.horizontal_resolution && 0 <= py
                            < dev0.info.vertical_resolution && !(x0 <= px < x0 + 8 && y0 <= py < y0
                            + 8) implies Writer::pixel_same(self.0, dev0, px, py) by {
                        assert(Writer::pixel_same(before, dev0, px, py));
                        before.lemma_pixels_disjoint(px, py, x0 + gx, y0 + gy);
                        before.lemma_offset_in_bounds(px, py);
                        assert forall|k: int|
                            0 <= k < dev0.info.bytes_per_pixel implies #[trigger] self.0.frame_buffer@[dev0.spec_offset(
                            px,
                            py,
                        ) + k] == dev0.frame_buffer@[dev0.spec_offset(px, py) + k] by {
                            assert(before.frame_buffer@[before.spec_offset(px, py) + k]
                                == dev0.frame_buffer@[dev0.spec_offset(px, py) + k]);
                        }
                    }
                }
                gx += 1;
            }
            gy += 1;
        }
    }

    /// Paints the whole canvas with the console background.
    pub fn clear(&mut self)
        requires
            old(self).0.wf(),
        ensures
            final(self).0.wf(),
            Writer::same_geometry(final(self).0, old(self).0),
            forall|px: int, py: int|
                0 <= px < old(self).0.info.horizontal_resolution && 0 <= py < old(
                    self,
                ).0.info.vertical_resolution ==> final(self).0.pixel_drawn(
                    px,
                    py,
                    Color(spec_color_value(ColorCode::Gray)),
                ),
    {
        self.0.clear();
    }
}

/// Writing one character into the grid: the cell under the cursor takes
/// it, and the cursor advances — to the next column, to the start of the
/// next row at a row's end, or, at the bottom-right cell, the grid
/// scrolls one row up and the cursor returns to the start of its row.
pub open spec fn cell_write(
    cells: Seq<Option<char>>,
    position: Position,
    dimensions: Position,
    c: char,
) -> (Seq<Option<char>>, Position) {
    let updated = cells.update(position.y * dimensions.x + position.x, Some(c));
    if position.x + 1 < dimensions.x {
        (updated, Position { x: (position.x + 1) as usize, y: position.y })
    } else if position.y + 1 < dimensions.y {
        (updated, Position { x: 0, y: (position.y + 1) as usize })
    } else {
        (shift_rows(updated, dimensions.x as int), Position { x: 0, y: position.y })
    }
}

/// `count` spaces written one after another at the cursor.
pub open spec fn write_spaces(
    cells: Seq<Option<char>>,
    position: Position,
    dimensions: Position,
    count: nat,
) -> (Seq<Option<char>>, Position)
    decreases count,
{
    if count == 0 {
        (cells, position)
    } else {
        let (cells2, position2) = cell_write(cells, position, dimensions, ' ');
        write_spaces(cells2, position2, dimensions, (count - 1) as nat)
    }
}

/// One character handled by the console: newline moves to the next row,
/// carriage return to the start of the row, tab writes four spaces, and
/// anything else lands in the cell under the cursor.
pub open spec fn console_char_step(
    cells: Seq<Option<char>>,
    position: Position,
    dimensions: Position,
    c: char,
) -> (Seq<Option<char>>, Position) {
    if c == '\n' {
        let (p, scrolled) = position_next_row(dimensions, position);
        ((if scrolled {
            shift_rows(cells, dimensions.x as int)
        } else {
            cells
        }), p)
    } else if c == '\r' {
        (cells, Position { x: 0, y: position.y })
    } else if c == '\t' {
        write_spaces(cells, position, dimensions, 4)
    } else {
        cell_write(cells, position, dimensions, c)
    }
}

/// A whole string handled by the console, one character at a time.
pub open spec fn console_write(
    cells: Seq<Option<char>>,
    position: Position,
    dimensions: Position,
    s: Seq<char>,
) -> (Seq<Option<char>>, Position)
    decreases s.len(),
{
    if s.len() == 0 {
        (cells, position)
    } else {
        let (cells2, position2) = console_char_step(cells, position, dimensions, s[0]);
        console_write(cells2, position2, dimensions, s.skip(1))
    }
}

/// Where the cursor lands one step left of `position`: the previous
/// column, or the last column of the previous row, or, at the top-left
/// cell, where it was.
pub open spec fn position_left_of(dimensions: Position, position: Position) -> Position {
    if position.x > 0 {
        Position { x: (position.x - 1) as usize, y: position.y }
    } else if position.y > 0 {
        Position { x: (dimensions.x - 1) as usize, y: (position.y - 1) as usize }
    } else {
        position
    }
}

/// Where the cursor lands one row down (the start of the next row), and
/// whether stepping off the last row scrolls the grid instead.
pub open spec fn position_next_row(dimensions: Position, position: Position) -> (Position, bool) {
    if position.y + 1 < dimensions.y {
        (Position { x: 0, y: (position.y + 1) as usize }, false)
    } else {
        (Position { x: 0, y: position.y }, true)
    }
}

/// Where the cursor lands one row up: the end of the previous row, or
/// where it was on the first row.
pub open spec fn position_prev_row(dimensions: Position, position: Position) -> Position {
    if position.y > 0 {
        Position { x: (dimensions.x - 1) as usize, y: (position.y - 1) as usize }
    } else {
        position
    }
}

/// The text console: a character grid kept behind a pixel canvas, with a
/// cursor.
pub struct TextWriter {
    pub front: FrontBuffer,
    pub back: BackBuffer,
    pub position: Position,
    pub dimensions: Position,
}

impl TextWriter {
    /// The console invariant: the canvas is consistent, the grid matches
    /// the dimensions, the cursor is inside the grid, and every cell's
    /// eight-by-eight pixels fit on the canvas.
    pub open spec fn wf(self) -> bool {
        &&& self.front.0.wf()
        &&& self.back.wf()
        &&& self.back.capacity == self.dimensions.x * self.dimensions.y
        &&& self.back.width == self.dimensions.x
        &&& 1 <= self.dimensions.x
        &&& 1 <= self.dimensions.y
        &&& self.position.x < self.dimensions.x
        &&& self.position.y < self.dimensions.y
        &&& self.dimensions.x * 8 <= self.front.0.info.horizontal_resolution
        &&& self.dimensions.y * 8 <= self.front.0.info.vertical_resolution
    }

    /// The cell at column `cx` of row `cy` shows what the grid holds
    /// there: a character the font covers has its glyph drawn; an empty
    /// cell, or one holding a character the font lacks, claims nothing.
    pub open spec fn cell_shown(self, cx: int, cy: int) -> bool {
        match self.back.inner@[cy * self.back.width + cx] {
            Some(c) => (c as u32) < 128 ==> cell_rendered(self.front.0, glyph_of(c), cx, cy),
            None => true,
        }
    }

    /// The canvas shows the grid: every cell shows its character. The
    /// console's operations keep this, so that what the grid says is on
    /// screen really is.
    pub open spec fn canvas_shows_grid(self) -> bool {
        forall|cx: int, cy: int|
            0 <= cx < self.dimensions.x && 0 <= cy < self.dimensions.y
                ==> #[trigger] self.cell_shown(cx, cy)
    }

    /// A console that differs from one whose canvas shows its grid only
    /// in its cursor shows its grid still.
    proof fn lemma_canvas_carries(pre: TextWriter, post: TextWriter)
        requires
            pre.canvas_shows_grid(),
            post.back.inner@ == pre.back.inner@,
            post.back.width == pre.back.width,
            post.front.0 == pre.front.0,
            post.dimensions == pre.dimensions,
        ensures
            post.canvas_shows_grid(),
    {
        assert forall|cx: int, cy: int|
            0 <= cx < post.dimensions.x && 0 <= cy
                < post.dimensions.y implies #[trigger] post.cell_shown(cx, cy) by {
            assert(pre.cell_shown(cx, cy));
        }
    }

    /// Distinct in-grid cells have distinct row-major indices.
    proof fn lemma_cell_index_injective(width: int, cx: int, cy: int, px: int, py: int)
        requires
            0 <= cx < width,
            0 <= px < width,
            0 <= cy,
            0 <= py,
            !(cx == px && cy == py),
        ensures
            cy * width + cx != py * width + px,
    {
        if cy < py {
            lemma_mul_inequality(cy + 1, py, width);
            vstd::arithmetic::mul::lemma_mul_is_distributive_add_other_way(width, cy, 1);
        } else if py < cy {
            lemma_mul_inequality(py + 1, cy, width);
            vstd::arithmetic::mul::lemma_mul_is_distributive_add_other_way(width, py, 1);
        }
    }

    /// The console keeps its grid, its dimensions and its canvas geometry.
    pub open spec fn same_grid(new: TextWriter, old: TextWriter) -> bool {
        &&& new.dimensions == old.dimensions
        &&& new.back.width == old.back.width
        &&& new.back.capacity == old.back.capacity
        &&& Writer::same_geometry(new.front.0, old.front.0)
    }

    /// An in-grid cell has an in-range index in the back buffer.
    pub proof fn lemma_cell_index(self, p: Position)
        requires
            self.wf(),
            p.x < self.dimensions.x,
            p.y < self.dimensions.y,
        ensures
            0 <= self.back.spec_index_of(p) < self.back.capacity,
    {
        let dx = self.dimensions.x as int;
        let dy = self.dimensions.y as int;
        lemma_mul_nonnegative(p.y as int, dx);
        lemma_mul_inequality(p.y as int, dy - 1, dx);
        vstd::arithmetic::mul::lemma_mul_is_distributive_sub_other_way(dx, dy, 1);
        vstd::arithmetic::mul::lemma_mul_is_commutative(dx, dy);
    }

    /// Builds the console over a pixel canvas: the grid is the canvas
    /// divided into eight-pixel cells, the cursor starts at the top-left,
    /// and every cell starts empty. A canvas too small for even one cell
    /// is rejected.
    pub fn new(writer: Writer) -> (r: Option<TextWriter>)
        requires
            writer.wf(),
        ensures
            match r {
                Some(t) => {
                    &&& t.wf()
                    &&& t.front.0 == writer
                    &&& t.dimensions.x == writer.info.horizontal_resolution / 8
                    &&& t.dimensions.y == writer.info.vertical_resolution / 8
                    &&& t.position.x == 0 && t.position.y == 0
                    &&& t.canvas_shows_grid()
                    &&& forall|i: int| 0 <= i < t.back.capacity ==> t.back.inner@[i] is None
                },
                None => writer.info.horizontal_resolution / 8 == 0
                    || writer.info.vertical_resolution / 8 == 0 || (
                writer.info.horizontal_resolution / 8) * (writer.info.vertical_resolution / 8)
                    > usize::MAX,
            },
    {
        let width = writer.info.horizontal_resolution / 8;
        let height = writer.info.vertical_resolution / 8;
        if width == 0 || height == 0 {
            return None;
        }
        if width.checked_mul(height).is_none() {
            proof {
                lemma_mul_nonnegative(width as int, height as int);
            }
            return None;
        }
        let dimensions = Position::new(width, height);
        proof {
            vstd::arithmetic::div_mod::lemma_fundamental_div_mod(
                writer.info.horizontal_resolution as int,
                8,
            );
            vstd::arithmetic::div_mod::lemma_fundamental_div_mod(
                writer.info.vertical_resolution as int,
                8,
            );
        }
        let console = TextWriter {
            front: FrontBuffer::new(writer),
            back: BackBuffer::new(dimensions),
            position: Position::default(),
            dimensions,
        };
        proof {
            assert forall|cx: int, cy: int|
                0 <= cx < console.dimensions.x && 0 <= cy
                    < console.dimensions.y implies #[trigger] console.cell_shown(cx, cy) by {
                console.lemma_cell_index(Position { x: cx as usize, y: cy as usize });
            }
        }
        Some(console)
    }

    /// Builds the console over a frame buffer the loader may not have
    /// supplied; without one, or with one the console cannot use, there is
    /// no console, which is reported as an error.
    pub fn try_new(frame_buffer: Option<(Vec<u8>, crate::gop::FrameBufferInfo)>) -> (r: Result<
        TextWriter,
        &'static str,
    >)
        ensures
            match r {
                Ok(t) => t.wf() && (frame_buffer matches Some(p) && t.front.0.frame_buffer == p.0
                    && t.front.0.info == p.1 && t.dimensions.x == p.1.horizontal_resolution / 8
                    && t.dimensions.y == p.1.vertical_resolution / 8 && t.position.x == 0
                    && t.position.y == 0 && t.canvas_shows_grid() && (forall|i: int|
                    0 <= i < t.back.capacity ==> t.back.inner@[i] is None)),
                Err(m) => m@ == "Failed to acquire frame buffer handle"@,
            },
            (frame_buffer matches Some(p) && 1 <= p.1.bytes_per_pixel <= 4 && p.1.stride
                >= p.1.horizontal_resolution && p.1.stride * p.1.bytes_per_pixel <= usize::MAX
                && p.0@.len() == p.1.vertical_resolution * (p.1.stride * p.1.bytes_per_pixel)
                && p.1.horizontal_resolution / 8 >= 1 && p.1.vertical_resolution / 8 >= 1 && (
            p.1.horizontal_resolution / 8) * (p.1.vertical_resolution / 8) <= usize::MAX) ==> r
                is Ok,
    {
        let writer = match Writer::try_new(frame_buffer) {
            Ok(w) => w,
            Err(m) => {
                return Err(m);
            },
        };
        match TextWriter::new(writer) {
            Some(t) => Ok(t),
            None => Err("Failed to acquire frame buffer handle"),
        }
    }

    /// Scrolls the grid one row up and redraws the canvas from it; the
    /// cursor stays where it is.
    pub fn shift(&mut self)
        requires
            old(self).wf(),
        ensures
            final(self).wf(),
            TextWriter::same_grid(*final(self), *old(self)),
            final(self).position == old(self).position,
            final(self).canvas_shows_grid(),
            final(self).back.inner@ == shift_rows(
                old(self).back.inner@,
                old(self).back.width as int,
            ),
    {
        proof {
            lemma_mul_inequality(1, self.dimensions.y as int, self.dimensions.x as int);
            vstd::arithmetic::mul::lemma_mul_is_commutative(
                self.dimensions.y as int,
                self.dimensions.x as int,
            );
        }
        self.back.shift();
        self.write_back_buffer();
    }

    /// Redraws every cell of the canvas from the grid, so that the
    /// canvas shows the grid again whatever it showed before: cells with
    /// a character the font covers get its glyph, the rest are left
    /// alone.
    fn write_back_buffer(&mut self)
        requires
            old(self).wf(),
        ensures
            final(self).wf(),
            TextWriter::same_grid(*final(self), *old(self)),
            final(self).position == old(self).position,
            final(self).back.inner@ == old(self).back.inner@,
            final(self).canvas_shows_grid(),
    {
        let mut x: usize = 0;
        while x < self.dimensions.x
            invariant
                self.wf(),
                TextWriter::same_grid(*self, *old(self)),
                self.position == old(self).position,
                self.back.inner@ == old(self).back.inner@,
                self.dimensions == old(self).dimensions,
                x <= self.dimensions.x,
                forall|cx: int, cy: int|
                    0 <= cx < x && 0 <= cy < self.dimensions.y ==> #[trigger] self.cell_shown(
                        cx,
                        cy,
                    ),
            decreases self.dimensions.x - x,
        {
            let mut y: usize = 0;
            while y < self.dimensions.y
                invariant
                    self.wf(),
                    TextWriter::same_grid(*self, *old(self)),
                    self.position == old(self).position,
                    self.back.inner@ == old(self).back.inner@,
                    self.dimensions == old(self).dimensions,
                    x < self.dimensions.x,
                    y <= self.dimensions.y,
                    forall|cx: int, cy: int|
                        0 <= cx < x && 0 <= cy < self.dimensions.y ==> #[trigger] self.cell_shown(
                            cx,
                            cy,
                        ),
                    forall|cy: int|
                        0 <= cy < y ==> #[trigger] self.cell_shown(x as int, cy),
                decreases self.dimensions.y - y,
            {
                let cell = Position::new(x, y);
                proof {
                    self.lemma_cell_index(cell);
                }
                let ghost before = *self;
                if let Some(c) = self.back.get(cell) {
                    self.front.put_char(c, cell);
                }
                proof {
                    assert forall|cx: int, cy: int|
                        (0 <= cx < x as int && 0 <= cy < self.dimensions.y) || (cx == x as int && 0
                            <= cy < y as int + 1) implies #[trigger] self.cell_shown(cx, cy) by {
                        if cx == x as int && cy == y as int {
                        } else {
                            assert(before.cell_shown(cx, cy));
                            match self.back.inner@[cy * self.back.width + cx] {
                                Some(d) => {
                                    if (d as u32) < 128 {
                                        assert(cell_rendered(before.front.0, glyph_of(d), cx, cy));
                                        lemma_other_cell_rendering_preserved(
                                            before.front.0,
                                            self.front.0,
                                            glyph_of(d),
                                            cx,
                                            cy,
                                            x as int,
                                            y as int,
                                            self.dimensions,
                                        );
                                    }
                                },
                                None => {},
                            }
                        }
                    }
                }
                y += 1;
            }
            x += 1;
        }
    }

    /// Writes one character at the cursor: newline moves to the next row,
    /// carriage return to the start of the row, tab writes four spaces,
    /// and anything else lands in the cell under the cursor, advancing
    /// it.
    pub fn write_char(&mut self, c: char)
        requires
            old(self).wf(),
            old(self).canvas_shows_grid(),
        ensures
            final(self).wf(),
            TextWriter::same_grid(*final(self), *old(self)),
            final(self).canvas_shows_grid(),
            ({
                let (cells, p) = console_char_step(
                    old(self).back.inner@,
                    old(self).position,
                    old(self).dimensions,
                    c,
                );
                final(self).back.inner@ == cells && final(self).position == p
            }),
    {
        match c {
            '\n' => self.newline(),
            '\r' => self.carriage_return(),
            '\t' => {
                let ghost target = write_spaces(
                    self.back.inner@,
                    self.position,
                    self.dimensions,
                    4,
                );
                let mut i: usize = 0;
                while i < 4
                    invariant
                        self.wf(),
                        TextWriter::same_grid(*self, *old(self)),
                        self.canvas_shows_grid(),
                        i <= 4,
                        target == write_spaces(
                            self.back.inner@,
                            self.position,
                            self.dimensions,
                            (4 - i) as nat,
                        ),
                    decreases 4 - i,
                {
                    self.put_visible(' ');
                    i += 1;
                }
            },
            c => self.put_visible(c),
        }
    }

    /// Writes every character of the string in order.
    pub fn write_str(&mut self, s: &str)
        requires
            old(self).wf(),
            old(self).canvas_shows_grid(),
        ensures
            final(self).wf(),
            TextWriter::same_grid(*final(self), *old(self)),
            final(self).canvas_shows_grid(),
            ({
                let (cells, p) = console_write(
                    old(self).back.inner@,
                    old(self).position,
                    old(self).dimensions,
                    s@,
                );
                final(self).back.inner@ == cells && final(self).position == p
            }),
    {
        let ghost target = console_write(self.back.inner@, self.position, self.dimensions, s@);
        let len = s.unicode_len();
        let mut i: usize = 0;
        proof {
            assert(s@.skip(0) =~= s@);
        }
        while i < len
            invariant
                self.wf(),
                TextWriter::same_grid(*self, *old(self)),
                self.canvas_shows_grid(),
                i <= len,
                len == s@.len(),
                target == console_write(
                    self.back.inner@,
                    self.position,
                    self.dimensions,
                    s@.skip(i as int),
                ),
            decreases len - i,
        {
            proof {
                assert(s@.skip(i as int).skip(1) =~= s@.skip(i + 1));
                assert(s@.skip(i as int)[0] == s@[i as int]);
            }
            let c = s.get_char(i);
            self.write_char(c);
            i += 1;
        }
        proof {
            assert(s@.skip(len as int) =~= Seq::<char>::empty());
        }
    }

    /// Puts one visible character in the cell under the cursor and
    /// advances the cursor, exactly as `cell_write` says.
    fn put_visible(&mut self, c: char)
        requires
            old(self).wf(),
            old(self).canvas_shows_grid(),
        ensures
            final(self).wf(),
            TextWriter::same_grid(*final(self), *old(self)),
            final(self).canvas_shows_grid(),
            ({
                let (cells, p) = cell_write(
                    old(self).back.inner@,
                    old(self).position,
                    old(self).dimensions,
                    c,
                );
                final(self).back.inner@ == cells && final(self).position == p
            }),
    {
        let ghost at_entry = *self;
        proof {
            self.lemma_cell_index(self.position);
        }
        self.front.put_char(c, self.position);
        self.back.set(self.position, Some(c));
        proof {
            let wx = at_entry.position.x as int;
            let wy = at_entry.position.y as int;
            assert(self.back.inner@ == at_entry.back.inner@.update(
                wy * self.back.width + wx,
                Some(c),
            ));
            assert forall|cx: int, cy: int|
                0 <= cx < self.dimensions.x && 0 <= cy
                    < self.dimensions.y implies #[trigger] self.cell_shown(cx, cy) by {
                if cx == wx && cy == wy {
                    if (c as u32) < 128 {
                        assert forall|gx: int, gy: int|
                            0 <= gx < 8 && 0 <= gy < 8 implies #[trigger] glyph_pixel_drawn(
                            self.front.0,
                            glyph_of(c),
                            8 * cx,
                            8 * cy,
                            gx,
                            gy,
                        ) by {
                            assert(glyph_pixel_drawn(
                                self.front.0,
                                glyph_of(c),
                                at_entry.position.x * 8,
                                at_entry.position.y * 8,
                                gx,
                                gy,
                            ));
                        }
                        assert(cell_rendered(self.front.0, glyph_of(c), cx, cy));
                    }
                } else {
                    assert(at_entry.cell_shown(cx, cy));
                    self.lemma_cell_index(Position { x: cx as usize, y: cy as usize });
                    TextWriter::lemma_cell_index_injective(
                        self.back.width as int,
                        cx,
                        cy,
                        wx,
                        wy,
                    );
                    assert(self.back.inner@[cy * self.back.width + cx]
                        == at_entry.back.inner@[cy * at_entry.back.width + cx]);
                    match at_entry.back.inner@[cy * at_entry.back.width + cx] {
                        Some(d) => {
                            if (d as u32) < 128 {
                                assert(cell_rendered(at_entry.front.0, glyph_of(d), cx, cy));
                                lemma_other_cell_rendering_preserved(
                                    at_entry.front.0,
                                    self.front.0,
                                    glyph_of(d),
                                    cx,
                                    cy,
                                    wx,
                                    wy,
                                    self.dimensions,
                                );
                            }
                        },
                        None => {},
                    }
                }
            }
        }
        self.increment_x();
    }

    /// Empties the grid and paints the canvas with the background; the
    /// cursor stays where it is.
    pub fn clear(&mut self)
        requires
            old(self).wf(),
        ensures
            final(self).wf(),
            TextWriter::same_grid(*final(self), *old(self)),
            final(self).position == old(self).position,
            final(self).canvas_shows_grid(),
            forall|i: int| 0 <= i < final(self).back.capacity ==> final(self).back.inner@[i] is None,
    {
        self.front.clear();
        self.back.clear();
        proof {
            assert forall|cx: int, cy: int|
                0 <= cx < self.dimensions.x && 0 <= cy
                    < self.dimensions.y implies #[trigger] self.cell_shown(cx, cy) by {
                self.lemma_cell_index(Position { x: cx as usize, y: cy as usize });
            }
        }
    }

    /// Steps the cursor back one cell and blanks the cell it lands on.
    pub fn clear_last(&mut self)
        requires
            old(self).wf(),
            old(self).canvas_shows_grid(),
        ensures
            final(self).wf(),
            TextWriter::same_grid(*final(self), *old(self)),
            final(self).canvas_shows_grid(),
            final(self).position == position_left_of(old(self).dimensions, old(self).position),
            final(self).back.inner@ == old(self).back.inner@.update(
                old(self).back.spec_index_of(
                    position_left_of(old(self).dimensions, old(self).position),
                ),
                Some(' '),
            ),
    {
        self.decrement_x();
        let ghost moved = *self;
        proof {
            self.lemma_cell_index(self.position);
        }
        self.front.put_char(' ', self.position);
        self.back.set(self.position, Some(' '));
        proof {
            let wx = moved.position.x as int;
            let wy = moved.position.y as int;
            assert(self.back.inner@ == moved.back.inner@.update(
                wy * self.back.width + wx,
                Some(' '),
            ));
            assert forall|cx: int, cy: int|
                0 <= cx < self.dimensions.x && 0 <= cy
                    < self.dimensions.y implies #[trigger] self.cell_shown(cx, cy) by {
                if cx == wx && cy == wy {
                    assert forall|gx: int, gy: int|
                        0 <= gx < 8 && 0 <= gy < 8 implies #[trigger] glyph_pixel_drawn(
                        self.front.0,
                        glyph_of(' '),
                        8 * cx,
                        8 * cy,
                        gx,
                        gy,
                    ) by {
                        assert(glyph_pixel_drawn(
                            self.front.0,
                            glyph_of(' '),
                            moved.position.x * 8,
                            moved.position.y * 8,
                            gx,
                            gy,
                        ));
                    }
                    assert(cell_rendered(self.front.0, glyph_of(' '), cx, cy));
                } else {
                    assert(moved.cell_shown(cx, cy));
                    self.lemma_cell_index(Position { x: cx as usize, y: cy as usize });
                    TextWriter::lemma_cell_index_injective(
                        self.back.width as int,
                        cx,
                        cy,
                        wx,
                        wy,
                    );
                    assert(self.back.inner@[cy * self.back.width + cx]
                        == moved.back.inner@[cy * moved.back.width + cx]);
                    match moved.back.inner@[cy * moved.back.width + cx] {
                        Some(d) => {
                            if (d as u32) < 128 {
                                assert(cell_rendered(moved.front.0, glyph_of(d), cx, cy));
                                lemma_other_cell_rendering_preserved(
                                    moved.front.0,
                                    self.front.0,
                                    glyph_of(d),
                                    cx,
                                    cy,
                                    wx,
                                    wy,
                                    self.dimensions,
                                );
                            }
                        },
                        None => {},
                    }
                }
            }
        }
    }

    /// Moves the cursor one cell in the direction, wrapping at the edges
    /// the way the arrow keys do; moving up past the last row scrolls.
    pub fn move_cursor(&mut self, direction: Direction)
        requires
            old(self).wf(),
            old(self).canvas_shows_grid(),
        ensures
            final(self).wf(),
            TextWriter::same_grid(*final(self), *old(self)),
            final(self).canvas_shows_grid(),
            direction == Direction::Left ==> final(self).position == position_left_of(
                old(self).dimensions,
                old(self).position,
            ) && final(self).back.inner@ == old(self).back.inner@,
            direction == Direction::Right ==> ({
                let old_p = old(self).position;
                let dims = old(self).dimensions;
                if old_p.x + 1 < dims.x {
                    final(self).position == (Position { x: (old_p.x + 1) as usize, y: old_p.y })
                        && final(self).back.inner@ == old(self).back.inner@
                } else {
                    let (p, scrolled) = position_next_row(dims, old_p);
                    final(self).position == p && final(self).back.inner@ == if scrolled {
                        shift_rows(old(self).back.inner@, old(self).back.width as int)
                    } else {
                        old(self).back.inner@
                    }
                }
            }),
            direction == Direction::Down ==> final(self).position == position_prev_row(
                old(self).dimensions,
                old(self).position,
            ) && final(self).back.inner@ == old(self).back.inner@,
            direction == Direction::Up ==> {
                let (p, scrolled) = position_next_row(old(self).dimensions, old(self).position);
                &&& final(self).position == p
                &&& final(self).back.inner@ == if scrolled {
                    shift_rows(old(self).back.inner@, old(self).back.width as int)
                } else {
                    old(self).back.inner@
                }
            },
    {
        match direction {
            Direction::Left => self.decrement_x(),
            Direction::Right => self.increment_x(),
            Direction::Down => self.decrement_y(),
            Direction::Up => self.increment_y(),
        }
    }

    /// Moves the cursor to the start of the next row, scrolling at the
    /// bottom.
    pub fn newline(&mut self)
        requires
            old(self).wf(),
            old(self).canvas_shows_grid(),
        ensures
            final(self).wf(),
            TextWriter::same_grid(*final(self), *old(self)),
            final(self).canvas_shows_grid(),
            ({
                let (p, scrolled) = position_next_row(old(self).dimensions, old(self).position);
                &&& final(self).position == p
                &&& final(self).back.inner@ == if scrolled {
                    shift_rows(old(self).back.inner@, old(self).back.width as int)
                } else {
                    old(self).back.inner@
                }
            }),
    {
        self.increment_y();
    }

    /// Moves the cursor to the start of its row.
    pub fn carriage_return(&mut self)
        requires
            old(self).wf(),
            old(self).canvas_shows_grid(),
        ensures
            final(self).wf(),
            TextWriter::same_grid(*final(self), *old(self)),
            final(self).canvas_shows_grid(),
            final(self).position == (Position { x: 0, y: old(self).position.y }),
            final(self).back.inner@ == old(self).back.inner@,
    {
        let ghost at_entry = *self;
        self.position = Position::new(0, self.position.y);
        proof {
            TextWriter::lemma_canvas_carries(at_entry, *self);
        }
    }

    /// Advances the cursor one column, wrapping to the next row at the end
    /// of a row.
    fn increment_x(&mut self)
        requires
            old(self).wf(),
            old(self).canvas_shows_grid(),
        ensures
            final(self).wf(),
            TextWriter::same_grid(*final(self), *old(self)),
            final(self).canvas_shows_grid(),
            ({
                let old_p = old(self).position;
                let dims = old(self).dimensions;
                if old_p.x + 1 < dims.x {
                    final(self).position == (Position { x: (old_p.x + 1) as usize, y: old_p.y })
                        && final(self).back.inner@ == old(self).back.inner@
                } else {
                    let (p, scrolled) = position_next_row(dims, old_p);
                    final(self).position == p && final(self).back.inner@ == if scrolled {
                        shift_rows(old(self).back.inner@, old(self).back.width as int)
                    } else {
                        old(self).back.inner@
                    }
                }
            }),
    {
        if self.position.x + 1 >= self.dimensions.x {
            self.increment_y();
        } else {
            let ghost at_entry = *self;
            self.position = Position::new(self.position.x + 1, self.position.y);
            proof {
                TextWriter::lemma_canvas_carries(at_entry, *self);
            }
        }
    }

    /// Steps the cursor back one column, to the end of the previous row at
    /// the start of one.
    fn decrement_x(&mut self)
        requires
            old(self).wf(),
            old(self).canvas_shows_grid(),
        ensures
            final(self).wf(),
            TextWriter::same_grid(*final(self), *old(self)),
            final(self).canvas_shows_grid(),
            final(self).position == position_left_of(old(self).dimensions, old(self).position),
            final(self).back.inner@ == old(self).back.inner@,
    {
        if self.position.x == 0 {
            self.decrement_y();
        } else {
            let ghost at_entry = *self;
            self.position = Position::new(self.position.x - 1, self.position.y);
            proof {
                TextWriter::lemma_canvas_carries(at_entry, *self);
            }
        }
    }

    /// Moves the cursor to the start of the next row, scrolling the grid
    /// at the bottom.
    fn increment_y(&mut self)
        requires
            old(self).wf(),
            old(self).canvas_shows_grid(),
        ensures
            final(self).wf(),
            TextWriter::same_grid(*final(self), *old(self)),
            final(self).canvas_shows_grid(),
            ({
                let (p, scrolled) = position_next_row(old(self).dimensions, old(self).position);
                &&& final(self).position == p
                &&& final(self).back.inner@ == if scrolled {
                    shift_rows(old(self).back.inner@, old(self).back.width as int)
                } else {
                    old(self).back.inner@
                }
            }),
    {
        if self.position.y + 1 >= self.dimensions.y {
            self.shift();
            let ghost scrolled_state = *self;
            self.position = Position::new(0, self.position.y);
            proof {
                TextWriter::lemma_canvas_carries(scrolled_state, *self);
            }
        } else {
            let ghost at_entry = *self;
            self.position = Position::new(0, self.position.y + 1);
            proof {
                TextWriter::lemma_canvas_carries(at_entry, *self);
            }
        }
    }

    /// Moves the cursor to the end of the previous row, staying put on the
    /// first one.
    fn decrement_y(&mut self)
        requires
            old(self).wf(),
            old(self).canvas_shows_grid(),
        ensures
            final(self).wf(),
            TextWriter::same_grid(*final(self), *old(self)),
            final(self).canvas_shows_grid(),
            final(self).position == position_prev_row(old(self).dimensions, old(self).position),
            final(self).back.inner@ == old(self).back.inner@,
    {
        if self.position.y == 0 {
        } else {
            let ghost at_entry = *self;
            self.position = Position::new(self.dimensions.x - 1, self.position.y - 1);
            proof {
                TextWriter::lemma_canvas_carries(at_entry, *self);
            }
        }
    }
}

} // verus!
