use vstd::prelude::*;

verus! {

/// Columns of the VGA text buffer.
pub const BUFFER_WIDTH: usize = 80;

/// Rows of the VGA text buffer.
pub const BUFFER_HEIGHT: usize = 25;

/// The sixteen VGA palette colors.
#[derive(Clone, Copy, Debug, PartialEq, Eq, Structural)]
pub enum Color {
    Black,
    Blue,
    Green,
    Cyan,
    Red,
    Magenta,
    Brown,
    LightGray,
    DarkGray,
    LightBlue,
    LightGreen,
    LightCyan,
    LightRed,
    Pink,
    Yellow,
    White,
}

/// The palette index of a color.
pub open spec fn spec_color_code(c: Color) -> u8 {
    match c {
        Color::Black => 0,
        Color::Blue => 1,
        Color::Green => 2,
        Color::Cyan => 3,
        Color::Red => 4,
        Color::Magenta => 5,
        Color::Brown => 6,
        Color::LightGray => 7,
        Color::DarkGray => 8,
        Color::LightBlue => 9,
        Color::LightGreen => 10,
        Color::LightCyan => 11,
        Color::LightRed => 12,
        Color::Pink => 13,
        Color::Yellow => 14,
        Color::White => 15,
    }
}

impl Color {
    /// The palette index of this color.
    pub fn code(&self) -> (r: u8)
        ensures
            r == spec_color_code(*self),
            r <= 15,
    {
        match *self {
            Color::Black => 0,
            Color::Blue => 1,
            Color::Green => 2,
            Color::Cyan => 3,
            Color::Red => 4,
            Color::Magenta => 5,
            Color::Brown => 6,
            Color::LightGray => 7,
            Color::DarkGray => 8,
            Color::LightBlue => 9,
            Color::LightGreen => 10,
            Color::LightCyan => 11,
            Color::LightRed => 12,
            Color::Pink => 13,
            Color::Yellow => 14,
            Color::White => 15,
        }
    }
}

/// A foreground and a background color packed into one attribute byte:
/// the background in the high four bits, the foreground in the low four.
#[derive(Clone, Copy, Debug, PartialEq, Eq, Structural)]
pub struct ColorCode(pub u8);

impl ColorCode {
    /// Packs the two colors into the attribute byte.
    pub fn new(foreground: Color, background: Color) -> (r: ColorCode)
        ensures
            r.0 == spec_color_code(background) * 16 + spec_color_code(foreground),
    {
        let bg = background.code();
        let fg = foreground.code();
        let packed = (bg << 4u8) | fg;
        proof {
            assert(bg <= 15 && fg <= 15 ==> ((bg << 4u8) | fg) == bg * 16 + fg) by (bit_vector);
        }
        ColorCode(packed)
    }
}

/// One cell of the text buffer: an ASCII character and its colors.
#[derive(Clone, Copy, Debug, PartialEq, Eq, Structural)]
pub struct Char {
    pub ascii_char: u8,
    pub color_code: ColorCode,
}

impl Char {
    /// A cell showing `ascii_char` in the given colors.
    pub fn new(ascii_char: u8, color_code: ColorCode) -> (r: Char)
        ensures
            r.ascii_char == ascii_char,
            r.color_code == color_code,
    {
        Char { ascii_char, color_code }
    }

    /// A blank cell in the given colors.
    pub fn blank(color_code: ColorCode) -> (r: Char)
        ensures
            r.ascii_char == 0x20,
            r.color_code == color_code,
    {
        Char::new(0x20, color_code)
    }
}

/// The blank cell a row is cleared with.
pub open spec fn spec_blank(color_code: ColorCode) -> Char {
    Char { ascii_char: 0x20, color_code }
}

/// The 80-by-25 grid of cells, row-major.
pub struct Buffer {
    pub video_mem: Vec<Char>,
}

impl Buffer {
    /// The buffer holds exactly its 80 by 25 cells.
    pub open spec fn wf(self) -> bool {
        self.video_mem@.len() == BUFFER_HEIGHT * BUFFER_WIDTH
    }
}

/// The index of a cell in the row-major grid.
pub open spec fn spec_cell_index(row: int, col: int) -> int {
    row * BUFFER_WIDTH + col
}

/// The grid after scrolling one row up: each cell takes the value of the
/// cell one row below, and the last row becomes blank in the given colors.
pub open spec fn shift_screen(cells: Seq<Char>, color_code: ColorCode) -> Seq<Char> {
    Seq::new(cells.len(), |i: int| if i < cells.len() - BUFFER_WIDTH {
        cells[i + BUFFER_WIDTH]
    } else {
        spec_blank(color_code)
    })
}

/// Where a line break puts the grid and the row: on the last row the grid
/// scrolls and the row stays, otherwise the row advances.
pub open spec fn after_new_line(cells: Seq<Char>, row: int, color_code: ColorCode) -> (
    Seq<Char>,
    int,
) {
    if row == BUFFER_HEIGHT - 1 {
        (shift_screen(cells, color_code), row)
    } else {
        (cells, row + 1)
    }
}

/// Where the cursor lands one cell back: the previous column, the end of
/// the previous row at the start of one, or, at the top-left cell, where
/// it was. The result is the new row and column.
pub open spec fn cursor_left_of(row: int, col: int) -> (int, int) {
    if col > 0 {
        (row, col - 1)
    } else if row > 0 {
        (row - 1, BUFFER_WIDTH - 1)
    } else {
        (0int, 0int)
    }
}

/// One byte written at the cursor: a line break starts a new row;
/// anything else lands in the cell under the cursor and the cursor
/// advances, wrapping — scrolling at the bottom — at the end of a row.
/// The result is the new grid, row and column.
pub open spec fn byte_write(
    cells: Seq<Char>,
    row: int,
    col: int,
    color_code: ColorCode,
    byte: u8,
) -> (Seq<Char>, int, int) {
    if byte == 0x0a {
        let (scrolled, new_row) = after_new_line(cells, row, color_code);
        (scrolled, new_row, 0)
    } else {
        let written = cells.update(spec_cell_index(row, col), Char { ascii_char: byte, color_code });
        if col + 1 < BUFFER_WIDTH {
            (written, row, col + 1)
        } else {
            let (scrolled, new_row) = after_new_line(written, row, color_code);
            (scrolled, new_row, 0)
        }
    }
}

/// The byte one character of a string shows as: printable ASCII and the
/// line break go through as they are, anything else as the replacement
/// cell 0xfe.
pub open spec fn screen_byte(c: char) -> u8 {
    if (0x20 <= c as u32 <= 0x7e) || c as u32 == 0x0a {
        c as u8
    } else {
        0xfe
    }
}

/// A whole string written at the cursor, one character at a time.
pub open spec fn string_write(
    cells: Seq<Char>,
    row: int,
    col: int,
    color_code: ColorCode,
    s: Seq<char>,
) -> (Seq<Char>, int, int)
    decreases s.len(),
{
    if s.len() == 0 {
        (cells, row, col)
    } else {
        let (cells2, row2, col2) = byte_write(cells, row, col, color_code, screen_byte(s[0]));
        string_write(cells2, row2, col2, color_code, s.skip(1))
    }
}

/// A writer over the text buffer: a cursor, the colors it writes in, and
/// the grid itself.
pub struct Writer {
    pub column_position: usize,
    pub row_position: usize,
    pub color_code: ColorCode,
    pub buffer: Buffer,
}

impl Writer {
    /// The cursor stays inside the grid, and the grid is whole.
    pub open spec fn wf(self) -> bool {
        &&& self.column_position < BUFFER_WIDTH
        &&& self.row_position < BUFFER_HEIGHT
        &&& self.buffer.wf()
    }

    /// The grid cells of the writer.
    pub open spec fn cells(self) -> Seq<Char> {
        self.buffer.video_mem@
    }

    /// A writer over a grid blanked in the given colors, its cursor at
    /// the top-left cell.
    pub fn new(color_code: ColorCode) -> (r: Writer)
        ensures
            r.wf(),
            r.column_position == 0,
            r.row_position == 0,
            r.color_code == color_code,
            forall|i: int|
                0 <= i < BUFFER_HEIGHT * BUFFER_WIDTH ==> r.cells()[i] == spec_blank(color_code),
    {
        let video_mem = vec![Char::blank(color_code); BUFFER_HEIGHT * BUFFER_WIDTH];
        Writer { column_position: 0, row_position: 0, color_code, buffer: Buffer { video_mem } }
    }

    /// A cell showing `ascii_char` in the writer's current colors.
    pub fn make_char(&self, ascii_char: u8) -> (r: Char)
        ensures
            r == (Char { ascii_char, color_code: self.color_code }),
    {
        Char::new(ascii_char, self.color_code)
    }

    /// Reads the cell at `(row, col)`.
    pub fn get_char_at(&self, row: usize, col: usize) -> (r: Char)
        requires
            self.wf(),
            row < BUFFER_HEIGHT,
            col < BUFFER_WIDTH,
        ensures
            r == self.cells()[spec_cell_index(row as int, col as int)],
    {
        self.buffer.video_mem[row * BUFFER_WIDTH + col]
    }

    /// Reads the cell under the cursor.
    pub fn get_char(&self) -> (r: Char)
        requires
            self.wf(),
        ensures
            r == self.cells()[spec_cell_index(self.row_position as int, self.column_position as int)],
    {
        self.get_char_at(self.row_position, self.column_position)
    }

    /// Writes the cell at `(row, col)`.
    pub fn put_char_at(&mut self, c: Char, row: usize, col: usize)
        requires
            old(self).wf(),
            row < BUFFER_HEIGHT,
            col < BUFFER_WIDTH,
        ensures
            final(self).wf(),
            final(self).column_position == old(self).column_position,
            final(self).row_position == old(self).row_position,
            final(self).color_code == old(self).color_code,
            final(self).cells() == old(self).cells().update(
                spec_cell_index(row as int, col as int),
                c,
            ),
    {
        self.buffer.video_mem[row * BUFFER_WIDTH + col] = c;
    }

    /// Writes the cell under the cursor.
    pub fn put_char(&mut self, c: Char)
        requires
            old(self).wf(),
        ensures
            final(self).wf(),
            final(self).column_position == old(self).column_position,
            final(self).row_position == old(self).row_position,
            final(self).color_code == old(self).color_code,
            final(self).cells() == old(self).cells().update(
                spec_cell_index(old(self).row_position as int, old(self).column_position as int),
                c,
            ),
    {
        let row = self.row_position;
        let col = self.column_position;
        self.put_char_at(c, row, col);
    }

    /// Writes `byte` under the cursor in the current colors.
    pub fn put_byte(&mut self, byte: u8)
        requires
            old(self).wf(),
        ensures
            final(self).wf(),
            final(self).column_position == old(self).column_position,
            final(self).row_position == old(self).row_position,
            final(self).color_code == old(self).color_code,
            final(self).cells() == old(self).cells().update(
                spec_cell_index(old(self).row_position as int, old(self).column_position as int),
                Char { ascii_char: byte, color_code: old(self).color_code },
            ),
    {
        let c = self.make_char(byte);
        self.put_char(c);
    }

    /// Writes `c` in the given colors at `(row, col)`.
    pub fn put_char_color_at(&mut self, c: u8, color_code: ColorCode, row: usize, col: usize)
        requires
            old(self).wf(),
            row < BUFFER_HEIGHT,
            col < BUFFER_WIDTH,
        ensures
            final(self).wf(),
            final(self).column_position == old(self).column_position,
            final(self).row_position == old(self).row_position,
            final(self).color_code == old(self).color_code,
            final(self).cells() == old(self).cells().update(
                spec_cell_index(row as int, col as int),
                Char { ascii_char: c, color_code },
            ),
    {
        let cell = Char::new(c, color_code);
        self.put_char_at(cell, row, col);
    }

    /// Writes `c` in the given colors under the cursor.
    pub fn put_char_color(&mut self, c: u8, color_code: ColorCode)
        requires
            old(self).wf(),
        ensures
            final(self).wf(),
            final(self).column_position == old(self).column_position,
            final(self).row_position == old(self).row_position,
            final(self).color_code == old(self).color_code,
            final(self).cells() == old(self).cells().update(
                spec_cell_index(old(self).row_position as int, old(self).column_position as int),
                Char { ascii_char: c, color_code },
            ),
    {
        let row = self.row_position;
        let col = self.column_position;
        self.put_char_color_at(c, color_code, row, col);
    }

    /// Writes an ASCII byte: a line break starts a new row, anything else
    /// lands under the cursor and the cursor advances, wrapping at the
    /// end of a row.
    pub fn write_byte(&mut self, byte: u8)
        requires
            old(self).wf(),
        ensures
            final(self).wf(),
            final(self).color_code == old(self).color_code,
            (final(self).cells(), final(self).row_position as int, final(self).column_position as int) == byte_write(
                old(self).cells(),
                old(self).row_position as int,
                old(self).column_position as int,
                old(self).color_code,
                byte,
            ),
    {
        match byte {
            0x0a => self.new_line(),
            byte => {
                self.put_byte(byte);
                self.increment_column();
            },
        }
    }

    /// Writes a string: printable ASCII bytes and line breaks go through
    /// as they are, anything else shows as the replacement cell 0xfe.
    pub fn write_string(&mut self, s: &str)
        requires
            old(self).wf(),
        ensures
            final(self).wf(),
            final(self).color_code == old(self).color_code,
            (final(self).cells(), final(self).row_position as int, final(self).column_position as int) == string_write(
                old(self).cells(),
                old(self).row_position as int,
                old(self).column_position as int,
                old(self).color_code,
                s@,
            ),
    {
        let ghost target = string_write(
            self.cells(),
            self.row_position as int,
            self.column_position as int,
            self.color_code,
            s@,
        );
        let len = s.unicode_len();
        let mut i: usize = 0;
        proof {
            assert(s@.skip(0) =~= s@);
        }
        while i < len
            invariant
                self.wf(),
                self.color_code == old(self).color_code,
                i <= len,
                len == s@.len(),
                target == string_write(
                    self.cells(),
                    self.row_position as int,
                    self.column_position as int,
                    self.color_code,
                    s@.skip(i as int),
                ),
            decreases len - i,
        {
            proof {
                assert(s@.skip(i as int).skip(1) =~= s@.skip(i + 1));
                assert(s@.skip(i as int)[0] == s@[i as int]);
            }
            let c = s.get_char(i);
            let code = c as u32;
            if (0x20 <= code && code <= 0x7e) || code == 0x0a {
                self.write_byte(code as u8);
            } else {
                self.write_byte(0xfe);
            }
            i += 1;
        }
        proof {
            assert(s@.skip(len as int) =~= Seq::<char>::empty());
        }
    }

    /// Starts a new row: the cursor returns to the first column, and on
    /// the last row the grid scrolls up instead of the row advancing.
    pub fn new_line(&mut self)
        requires
            old(self).wf(),
        ensures
            final(self).wf(),
            final(self).color_code == old(self).color_code,
            final(self).column_position == 0,
            ({
                let (cells, row) = after_new_line(
                    old(self).cells(),
                    old(self).row_position as int,
                    old(self).color_code,
                );
                final(self).cells() == cells && final(self).row_position == row
            }),
    {
        self.column_position = 0;
        if self.row_position == BUFFER_HEIGHT - 1 {
            self.shift_buffer();
            return ;
        }
        self.row_position += 1;
    }

    /// Scrolls the grid one row up and blanks the last row in the current
    /// colors.
    pub fn shift_buffer(&mut self)
        requires
            old(self).wf(),
        ensures
            final(self).wf(),
            final(self).color_code == old(self).color_code,
            final(self).column_position == old(self).column_position,
            final(self).row_position == old(self).row_position,
            final(self).cells() == shift_screen(old(self).cells(), old(self).color_code),
    {
        let mut row: usize = 1;
        while row < BUFFER_HEIGHT
            invariant
                self.wf(),
                self.color_code == old(self).color_code,
                self.column_position == old(self).column_position,
                self.row_position == old(self).row_position,
                1 <= row <= BUFFER_HEIGHT,
                forall|i: int|
                    0 <= i < (row - 1) * BUFFER_WIDTH ==> self.cells()[i] == old(self).cells()[i
                        + BUFFER_WIDTH],
                forall|i: int|
                    (row - 1) * BUFFER_WIDTH <= i < BUFFER_HEIGHT * BUFFER_WIDTH
                        ==> self.cells()[i] == old(self).cells()[i],
            decreases BUFFER_HEIGHT - row,
        {
            let mut col: usize = 0;
            while col < BUFFER_WIDTH
                invariant
                    self.wf(),
                    self.color_code == old(self).color_code,
                    self.column_position == old(self).column_position,
                    self.row_position == old(self).row_position,
                    1 <= row < BUFFER_HEIGHT,
                    col <= BUFFER_WIDTH,
                    forall|i: int|
                        0 <= i < (row - 1) * BUFFER_WIDTH + col ==> self.cells()[i] == old(self).cells()[i + BUFFER_WIDTH],
                    forall|i: int|
                        (row - 1) * BUFFER_WIDTH + col <= i < BUFFER_HEIGHT * BUFFER_WIDTH
                            ==> self.cells()[i] == old(self).cells()[i],
                decreases BUFFER_WIDTH - col,
            {
                let c = self.get_char_at(row, col);
                self.put_char_at(c, row - 1, col);
                col += 1;
            }
            row += 1;
        }
        self.clear_row(BUFFER_HEIGHT - 1);
        proof {
            assert forall|i: int|
                0 <= i < BUFFER_HEIGHT * BUFFER_WIDTH implies self.cells()[i] == shift_screen(
                old(self).cells(),
                old(self).color_code,
            )[i] by {
                if i >= (BUFFER_HEIGHT - 1) * BUFFER_WIDTH {
                    let col = i - (BUFFER_HEIGHT - 1) * BUFFER_WIDTH;
                    assert(self.cells()[spec_cell_index((BUFFER_HEIGHT - 1) as int, col)]
                        == spec_blank(old(self).color_code));
                }
            }
            assert(self.cells() =~= shift_screen(old(self).cells(), old(self).color_code));
        }
    }

    /// Scrolls the grid `n` rows up.
    pub fn shift_buffer_n(&mut self, n: usize)
        requires
            old(self).wf(),
        ensures
            final(self).wf(),
            final(self).color_code == old(self).color_code,
            final(self).column_position == old(self).column_position,
            final(self).row_position == old(self).row_position,
    {
        let mut i: usize = 0;
        while i < n
            invariant
                self.wf(),
                self.color_code == old(self).color_code,
                self.column_position == old(self).column_position,
                self.row_position == old(self).row_position,
            decreases n - i,
        {
            self.shift_buffer();
            i += 1;
        }
    }

    /// Moves the cursor one row down, staying on the last row.
    pub fn increment_row(&mut self)
        requires
            old(self).wf(),
        ensures
            final(self).wf(),
            final(self).cells() == old(self).cells(),
            final(self).color_code == old(self).color_code,
            final(self).column_position == old(self).column_position,
            final(self).row_position == if old(self).row_position == BUFFER_HEIGHT - 1 {
                old(self).row_position as int
            } else {
                old(self).row_position + 1
            },
    {
        if self.row_position == BUFFER_HEIGHT - 1 {
            return ;
        }
        self.row_position += 1;
    }

    /// Moves the cursor one row up, staying on the first row.
    pub fn decrement_row(&mut self)
        requires
            old(self).wf(),
        ensures
            final(self).wf(),
            final(self).cells() == old(self).cells(),
            final(self).color_code == old(self).color_code,
            final(self).column_position == old(self).column_position,
            final(self).row_position == if old(self).row_position == 0 {
                0int
            } else {
                old(self).row_position - 1
            },
    {
        if self.row_position == 0 {
            return ;
        }
        self.row_position -= 1;
    }

    /// Moves the cursor one column right, starting a new row at the end
    /// of one.
    pub fn increment_column(&mut self)
        requires
            old(self).wf(),
        ensures
            final(self).wf(),
            final(self).color_code == old(self).color_code,
            old(self).column_position + 1 < BUFFER_WIDTH ==> final(self).cells() == old(self).cells() && final(self).row_position == old(self).row_position && final(self).column_position == old(self).column_position + 1,
            old(self).column_position + 1 == BUFFER_WIDTH ==> final(self).column_position == 0
                && ({
                let (cells, row) = after_new_line(
                    old(self).cells(),
                    old(self).row_position as int,
                    old(self).color_code,
                );
                final(self).cells() == cells && final(self).row_position == row
            }),
    {
        if self.column_position == BUFFER_WIDTH - 1 {
            self.new_line();
            return ;
        }
        self.column_position += 1;
    }

    /// Moves the cursor one column left, to the end of the previous row
    /// at the start of one; at the top-left cell it stays.
    pub fn decrement_column(&mut self)
        requires
            old(self).wf(),
        ensures
            final(self).wf(),
            final(self).cells() == old(self).cells(),
            final(self).color_code == old(self).color_code,
            old(self).column_position == 0 && old(self).row_position == 0 ==> final(self).column_position == 0 && final(self).row_position == 0,
            old(self).column_position == 0 && old(self).row_position > 0 ==> final(self).column_position == BUFFER_WIDTH - 1 && final(self).row_position == old(self).row_position - 1,
            old(self).column_position > 0 ==> final(self).column_position == old(self).column_position - 1 && final(self).row_position == old(self).row_position,
    {
        if self.column_position == 0 {
            if self.row_position == 0 {
                return ;
            }
            self.column_position = BUFFER_WIDTH - 1;
            self.row_position -= 1;
            return ;
        }
        self.column_position -= 1;
    }

    /// Blanks the whole grid and puts the cursor at the top-left cell.
    pub fn clear_screen(&mut self)
        requires
            old(self).wf(),
        ensures
            final(self).wf(),
            final(self).color_code == old(self).color_code,
            final(self).column_position == 0,
            final(self).row_position == 0,
            forall|i: int|
                0 <= i < BUFFER_HEIGHT * BUFFER_WIDTH ==> final(self).cells()[i] == spec_blank(
                    old(self).color_code,
                ),
    {
        let mut row: usize = 0;
        while row < BUFFER_HEIGHT
            invariant
                self.wf(),
                self.color_code == old(self).color_code,
                row <= BUFFER_HEIGHT,
                forall|i: int|
                    0 <= i < row * BUFFER_WIDTH ==> self.cells()[i] == spec_blank(
                        old(self).color_code,
                    ),
            decreases BUFFER_HEIGHT - row,
        {
            let ghost prefix = row as int;
            self.clear_row(row);
            proof {
                assert forall|i: int|
                    0 <= i < (prefix + 1) * BUFFER_WIDTH implies self.cells()[i] == spec_blank(
                    old(self).color_code,
                ) by {
                    if i >= prefix * BUFFER_WIDTH {
                        let col = i - prefix * BUFFER_WIDTH;
                        assert(self.cells()[spec_cell_index(prefix, col)] == spec_blank(
                            old(self).color_code,
                        ));
                    }
                }
            }
            row += 1;
        }
        let ghost cleared = *self;
        self.column_position = 0;
        self.row_position = 0;
        proof {
            assert(self.buffer == cleared.buffer);
            assert forall|i: int|
                0 <= i < BUFFER_HEIGHT * BUFFER_WIDTH implies self.cells()[i] == spec_blank(
                old(self).color_code,
            ) by {
                assert(0 <= i < row * BUFFER_WIDTH);
                assert(cleared.cells()[i] == spec_blank(old(self).color_code));
            }
        }
    }

    /// Blanks one row in the current colors.
    pub fn clear_row(&mut self, row: usize)
        requires
            old(self).wf(),
            row < BUFFER_HEIGHT,
        ensures
            final(self).wf(),
            final(self).color_code == old(self).color_code,
            final(self).column_position == old(self).column_position,
            final(self).row_position == old(self).row_position,
            forall|col: int|
                0 <= col < BUFFER_WIDTH ==> final(self).cells()[spec_cell_index(row as int, col)]
                    == spec_blank(old(self).color_code),
            forall|i: int|
                0 <= i < BUFFER_HEIGHT * BUFFER_WIDTH && !(spec_cell_index(row as int, 0) <= i
                    < spec_cell_index(row as int, BUFFER_WIDTH as int)) ==> final(self).cells()[i]
                    == old(self).cells()[i],
    {
        let blank = Char::blank(self.color_code);
        let mut col: usize = 0;
        while col < BUFFER_WIDTH
            invariant
                self.wf(),
                self.color_code == old(self).color_code,
                self.column_position == old(self).column_position,
                self.row_position == old(self).row_position,
                row < BUFFER_HEIGHT,
                col <= BUFFER_WIDTH,
                blank == spec_blank(old(self).color_code),
                forall|c: int|
                    0 <= c < col ==> self.cells()[spec_cell_index(row as int, c)] == spec_blank(
                        old(self).color_code,
                    ),
                forall|i: int|
                    0 <= i < BUFFER_HEIGHT * BUFFER_WIDTH && !(spec_cell_index(row as int, 0) <= i
                        < spec_cell_index(row as int, col as int)) ==> self.cells()[i] == old(self).cells()[i],
            decreases BUFFER_WIDTH - col,
        {
            self.put_char_at(blank, row, col);
            col += 1;
        }
    }

    /// Steps the cursor back one cell and blanks the cell it lands on;
    /// every other cell keeps its value.
    pub fn clear_last(&mut self)
        requires
            old(self).wf(),
        ensures
            final(self).wf(),
            final(self).color_code == old(self).color_code,
            ({
                let (row, col) = cursor_left_of(
                    old(self).row_position as int,
                    old(self).column_position as int,
                );
                &&& final(self).row_position == row
                &&& final(self).column_position == col
                &&& final(self).cells() == old(self).cells().update(
                    spec_cell_index(row, col),
                    spec_blank(old(self).color_code),
                )
            }),
    {
        self.decrement_column();
        self.clear_current();
    }

    /// Blanks the cell under the cursor.
    pub fn clear_current(&mut self)
        requires
            old(self).wf(),
        ensures
            final(self).wf(),
            final(self).color_code == old(self).color_code,
            final(self).column_position == old(self).column_position,
            final(self).row_position == old(self).row_position,
            final(self).cells() == old(self).cells().update(
                spec_cell_index(old(self).row_position as int, old(self).column_position as int),
                spec_blank(old(self).color_code),
            ),
    {
        let blank = Char::blank(self.color_code);
        self.put_char(blank);
    }
}

/// The four directions an arrow key can move the cursor in.
#[derive(Clone, Copy, Debug, PartialEq, Eq, Structural)]
pub enum Direction {
    Left,
    Right,
    Up,
    Down,
}

/// Starts a new row on the writer.
pub fn newline(w: &mut Writer)
    requires
        old(w).wf(),
    ensures
        final(w).wf(),
        final(w).color_code == old(w).color_code,
        final(w).column_position == 0,
        ({
            let (cells, row) = after_new_line(
                old(w).cells(),
                old(w).row_position as int,
                old(w).color_code,
            );
            final(w).cells() == cells && final(w).row_position == row
        }),
{
    w.new_line();
}

/// Writes the two-space indent a tab key produces.
pub fn tabline(w: &mut Writer)
    requires
        old(w).wf(),
    ensures
        final(w).wf(),
        final(w).color_code == old(w).color_code,
        (final(w).cells(), final(w).row_position as int, final(w).column_position as int)
            == string_write(
            old(w).cells(),
            old(w).row_position as int,
            old(w).column_position as int,
            old(w).color_code,
            "  "@,
        ),
{
    w.write_string("  ");
}

/// Clears the last written cell, stepping the cursor back onto it; every
/// other cell keeps its value.
pub fn clear_last(w: &mut Writer)
    requires
        old(w).wf(),
    ensures
        final(w).wf(),
        final(w).color_code == old(w).color_code,
        ({
            let (row, col) = cursor_left_of(
                old(w).row_position as int,
                old(w).column_position as int,
            );
            &&& final(w).row_position == row
            &&& final(w).column_position == col
            &&& final(w).cells() == old(w).cells().update(
                spec_cell_index(row, col),
                spec_blank(old(w).color_code),
            )
        }),
{
    w.clear_last();
}

/// Moves the cursor the way the arrow keys do: up and down move by a
/// row, left steps back a cell, and right advances a cell, starting a
/// new row — scrolling if need be — at the end of one.
pub fn move_cursor(w: &mut Writer, direction: Direction)
    requires
        old(w).wf(),
    ensures
        final(w).wf(),
        final(w).color_code == old(w).color_code,
        direction != Direction::Right ==> final(w).cells() == old(w).cells(),
        direction == Direction::Right ==> ({
            if old(w).column_position + 1 < BUFFER_WIDTH {
                final(w).cells() == old(w).cells() && final(w).row_position == old(w).row_position
                    && final(w).column_position == old(w).column_position + 1
            } else {
                let (cells, row) = after_new_line(
                    old(w).cells(),
                    old(w).row_position as int,
                    old(w).color_code,
                );
                final(w).cells() == cells && final(w).row_position == row && final(w).column_position == 0
            }
        }),
        direction == Direction::Left ==> final(w).column_position == if old(w).column_position
            > 0 {
            old(w).column_position - 1
        } else if old(w).row_position > 0 {
            BUFFER_WIDTH - 1
        } else {
            0int
        } && final(w).row_position == if old(w).column_position == 0 && old(w).row_position > 0 {
            old(w).row_position - 1
        } else {
            old(w).row_position as int
        },
        direction == Direction::Up ==> final(w).row_position == if old(w).row_position == 0 {
            0int
        } else {
            old(w).row_position - 1
        } && final(w).column_position == old(w).column_position,
        direction == Direction::Down ==> final(w).row_position == if old(w).row_position
            == BUFFER_HEIGHT - 1 {
            old(w).row_position as int
        } else {
            old(w).row_position + 1
        } && final(w).column_position == old(w).column_position,
{
    match direction {
        Direction::Left => w.decrement_column(),
        Direction::Right => w.increment_column(),
        Direction::Up => w.decrement_row(),
        Direction::Down => w.increment_row(),
    }
}

} // verus!
