//! The console writer: a fixed 80x25 grid of display cells, each a character
//! byte packed with a color attribute byte, written left to right on the
//! bottom row with upward scrolling on line advance.

use vstd::prelude::*;

verus! {

/// Number of character columns on the display surface.
pub const BUFFER_WIDTH: usize = 80;

/// Number of character rows on the display surface.
pub const BUFFER_HEIGHT: usize = 25;

/// The 16-entry hardware color palette of the text display controller.
#[derive(Debug, Clone, Copy, PartialEq, Eq, Structural)]
pub enum Color {
    Black,
    Blue,
    Green,
    Cyan,
    Red,
    Magenta,
    Brown,
    LightGray,
    DarkGray,
    LightBlue,
    LightGreen,
    LightCyan,
    LightRed,
    Pink,
    Yellow,
    White,
}

/// The 4-bit palette index of a color, as the display hardware numbers them.
pub open spec fn color_code_spec(c: Color) -> u8 {
    match c {
        Color::Black => 0,
        Color::Blue => 1,
        Color::Green => 2,
        Color::Cyan => 3,
        Color::Red => 4,
        Color::Magenta => 5,
        Color::Brown => 6,
        Color::LightGray => 7,
        Color::DarkGray => 8,
        Color::LightBlue => 9,
        Color::LightGreen => 10,
        Color::LightCyan => 11,
        Color::LightRed => 12,
        Color::Pink => 13,
        Color::Yellow => 14,
        Color::White => 15,
    }
}

impl Color {
    /// The 4-bit palette index this color occupies in an attribute byte.
    pub fn code(self) -> (r: u8)
        ensures
            r == color_code_spec(self),
            r <= 15,
    {
        match self {
            Color::Black => 0,
            Color::Blue => 1,
            Color::Green => 2,
            Color::Cyan => 3,
            Color::Red => 4,
            Color::Magenta => 5,
            Color::Brown => 6,
            Color::LightGray => 7,
            Color::DarkGray => 8,
            Color::LightBlue => 9,
            Color::LightGreen => 10,
            Color::LightCyan => 11,
            Color::LightRed => 12,
            Color::Pink => 13,
            Color::Yellow => 14,
            Color::White => 15,
        }
    }
}

/// The packed attribute value of a cell: background in the high nibble,
/// foreground in the low nibble.
pub open spec fn attribute_code(fg: Color, bg: Color) -> int {
    color_code_spec(bg) * 16 + color_code_spec(fg)
}

/// One encoded display cell: the attribute byte in the high half, the
/// character byte in the low half.
pub open spec fn encode_cell(byte: u8, fg: Color, bg: Color) -> u16 {
    (attribute_code(fg, bg) * 256 + byte) as u16
}

/// A blank cell: a space encoded with the given colors.
pub open spec fn blank_cell(fg: Color, bg: Color) -> u16 {
    encode_cell(0x20, fg, bg)
}

/// The flat index of the cell at `(row, col)` in the display surface.
pub open spec fn cell_index(row: int, col: int) -> int {
    row * BUFFER_WIDTH + col
}

/// The surface after one line advance: every row moves up one, the top row
/// is lost, and the bottom row becomes blank.
pub open spec fn scrolled_grid(g: Seq<u16>, blank: u16) -> Seq<u16> {
    Seq::new(g.len(), |i: int| if i + BUFFER_WIDTH < g.len() { g[i + BUFFER_WIDTH] } else { blank })
}

/// The surface with one row overwritten by blank cells.
pub open spec fn row_cleared(g: Seq<u16>, row: int, blank: u16) -> Seq<u16> {
    Seq::new(g.len(), |i: int| if cell_index(row, 0) <= i < cell_index(row + 1, 0) { blank } else { g[i] })
}

/// The cursor-relative writer state `(surface, column)` after one printable
/// byte: a full bottom row provokes a line advance first, then the byte's
/// cell lands at the cursor and the cursor moves right.
pub open spec fn model_write_byte(g: Seq<u16>, col: int, byte: u8, fg: Color, bg: Color) -> (Seq<u16>, int) {
    let g1 = if col >= BUFFER_WIDTH { scrolled_grid(g, blank_cell(fg, bg)) } else { g };
    let c1 = if col >= BUFFER_WIDTH { 0int } else { col };
    (g1.update(cell_index(BUFFER_HEIGHT - 1, c1), encode_cell(byte, fg, bg)), c1 + 1)
}

/// The writer state after one character: a newline is a line advance, any
/// other character is translated and written as a printable byte.
pub open spec fn model_write_char(g: Seq<u16>, col: int, c: char, fg: Color, bg: Color) -> (Seq<u16>, int) {
    if c == '\n' {
        (scrolled_grid(g, blank_cell(fg, bg)), 0int)
    } else {
        model_write_byte(g, col, translate_char(c), fg, bg)
    }
}

/// The writer state after a sequence of characters, written in order.
pub open spec fn model_write_chars(g: Seq<u16>, col: int, s: Seq<char>, fg: Color, bg: Color) -> (Seq<u16>, int)
    decreases s.len(),
{
    if s.len() == 0 {
        (g, col)
    } else {
        let (g1, c1) = model_write_char(g, col, s[0], fg, bg);
        model_write_chars(g1, c1, s.skip(1), fg, bg)
    }
}

/// The console writer: current colors, the column cursor on the bottom row,
/// and the owned display surface.
pub struct Writer {
    text_color: Color,
    background_color: Color,
    column_position: usize,
    cells: Vec<u16>,
}

impl Writer {
    /// The display surface as a flat sequence of encoded cells, row-major.
    pub closed spec fn grid(self) -> Seq<u16> {
        self.cells@
    }

    /// The column cursor; `BUFFER_WIDTH` means the next byte provokes a line advance.
    pub closed spec fn col(self) -> int {
        self.column_position as int
    }

    /// The current foreground color.
    pub closed spec fn fg(self) -> Color {
        self.text_color
    }

    /// The current background color.
    pub closed spec fn bg(self) -> Color {
        self.background_color
    }

    /// The encoded cell at `(row, col)`.
    pub open spec fn cell(self, row: int, col: int) -> u16 {
        self.grid()[cell_index(row, col)]
    }

    /// Well-formedness: the surface has exactly one cell per position and the
    /// cursor lies in `[0, BUFFER_WIDTH]`.
    pub open spec fn wf(self) -> bool {
        &&& self.grid().len() == BUFFER_WIDTH * BUFFER_HEIGHT
        &&& 0 <= self.col() <= BUFFER_WIDTH
    }

    /// The colors and cursor of `other`, unchanged in `self`.
    pub open spec fn same_colors(self, other: Writer) -> bool {
        self.fg() == other.fg() && self.bg() == other.bg()
    }

    /// A fresh writer: white on black, cursor at column 0, blank surface.
    pub fn new() -> (w: Writer)
        ensures
            w.wf(),
            w.col() == 0,
            w.fg() == Color::White,
            w.bg() == Color::Black,
            forall|i: int| 0 <= i < w.grid().len() ==> w.grid()[i] == blank_cell(Color::White, Color::Black),
    {
        let mut cells: Vec<u16> = Vec::new();
        let blank: u16 = 15u16 * 256 + 0x20;
        assert(blank == blank_cell(Color::White, Color::Black));
        let mut i: usize = 0;
        while i < BUFFER_WIDTH * BUFFER_HEIGHT
            invariant
                i == cells@.len(),
                i <= BUFFER_WIDTH * BUFFER_HEIGHT,
                blank == blank_cell(Color::White, Color::Black),
                forall|j: int| 0 <= j < i ==> cells@[j] == blank_cell(Color::White, Color::Black),
            decreases BUFFER_WIDTH * BUFFER_HEIGHT - i,
        {
            cells.push(blank);
            i = i + 1;
        }
        Writer {
            text_color: Color::White,
            background_color: Color::Black,
            column_position: 0,
            cells,
        }
    }

    /// Read one cell of the surface.
    pub fn cell_at(&self, row: usize, col: usize) -> (r: u16)
        requires
            self.wf(),
            row < BUFFER_HEIGHT,
            col < BUFFER_WIDTH,
        ensures
            r == self.cell(row as int, col as int),
    {
        self.cells[row * BUFFER_WIDTH + col]
    }

    /// The current column cursor.
    pub fn column_position(&self) -> (r: usize)
        ensures
            r as int == self.col(),
    {
        self.column_position
    }

    /// The current colors, foreground first.
    pub fn colors(&self) -> (r: (Color, Color))
        ensures
            r.0 == self.fg(),
            r.1 == self.bg(),
    {
        (self.text_color, self.background_color)
    }

    /// Set the colors future writes use; cells already written keep theirs.
    pub fn set_colors(&mut self, fg: Color, bg: Color)
        ensures
            final(self).fg() == fg,
            final(self).bg() == bg,
            final(self).grid() == old(self).grid(),
            final(self).col() == old(self).col(),
    {
        self.text_color = fg;
        self.background_color = bg;
    }

    /// Pack one character byte with the current colors into the cell format
    /// the display controller expects.
    pub fn encode_byte_to_buffer_format(&self, byte: u8) -> (r: u16)
        ensures
            r == encode_cell(byte, self.fg(), self.bg()),
    {
        let attr: u16 = (self.background_color.code() as u16) * 16 + (self.text_color.code() as u16);
        attr * 256 + (byte as u16)
    }

    /// Overwrite one row with blank cells in the current colors.
    pub fn clear_row(&mut self, row: usize)
        requires
            old(self).wf(),
            row < BUFFER_HEIGHT,
        ensures
            final(self).wf(),
            final(self).same_colors(*old(self)),
            final(self).col() == old(self).col(),
            final(self).grid() == row_cleared(old(self).grid(), row as int, blank_cell(old(self).fg(), old(self).bg())),
    {
        let blank = self.encode_byte_to_buffer_format(0x20);
        let mut col: usize = 0;
        while col < BUFFER_WIDTH
            invariant
                old(self).wf(),
                self.wf(),
                col <= BUFFER_WIDTH,
                row < BUFFER_HEIGHT,
                self.same_colors(*old(self)),
                self.col() == old(self).col(),
                blank == blank_cell(old(self).fg(), old(self).bg()),
                self.grid().len() == old(self).grid().len(),
                forall|i: int| 0 <= i < self.grid().len() ==> self.grid()[i]
                    == (if cell_index(row as int, 0) <= i < cell_index(row as int, col as int) { blank } else { old(self).grid()[i] }),
            decreases BUFFER_WIDTH - col,
        {
            self.cells[row * BUFFER_WIDTH + col] = blank;
            col = col + 1;
        }
        proof {
            assert(self.grid() =~= row_cleared(old(self).grid(), row as int, blank));
        }
    }

    /// Line advance: copy every row one row up (the top row is lost), blank
    /// the bottom row in the current colors, and return the cursor to column 0.
    pub fn new_line(&mut self)
        requires
            old(self).wf(),
        ensures
            final(self).wf(),
            final(self).same_colors(*old(self)),
            final(self).col() == 0,
            final(self).grid() == scrolled_grid(old(self).grid(), blank_cell(old(self).fg(), old(self).bg())),
    {
        let mut row: usize = 1;
        while row < BUFFER_HEIGHT
            invariant
                old(self).wf(),
                self.wf(),
                1 <= row <= BUFFER_HEIGHT,
                self.same_colors(*old(self)),
                self.col() == old(self).col(),
                self.grid().len() == old(self).grid().len(),
                forall|i: int| 0 <= i < self.grid().len() ==> self.grid()[i]
                    == (if i < cell_index(row as int - 1, 0) { old(self).grid()[i + BUFFER_WIDTH] } else { old(self).grid()[i] }),
            decreases BUFFER_HEIGHT - row,
        {
            let mut col: usize = 0;
            while col < BUFFER_WIDTH
                invariant
                    old(self).wf(),
                    self.wf(),
                    1 <= row < BUFFER_HEIGHT,
                    col <= BUFFER_WIDTH,
                    self.same_colors(*old(self)),
                    self.col() == old(self).col(),
                    self.grid().len() == old(self).grid().len(),
                    forall|i: int| 0 <= i < self.grid().len() ==> self.grid()[i]
                        == (if i < cell_index(row as int - 1, col as int) { old(self).grid()[i + BUFFER_WIDTH] } else { old(self).grid()[i] }),
                decreases BUFFER_WIDTH - col,
            {
                let v = self.cells[row * BUFFER_WIDTH + col];
                self.cells[(row - 1) * BUFFER_WIDTH + col] = v;
                col = col + 1;
            }
            row = row + 1;
        }
        self.clear_row(BUFFER_HEIGHT - 1);
        self.column_position = 0;
        proof {
            assert(self.grid() =~= scrolled_grid(old(self).grid(), blank_cell(old(self).fg(), old(self).bg())));
        }
    }

    /// Write one already-translated byte at the cursor on the bottom row,
    /// advancing the line first if the row is full.
    pub fn write_printable_byte(&mut self, byte: u8)
        requires
            old(self).wf(),
        ensures
            final(self).wf(),
            final(self).same_colors(*old(self)),
            (final(self).grid(), final(self).col())
                == model_write_byte(old(self).grid(), old(self).col(), byte, old(self).fg(), old(self).bg()),
    {
        if self.column_position >= BUFFER_WIDTH {
            self.new_line();
        }
        let row: usize = BUFFER_HEIGHT - 1;
        let col: usize = self.column_position;
        let v = self.encode_byte_to_buffer_format(byte);
        self.cells[row * BUFFER_WIDTH + col] = v;
        self.column_position = col + 1;
    }
}

impl Writer {
    /// Write one character at the cursor: a newline advances the line, any
    /// other character is translated through the code page and placed on the
    /// bottom row. Total: no character is ever rejected.
    pub fn write_char(&mut self, c: char)
        requires
            old(self).wf(),
        ensures
            final(self).wf(),
            final(self).same_colors(*old(self)),
            (final(self).grid(), final(self).col())
                == model_write_char(old(self).grid(), old(self).col(), c, old(self).fg(), old(self).bg()),
    {
        if c == '\n' {
            self.new_line();
            return ;
        }
        let printable_byte = translate_char_exec(c);
        self.write_printable_byte(printable_byte);
    }

    /// Apply `write_char` to every character of `s`, in order. An empty
    /// string is a no-op.
    pub fn write_str(&mut self, s: &str)
        requires
            old(self).wf(),
        ensures
            final(self).wf(),
            final(self).same_colors(*old(self)),
            (final(self).grid(), final(self).col())
                == model_write_chars(old(self).grid(), old(self).col(), s@, old(self).fg(), old(self).bg()),
    {
        let n = s.unicode_len();
        proof {
            assert(s@.skip(0) =~= s@);
        }
        let mut i: usize = 0;
        while i < n
            invariant
                old(self).wf(),
                self.wf(),
                i <= n,
                n == s@.len(),
                self.same_colors(*old(self)),
                model_write_chars(self.grid(), self.col(), s@.skip(i as int), self.fg(), self.bg())
                    == model_write_chars(old(self).grid(), old(self).col(), s@, old(self).fg(), old(self).bg()),
            decreases n - i,
        {
            let c = s.get_char(i);
            proof {
                assert(s@.skip(i as int)[0] == c);
                assert(s@.skip(i as int).skip(1) =~= s@.skip(i as int + 1));
            }
            self.write_char(c);
            i = i + 1;
        }
        proof {
            assert(s@.skip(n as int) =~= Seq::<char>::empty());
        }
    }

    /// Overlay write: place one translated character at an explicit position
    /// without touching the cursor, the line flow, or any other cell. A
    /// newline has no special meaning here.
    pub fn write_char_at(&mut self, row: usize, col: usize, c: char)
        requires
            old(self).wf(),
            row < BUFFER_HEIGHT,
            col < BUFFER_WIDTH,
        ensures
            final(self).wf(),
            final(self).same_colors(*old(self)),
            final(self).col() == old(self).col(),
            final(self).grid() == old(self).grid().update(
                cell_index(row as int, col as int),
                encode_cell(translate_char(c), old(self).fg(), old(self).bg()),
            ),
    {
        let b = translate_char_exec(c);
        let v = self.encode_byte_to_buffer_format(b);
        self.cells[row * BUFFER_WIDTH + col] = v;
    }

    /// Overlay write of a whole string left to right from `(row, col)`; the
    /// cursor used by the line-based writer is not disturbed.
    pub fn write_str_at(&mut self, row: usize, col: usize, s: &str)
        requires
            old(self).wf(),
            row < BUFFER_HEIGHT,
            col + s@.len() <= BUFFER_WIDTH,
        ensures
            final(self).wf(),
            final(self).same_colors(*old(self)),
            final(self).col() == old(self).col(),
            final(self).grid().len() == old(self).grid().len(),
            forall|k: int| 0 <= k < s@.len() ==> final(self).grid()[cell_index(row as int, col + k)]
                == encode_cell(translate_char(s@[k]), old(self).fg(), old(self).bg()),
            forall|i: int| 0 <= i < old(self).grid().len()
                && !(cell_index(row as int, col as int) <= i < cell_index(row as int, col + s@.len()))
                ==> final(self).grid()[i] == old(self).grid()[i],
    {
        let n = s.unicode_len();
        let mut k: usize = 0;
        while k < n
            invariant
                old(self).wf(),
                self.wf(),
                k <= n,
                n == s@.len(),
                row < BUFFER_HEIGHT,
                col + n <= BUFFER_WIDTH,
                self.same_colors(*old(self)),
                self.col() == old(self).col(),
                self.grid().len() == old(self).grid().len(),
                forall|j: int| 0 <= j < k ==> self.grid()[cell_index(row as int, col + j)]
                    == encode_cell(translate_char(s@[j]), old(self).fg(), old(self).bg()),
                forall|i: int| 0 <= i < old(self).grid().len()
                    && !(cell_index(row as int, col as int) <= i < cell_index(row as int, col + k))
                    ==> self.grid()[i] == old(self).grid()[i],
            decreases n - k,
        {
            let c = s.get_char(k);
            self.write_char_at(row, col + k, c);
            k = k + 1;
        }
    }
}

/// The executable code-page translation, equal to `translate_char`.
pub fn translate_char_exec(c: char) -> (b: u8)
    ensures
        b == translate_char(c),
{
    match c {
        '\u{2502}' => 0xB3,
        '\u{2524}' => 0xB4,
        '\u{2561}' => 0xB5,
        '\u{2562}' => 0xB6,
        '\u{2556}' => 0xB7,
        '\u{2555}' => 0xB8,
        '\u{2563}' => 0xB9,
        '\u{2551}' => 0xBA,
        '\u{2557}' => 0xBB,
        '\u{255D}' => 0xBC,
        '\u{255C}' => 0xBD,
        '\u{255B}' => 0xBE,
        '\u{2510}' => 0xBF,
        '\u{2514}' => 0xC0,
        '\u{2534}' => 0xC1,
        '\u{252C}' => 0xC2,
        '\u{251C}' => 0xC3,
        '\u{2500}' => 0xC4,
        '\u{253C}' => 0xC5,
        '\u{255E}' => 0xC6,
        '\u{255F}' => 0xC7,
        '\u{255A}' => 0xC8,
        '\u{2554}' => 0xC9,
        '\u{2569}' => 0xCA,
        '\u{2566}' => 0xCB,
        '\u{2560}' => 0xCC,
        '\u{2550}' => 0xCD,
        '\u{256C}' => 0xCE,
        '\u{2567}' => 0xCF,
        '\u{2568}' => 0xD0,
        '\u{2564}' => 0xD1,
        '\u{2565}' => 0xD2,
        '\u{2559}' => 0xD3,
        '\u{2558}' => 0xD4,
        '\u{2552}' => 0xD5,
        '\u{2553}' => 0xD6,
        '\u{256B}' => 0xD7,
        '\u{256A}' => 0xD8,
        '\u{2518}' => 0xD9,
        '\u{250C}' => 0xDA,
        _ => {
            let u: u32 = c as u32;
            if 0x20 <= u && u <= 0x7e {
                c as u8
            } else {
                0xFE
            }
        },
    }
}

/// Funnel for already-formatted text: write it to the given writer through
/// the ordinary cursor-relative path.
pub fn _print(w: &mut Writer, s: &str)
    requires
        old(w).wf(),
    ensures
        final(w).wf(),
        final(w).same_colors(*old(w)),
        (final(w).grid(), final(w).col())
            == model_write_chars(old(w).grid(), old(w).col(), s@, old(w).fg(), old(w).bg()),
{
    w.write_str(s);
}

/// Whether a character lies in the identity-mapped printable range.
pub open spec fn is_printable_ascii(c: char) -> bool {
    0x20 <= c as u32 <= 0x7e
}

/// The extended code-page byte of a box-drawing glyph, if the display
/// hardware has one for this character.
pub open spec fn box_glyph_byte(c: char) -> Option<u8> {
    match c {
        '\u{2502}' => Some(0xB3),
        '\u{2524}' => Some(0xB4),
        '\u{2561}' => Some(0xB5),
        '\u{2562}' => Some(0xB6),
        '\u{2556}' => Some(0xB7),
        '\u{2555}' => Some(0xB8),
        '\u{2563}' => Some(0xB9),
        '\u{2551}' => Some(0xBA),
        '\u{2557}' => Some(0xBB),
        '\u{255D}' => Some(0xBC),
        '\u{255C}' => Some(0xBD),
        '\u{255B}' => Some(0xBE),
        '\u{2510}' => Some(0xBF),
        '\u{2514}' => Some(0xC0),
        '\u{2534}' => Some(0xC1),
        '\u{252C}' => Some(0xC2),
        '\u{251C}' => Some(0xC3),
        '\u{2500}' => Some(0xC4),
        '\u{253C}' => Some(0xC5),
        '\u{255E}' => Some(0xC6),
        '\u{255F}' => Some(0xC7),
        '\u{255A}' => Some(0xC8),
        '\u{2554}' => Some(0xC9),
        '\u{2569}' => Some(0xCA),
        '\u{2566}' => Some(0xCB),
        '\u{2560}' => Some(0xCC),
        '\u{2550}' => Some(0xCD),
        '\u{256C}' => Some(0xCE),
        '\u{2567}' => Some(0xCF),
        '\u{2568}' => Some(0xD0),
        '\u{2564}' => Some(0xD1),
        '\u{2565}' => Some(0xD2),
        '\u{2559}' => Some(0xD3),
        '\u{2558}' => Some(0xD4),
        '\u{2552}' => Some(0xD5),
        '\u{2553}' => Some(0xD6),
        '\u{256B}' => Some(0xD7),
        '\u{256A}' => Some(0xD8),
        '\u{2518}' => Some(0xD9),
        '\u{250C}' => Some(0xDA),
        _ => None,
    }
}

/// The total code-page translation: box-drawing glyphs map through the table,
/// the printable range maps to itself, everything else to the replacement
/// byte 0xFE. No character is ever rejected.
pub open spec fn translate_char(c: char) -> u8 {
    match box_glyph_byte(c) {
        Some(b) => b,
        None => if is_printable_ascii(c) { c as u8 } else { 0xFE },
    }
}

/// The palette index of every color is a nibble.
pub proof fn lemma_color_code_bound(c: Color)
    ensures
        color_code_spec(c) <= 15,
{
}

/// A printable-range character translates to its own raw value, and is never
/// the newline.
pub proof fn lemma_printable_translate(c: char)
    requires
        is_printable_ascii(c),
    ensures
        translate_char(c) == c as u8,
        c as u8 == c as u32,
        c != '\n',
{
}

/// Writing a concatenation is writing the first part, then the second from
/// the state the first part left behind.
pub proof fn lemma_model_write_chars_append(g: Seq<u16>, col: int, a: Seq<char>, b: Seq<char>, fg: Color, bg: Color)
    ensures
        ({
            let m = model_write_chars(g, col, a, fg, bg);
            model_write_chars(g, col, a + b, fg, bg) == model_write_chars(m.0, m.1, b, fg, bg)
        }),
    decreases a.len(),
{
    if a.len() == 0 {
        assert(a + b =~= b);
    } else {
        assert((a + b)[0] == a[0]);
        assert((a + b).skip(1) =~= a.skip(1) + b);
        let m1 = model_write_char(g, col, a[0], fg, bg);
        lemma_model_write_chars_append(m1.0, m1.1, a.skip(1), b, fg, bg);
    }
}

/// Law: writing a printable-range character with the cursor inside the row
/// leaves, at the pre-write cursor cell, the character's raw value as the
/// character byte and `background * 16 + foreground` as the attribute byte,
/// and moves the cursor one cell right.
pub proof fn lemma_printable_write(g: Seq<u16>, col: int, c: char, fg: Color, bg: Color)
    requires
        g.len() == BUFFER_WIDTH * BUFFER_HEIGHT,
        0 <= col < BUFFER_WIDTH,
        is_printable_ascii(c),
    ensures
        ({
            let (g1, c1) = model_write_char(g, col, c, fg, bg);
            &&& g1[cell_index(BUFFER_HEIGHT - 1, col)] == encode_cell(c as u8, fg, bg)
            &&& g1[cell_index(BUFFER_HEIGHT - 1, col)] as int == attribute_code(fg, bg) * 256 + c as u32
            &&& c1 == col + 1
        }),
{
    lemma_printable_translate(c);
    lemma_color_code_bound(fg);
    lemma_color_code_bound(bg);
}

/// Law: a character outside both the printable range and the box-drawing
/// table always translates to the fixed replacement byte.
pub proof fn lemma_replacement_byte(c: char)
    requires
        !is_printable_ascii(c),
        box_glyph_byte(c) is None,
    ensures
        translate_char(c) == 0xFE,
{
}

/// Law: writing a character outside the printable range and the box-drawing
/// table — the newline aside, which produces no cell — leaves at the
/// pre-write cursor cell the fixed replacement byte, regardless of the input.
pub proof fn lemma_replacement_cell(g: Seq<u16>, col: int, c: char, fg: Color, bg: Color)
    requires
        g.len() == BUFFER_WIDTH * BUFFER_HEIGHT,
        0 <= col < BUFFER_WIDTH,
        !is_printable_ascii(c),
        box_glyph_byte(c) is None,
        c != '\n',
    ensures
        model_write_char(g, col, c, fg, bg).0[cell_index(BUFFER_HEIGHT - 1, col)]
            == encode_cell(0xFE, fg, bg),
        model_write_char(g, col, c, fg, bg).1 == col + 1,
{
    lemma_color_code_bound(fg);
    lemma_color_code_bound(bg);
}

/// Writing printable characters that fit in the remaining room of the bottom
/// row places them left to right from the cursor and touches no other cell.
pub proof fn lemma_fill_row(g: Seq<u16>, col: int, s: Seq<char>, fg: Color, bg: Color)
    requires
        g.len() == BUFFER_WIDTH * BUFFER_HEIGHT,
        0 <= col,
        col + s.len() <= BUFFER_WIDTH,
        forall|k: int| 0 <= k < s.len() ==> is_printable_ascii(#[trigger] s[k]),
    ensures
        ({
            let (g1, c1) = model_write_chars(g, col, s, fg, bg);
            &&& g1.len() == g.len()
            &&& c1 == col + s.len()
            &&& forall|k: int| 0 <= k < s.len() ==> g1[cell_index(BUFFER_HEIGHT - 1, col + k)]
                == encode_cell(#[trigger] s[k] as u8, fg, bg)
            &&& forall|i: int| 0 <= i < g.len()
                && !(cell_index(BUFFER_HEIGHT - 1, col) <= i < cell_index(BUFFER_HEIGHT - 1, col + s.len()))
                ==> g1[i] == g[i]
        }),
    decreases s.len(),
{
    if s.len() > 0 {
        lemma_printable_translate(s[0]);
        let m1 = model_write_char(g, col, s[0], fg, bg);
        lemma_fill_row(m1.0, col + 1, s.skip(1), fg, bg);
        let (g1, c1) = model_write_chars(g, col, s, fg, bg);
        assert forall|k: int| 0 <= k < s.len() implies g1[cell_index(BUFFER_HEIGHT - 1, col + k)]
            == encode_cell(#[trigger] s[k] as u8, fg, bg) by {
            if k > 0 {
                assert(s.skip(1)[k - 1] == s[k]);
            }
        }
    }
}

/// Law: exactly `BUFFER_WIDTH` printable characters written from column 0
/// fill the bottom row left to right with no line advance: the cursor ends at
/// `BUFFER_WIDTH` and every cell above the bottom row is untouched.
pub proof fn lemma_exact_width_fills_row(g: Seq<u16>, s: Seq<char>, fg: Color, bg: Color)
    requires
        g.len() == BUFFER_WIDTH * BUFFER_HEIGHT,
        s.len() == BUFFER_WIDTH,
        forall|k: int| 0 <= k < s.len() ==> is_printable_ascii(#[trigger] s[k]),
    ensures
        ({
            let (g1, c1) = model_write_chars(g, 0, s, fg, bg);
            &&& c1 == BUFFER_WIDTH
            &&& forall|k: int| 0 <= k < BUFFER_WIDTH ==> g1[cell_index(BUFFER_HEIGHT - 1, k)]
                == encode_cell(#[trigger] s[k] as u8, fg, bg)
            &&& forall|i: int| 0 <= i < cell_index(BUFFER_HEIGHT - 1, 0) ==> g1[i] == g[i]
        }),
{
    lemma_fill_row(g, 0, s, fg, bg);
}

/// Law: the character after an exactly-filled bottom row provokes exactly one
/// line advance and lands at column 0: the filled row moves up one row, the
/// new bottom row is blank but for the new character's cell, and the cursor
/// ends at column 1.
pub proof fn lemma_width_plus_one_wraps(g: Seq<u16>, s: Seq<char>, c: char, fg: Color, bg: Color)
    requires
        g.len() == BUFFER_WIDTH * BUFFER_HEIGHT,
        s.len() == BUFFER_WIDTH,
        forall|k: int| 0 <= k < s.len() ==> is_printable_ascii(#[trigger] s[k]),
        is_printable_ascii(c),
    ensures
        ({
            let filled = model_write_chars(g, 0, s, fg, bg).0;
            let (g1, c1) = model_write_chars(g, 0, s.push(c), fg, bg);
            &&& c1 == 1
            &&& g1 == scrolled_grid(filled, blank_cell(fg, bg)).update(
                cell_index(BUFFER_HEIGHT - 1, 0),
                encode_cell(c as u8, fg, bg),
            )
            &&& g1[cell_index(BUFFER_HEIGHT - 1, 0)] == encode_cell(c as u8, fg, bg)
            &&& forall|k: int| 0 <= k < BUFFER_WIDTH ==> g1[cell_index(BUFFER_HEIGHT - 2, k)]
                == encode_cell(#[trigger] s[k] as u8, fg, bg)
            &&& forall|k: int| 1 <= k < BUFFER_WIDTH ==> g1[#[trigger] cell_index(BUFFER_HEIGHT - 1, k)]
                == blank_cell(fg, bg)
        }),
{
    assert(s.push(c) =~= s + seq![c]);
    lemma_model_write_chars_append(g, 0, s, seq![c], fg, bg);
    lemma_fill_row(g, 0, s, fg, bg);
    lemma_printable_translate(c);
    assert(seq![c].skip(1) =~= Seq::<char>::empty());
    let filled = model_write_chars(g, 0, s, fg, bg).0;
    let blank = blank_cell(fg, bg);
    let expect = scrolled_grid(filled, blank).update(
        cell_index(BUFFER_HEIGHT - 1, 0),
        encode_cell(c as u8, fg, bg),
    );
    let m1 = model_write_char(filled, BUFFER_WIDTH as int, c, fg, bg);
    assert(m1.0 == expect && m1.1 == 1);
    assert(model_write_chars(filled, BUFFER_WIDTH as int, seq![c], fg, bg)
        == model_write_chars(m1.0, m1.1, seq![c].skip(1), fg, bg));
    let (g1, c1) = model_write_chars(g, 0, s.push(c), fg, bg);
    assert(g1 == expect && c1 == 1);
    assert(filled.len() == BUFFER_WIDTH * BUFFER_HEIGHT);
    assert forall|k: int| 0 <= k < BUFFER_WIDTH implies g1[cell_index(BUFFER_HEIGHT - 2, k)]
        == encode_cell(#[trigger] s[k] as u8, fg, bg) by {
        assert(cell_index(BUFFER_HEIGHT - 2, k) + BUFFER_WIDTH == cell_index(BUFFER_HEIGHT - 1, k));
        assert(scrolled_grid(filled, blank)[cell_index(BUFFER_HEIGHT - 2, k)]
            == filled[cell_index(BUFFER_HEIGHT - 1, k)]);
    }
    assert forall|k: int| 1 <= k < BUFFER_WIDTH implies g1[#[trigger] cell_index(BUFFER_HEIGHT - 1, k)]
        == blank by {
        assert(cell_index(BUFFER_HEIGHT - 1, k) + BUFFER_WIDTH >= filled.len());
    }
}

/// The surface after `n` consecutive line advances with no other writes.
pub open spec fn scrolled_n(g: Seq<u16>, blank: u16, n: nat) -> Seq<u16>
    decreases n,
{
    if n == 0 {
        g
    } else {
        scrolled_grid(scrolled_n(g, blank, (n - 1) as nat), blank)
    }
}

/// After `k` line advances the bottom `k` rows are blank.
proof fn lemma_scroll_bottom_rows(g: Seq<u16>, blank: u16, k: nat)
    requires
        g.len() == BUFFER_WIDTH * BUFFER_HEIGHT,
        k <= BUFFER_HEIGHT,
    ensures
        scrolled_n(g, blank, k).len() == g.len(),
        forall|i: int| g.len() - k * BUFFER_WIDTH <= i < g.len() ==> scrolled_n(g, blank, k)[i] == blank,
    decreases k,
{
    if k > 0 {
        lemma_scroll_bottom_rows(g, blank, (k - 1) as nat);
    }
}

/// Law: after `BUFFER_HEIGHT` or more consecutive line advances with no other
/// writes, every row of the surface is blank — the old content has scrolled
/// fully off and the bottom row has been cleared each time.
pub proof fn lemma_scroll_clears(g: Seq<u16>, blank: u16, n: nat)
    requires
        g.len() == BUFFER_WIDTH * BUFFER_HEIGHT,
        n >= BUFFER_HEIGHT,
    ensures
        scrolled_n(g, blank, n).len() == g.len(),
        forall|i: int| 0 <= i < g.len() ==> scrolled_n(g, blank, n)[i] == blank,
    decreases n,
{
    if n == BUFFER_HEIGHT {
        lemma_scroll_bottom_rows(g, blank, n);
    } else {
        lemma_scroll_clears(g, blank, (n - 1) as nat);
    }
}

/// Law: round trip — after writing a printable string shorter than the row
/// width from column 0, the bottom row's first `len` cells give back the
/// string: each cell's low byte is the character's code and its high byte is
/// the current attribute.
pub proof fn lemma_round_trip(g: Seq<u16>, s: Seq<char>, fg: Color, bg: Color)
    requires
        g.len() == BUFFER_WIDTH * BUFFER_HEIGHT,
        s.len() < BUFFER_WIDTH,
        forall|k: int| 0 <= k < s.len() ==> is_printable_ascii(#[trigger] s[k]),
    ensures
        ({
            let (g1, c1) = model_write_chars(g, 0, s, fg, bg);
            &&& c1 == s.len()
            &&& forall|k: int| 0 <= k < s.len() ==> {
                &&& (g1[cell_index(BUFFER_HEIGHT - 1, k)] as int) % 256 == #[trigger] s[k] as u32
                &&& (g1[cell_index(BUFFER_HEIGHT - 1, k)] as int) / 256 == attribute_code(fg, bg)
            }
        }),
{
    lemma_fill_row(g, 0, s, fg, bg);
    let (g1, c1) = model_write_chars(g, 0, s, fg, bg);
    assert forall|k: int| 0 <= k < s.len() implies {
        &&& (g1[cell_index(BUFFER_HEIGHT - 1, k)] as int) % 256 == #[trigger] s[k] as u32
        &&& (g1[cell_index(BUFFER_HEIGHT - 1, k)] as int) / 256 == attribute_code(fg, bg)
    } by {
        lemma_printable_translate(s[k]);
        lemma_color_code_bound(fg);
        lemma_color_code_bound(bg);
        assert(g1[cell_index(BUFFER_HEIGHT - 1, k)] == encode_cell(s[k] as u8, fg, bg));
    }
}

} // verus!
