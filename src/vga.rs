use vstd::prelude::*;
use vstd::string::StringSliceAdditionalSpecFns;
use volatile::Volatile;

use crate::colour::{colour_code_of, Colour, ColourCode};

verus! {

/// Number of text rows on screen.
pub const BUFFER_HEIGHT: usize = 25;

/// Number of character cells in a row.
pub const BUFFER_WIDTH: usize = 80;

/// Glyph shown for a byte outside printable ASCII.
pub const PLACEHOLDER: u8 = 0xfe;

/// One screen cell: a character byte and its attribute byte.
#[derive(Clone, Copy, Debug, PartialEq, Eq, Structural)]
pub struct RenderedChar {
    pub ascii_char: u8,
    pub colour_code: ColourCode,
}

#[verifier::external_type_specification]
#[verifier::external_body]
#[verifier::reject_recursive_types(T)]
pub struct ExVolatile<T: Copy>(Volatile<T>);

/// What a volatile screen cell holds.
pub uninterp spec fn cell_value(c: Volatile<RenderedChar>) -> RenderedChar;

/// Relies on volatile::Volatile::new: the new cell holds `ch`.
#[verifier::external_body]
fn new_cell(ch: RenderedChar) -> (r: Volatile<RenderedChar>)
    ensures
        cell_value(r) == ch,
{
    Volatile::new(ch)
}

/// Relies on volatile::Volatile::read: a volatile load of the held value.
#[verifier::external_body]
fn read_cell(c: &Volatile<RenderedChar>) -> (r: RenderedChar)
    ensures
        r == cell_value(*c),
{
    c.read()
}

/// Relies on volatile::Volatile::write: a volatile store of `ch`.
#[verifier::external_body]
fn write_cell(c: &mut Volatile<RenderedChar>, ch: RenderedChar)
    ensures
        cell_value(*final(c)) == ch,
{
    c.write(ch)
}

/// The cell written into cleared rows: a space, yellow on black.
pub open spec fn blank_cell() -> RenderedChar {
    RenderedChar { ascii_char: 0x20, colour_code: colour_code_of(Colour::Yellow, Colour::Black) }
}

pub open spec fn blank_row() -> Seq<RenderedChar> {
    Seq::new(BUFFER_WIDTH as nat, |_c: int| blank_cell())
}

/// A grid of `BUFFER_HEIGHT` rows of `BUFFER_WIDTH` cells.
pub open spec fn grid_wf(g: Seq<Seq<RenderedChar>>) -> bool {
    &&& g.len() == BUFFER_HEIGHT
    &&& forall|r: int| 0 <= r < BUFFER_HEIGHT ==> #[trigger] g[r].len() == BUFFER_WIDTH
}

/// Every row moves up by one; the bottom row is cleared.
pub open spec fn scrolled(g: Seq<Seq<RenderedChar>>) -> Seq<Seq<RenderedChar>> {
    g.drop_first().push(blank_row())
}

/// Abstract state of the console.
pub struct ConsoleView {
    pub x: nat,
    pub y: nat,
    pub colour: ColourCode,
    pub grid: Seq<Seq<RenderedChar>>,
}

pub open spec fn view_wf(v: ConsoleView) -> bool {
    &&& v.x <= BUFFER_WIDTH
    &&& v.y < BUFFER_HEIGHT
    &&& grid_wf(v.grid)
}

/// The console after a line break: the screen scrolls and the cursor goes
/// to the start of the last row.
pub open spec fn after_new_line(v: ConsoleView) -> ConsoleView {
    ConsoleView {
        x: 0,
        y: (BUFFER_HEIGHT - 1) as nat,
        colour: v.colour,
        grid: scrolled(v.grid),
    }
}

/// The console after one byte reaches it: a newline breaks the line; any
/// other byte wraps first if the row is full, then lands on the bottom row
/// at the cursor column in the current attribute.
pub open spec fn after_byte(v: ConsoleView, b: u8) -> ConsoleView {
    if b == 0x0a {
        after_new_line(v)
    } else {
        let w = if v.x >= BUFFER_WIDTH { after_new_line(v) } else { v };
        let last = BUFFER_HEIGHT - 1;
        ConsoleView {
            x: w.x + 1,
            y: w.y,
            colour: w.colour,
            grid: w.grid.update(
                last,
                w.grid[last].update(w.x as int, RenderedChar { ascii_char: b, colour_code: w.colour }),
            ),
        }
    }
}

/// Printable ASCII or newline.
pub open spec fn passes_through(b: u8) -> bool {
    (0x20 <= b && b <= 0x7e) || b == 0x0a
}

/// The byte that is shown for `b`.
pub open spec fn glyph(b: u8) -> u8 {
    if passes_through(b) { b } else { PLACEHOLDER }
}

/// The console after the glyphs of `bs`, left to right.
pub open spec fn after_string(v: ConsoleView, bs: Seq<u8>) -> ConsoleView
    decreases bs.len(),
{
    if bs.len() == 0 {
        v
    } else {
        after_byte(after_string(v, bs.drop_last()), glyph(bs.last()))
    }
}

pub proof fn lemma_after_byte_wf(v: ConsoleView, b: u8)
    requires
        view_wf(v),
    ensures
        view_wf(after_byte(v, b)),
{
}

pub proof fn lemma_after_string_wf(v: ConsoleView, bs: Seq<u8>)
    requires
        view_wf(v),
    ensures
        view_wf(after_string(v, bs)),
    decreases bs.len(),
{
    if bs.len() > 0 {
        lemma_after_string_wf(v, bs.drop_last());
        lemma_after_byte_wf(after_string(v, bs.drop_last()), glyph(bs.last()));
    }
}

/// `row` with its first `n` cells cleared.
pub open spec fn blanked_prefix(row: Seq<RenderedChar>, n: int) -> Seq<RenderedChar> {
    Seq::new(row.len(), |c: int| if c < n { blank_cell() } else { row[c] })
}

/// `g` with each of its first `k` rows replaced by the row below it.
pub open spec fn shifted_upto(g: Seq<Seq<RenderedChar>>, k: int) -> Seq<Seq<RenderedChar>> {
    Seq::new(g.len(), |r: int| if r < k { g[r + 1] } else { g[r] })
}

/// `dst` with its first `n` cells taken from `src`.
pub open spec fn copied_prefix(dst: Seq<RenderedChar>, src: Seq<RenderedChar>, n: int) -> Seq<RenderedChar> {
    Seq::new(dst.len(), |c: int| if c < n { src[c] } else { dst[c] })
}

/// The screen's character cells, each behind a volatile access.
pub struct CharBuffer {
    pub chars: Vec<Vec<Volatile<RenderedChar>>>,
}

/// What a row of volatile cells holds.
pub open spec fn row_cells(row: Vec<Volatile<RenderedChar>>) -> Seq<RenderedChar> {
    row@.map_values(|c: Volatile<RenderedChar>| cell_value(c))
}

impl CharBuffer {
    pub open spec fn grid(&self) -> Seq<Seq<RenderedChar>> {
        self.chars@.map_values(|row: Vec<Volatile<RenderedChar>>| row_cells(row))
    }

    /// A screen of blank cells.
    pub fn new() -> (r: CharBuffer)
        ensures
            r.grid() == Seq::new(BUFFER_HEIGHT as nat, |_r: int| blank_row()),
            r.chars@.len() == BUFFER_HEIGHT,
            forall|i: int| 0 <= i < BUFFER_HEIGHT ==> (#[trigger] r.chars@[i])@.len() == BUFFER_WIDTH,
    {
        let blank = RenderedChar {
            ascii_char: 0x20,
            colour_code: ColourCode::new(Colour::Yellow, Colour::Black),
        };
        let mut chars: Vec<Vec<Volatile<RenderedChar>>> = Vec::new();
        let mut r: usize = 0;
        while r < BUFFER_HEIGHT
            invariant
                r <= BUFFER_HEIGHT,
                blank == blank_cell(),
                chars@.len() == r,
                forall|i: int| 0 <= i < r ==> (#[trigger] chars@[i])@.len() == BUFFER_WIDTH,
                forall|i: int| 0 <= i < r ==> row_cells(#[trigger] chars@[i]) == blank_row(),
            decreases BUFFER_HEIGHT - r,
        {
            let mut row: Vec<Volatile<RenderedChar>> = Vec::new();
            let mut c: usize = 0;
            while c < BUFFER_WIDTH
                invariant
                    c <= BUFFER_WIDTH,
                    row@.len() == c,
                    forall|j: int| 0 <= j < c ==> cell_value(#[trigger] row@[j]) == blank,
                decreases BUFFER_WIDTH - c,
            {
                row.push(new_cell(blank));
                c = c + 1;
            }
            assert(row_cells(row) =~= blank_row());
            chars.push(row);
            r = r + 1;
        }
        let buf = CharBuffer { chars };
        assert(buf.grid() =~= Seq::new(BUFFER_HEIGHT as nat, |_r: int| blank_row()));
        buf
    }
}

/// Storing one cell changes that cell of the grid and nothing else.
proof fn lemma_grid_store(
    before: CharBuffer,
    after: CharBuffer,
    row: int,
    col: int,
    ch: RenderedChar,
)
    requires
        0 <= row < before.chars@.len(),
        0 <= col < before.chars@[row]@.len(),
        after.chars@.len() == before.chars@.len(),
        forall|r: int| 0 <= r < before.chars@.len() && r != row ==> #[trigger] after.chars@[r] == before.chars@[r],
        after.chars@[row]@.len() == before.chars@[row]@.len(),
        forall|c: int| 0 <= c < before.chars@[row]@.len() && c != col ==> #[trigger] after.chars@[row]@[c] == before.chars@[row]@[c],
        cell_value(after.chars@[row]@[col]) == ch,
    ensures
        after.grid() == before.grid().update(row, before.grid()[row].update(col, ch)),
{
    assert(after.grid()[row] =~= before.grid()[row].update(col, ch));
    assert(after.grid() =~= before.grid().update(row, before.grid()[row].update(col, ch)));
}


/// The console driver: cursor, current attribute and the screen cells.
pub struct Printer {
    pub cursor_x: usize,
    pub cursor_y: usize,
    pub colour_code: ColourCode,
    pub char_buffer: CharBuffer,
}

impl View for Printer {
    type V = ConsoleView;

    open spec fn view(&self) -> ConsoleView {
        ConsoleView {
            x: self.cursor_x as nat,
            y: self.cursor_y as nat,
            colour: self.colour_code,
            grid: self.char_buffer.grid(),
        }
    }
}

impl Printer {
    /// The cursor stays on screen, and every row has its full width.
    pub open spec fn wf(&self) -> bool {
        &&& view_wf(self@)
        &&& self.char_buffer.chars@.len() == BUFFER_HEIGHT
        &&& forall|r: int|
            0 <= r < BUFFER_HEIGHT ==> (#[trigger] self.char_buffer.chars@[r])@.len() == BUFFER_WIDTH
    }

    /// A console over a blank screen, cursor at the origin, white on black.
    pub fn new() -> (r: Printer)
        ensures
            r.wf(),
            r@.x == 0,
            r@.y == 0,
            r@.colour == colour_code_of(Colour::White, Colour::Black),
            r@.grid == Seq::new(BUFFER_HEIGHT as nat, |_r: int| blank_row()),
    {
        let p = Printer {
            cursor_x: 0,
            cursor_y: 0,
            colour_code: ColourCode::new(Colour::White, Colour::Black),
            char_buffer: CharBuffer::new(),
        };
        p
    }

    /// Column of the cursor.
    pub fn cursor_x(&self) -> (r: usize)
        ensures
            r == self@.x,
    {
        self.cursor_x
    }

    /// Row counter of the cursor.
    pub fn cursor_y(&self) -> (r: usize)
        ensures
            r == self@.y,
    {
        self.cursor_y
    }

    /// The attribute used for new characters.
    pub fn colour_code(&self) -> (r: ColourCode)
        ensures
            r == self@.colour,
    {
        self.colour_code
    }

    /// The cell at `row`, `col`, read through its volatile access.
    pub fn char_at(&self, row: usize, col: usize) -> (r: RenderedChar)
        requires
            self.wf(),
            row < BUFFER_HEIGHT,
            col < BUFFER_WIDTH,
        ensures
            r == self@.grid[row as int][col as int],
    {
        read_cell(&self.char_buffer.chars[row][col])
    }

    fn clear_row(&mut self, row: usize)
        requires
            old(self).wf(),
            row < BUFFER_HEIGHT,
        ensures
            final(self).wf(),
            final(self)@ == (ConsoleView { grid: old(self)@.grid.update(row as int, blank_row()), ..old(self)@ }),
    {
        let blank = RenderedChar {
            ascii_char: 0x20,
            colour_code: ColourCode::new(Colour::Yellow, Colour::Black),
        };
        let ghost g0 = self@.grid;
        let mut col: usize = 0;
        assert(g0[row as int] =~= blanked_prefix(g0[row as int], col as int));
        assert(g0 =~= g0.update(
            row as int,
            blanked_prefix(g0[row as int], col as int),
        ));
        while col < BUFFER_WIDTH
            invariant
                self.wf(),
                col <= BUFFER_WIDTH,
                row < BUFFER_HEIGHT,
                blank == blank_cell(),
                self.cursor_x == old(self).cursor_x,
                self.cursor_y == old(self).cursor_y,
                self.colour_code == old(self).colour_code,
                g0 == old(self)@.grid,
                grid_wf(g0),
                self@.grid == g0.update(
                    row as int,
                    blanked_prefix(g0[row as int], col as int),
                ),
            decreases BUFFER_WIDTH - col,
        {
            let ghost before = self.char_buffer;
            write_cell(&mut self.char_buffer.chars[row][col], blank);
            proof {
                lemma_grid_store(before, self.char_buffer, row as int, col as int, blank);
                assert(before.grid()[row as int].len() == BUFFER_WIDTH);
                assert(self@.grid[row as int] == before.grid()[row as int].update(col as int, blank));
            }
            col = col + 1;
            assert(self@.grid[row as int] =~= blanked_prefix(g0[row as int], col as int));
            assert(self@.grid =~= g0.update(
                row as int,
                blanked_prefix(g0[row as int], col as int),
            ));
        }
        assert(self@.grid[row as int] =~= blank_row());
        assert(self@.grid =~= g0.update(row as int, blank_row()));
    }

    fn new_line(&mut self)
        requires
            old(self).wf(),
        ensures
            final(self).wf(),
            final(self)@ == after_new_line(old(self)@),
    {
        let ghost g0 = self@.grid;
        let mut row: usize = 1;
        assert(g0 =~= shifted_upto(g0, 0));
        while row < BUFFER_HEIGHT
            invariant
                self.wf(),
                1 <= row <= BUFFER_HEIGHT,
                self.cursor_x == old(self).cursor_x,
                self.cursor_y == old(self).cursor_y,
                self.colour_code == old(self).colour_code,
                g0 == old(self)@.grid,
                grid_wf(g0),
                self@.grid == shifted_upto(g0, row - 1),
            decreases BUFFER_HEIGHT - row,
        {
            let ghost gr = self@.grid;
            let mut col: usize = 0;
            assert(copied_prefix(gr[row - 1], g0[row as int], 0) =~= gr[row - 1]);
            assert(gr =~= gr.update(row - 1, copied_prefix(gr[row - 1], g0[row as int], 0)));
            while col < BUFFER_WIDTH
                invariant
                    self.wf(),
                    1 <= row < BUFFER_HEIGHT,
                    col <= BUFFER_WIDTH,
                    self.cursor_x == old(self).cursor_x,
                    self.cursor_y == old(self).cursor_y,
                    self.colour_code == old(self).colour_code,
                    g0 == old(self)@.grid,
                    grid_wf(g0),
                    gr == shifted_upto(g0, row - 1),
                    self@.grid == gr.update(row - 1, copied_prefix(gr[row - 1], g0[row as int], col as int)),
                decreases BUFFER_WIDTH - col,
            {
                let ch = read_cell(&self.char_buffer.chars[row][col]);
                assert(self@.grid[row as int] == g0[row as int]);
                assert(ch == g0[row as int][col as int]);
                assert(gr[row - 1].len() == BUFFER_WIDTH);
                let ghost before = self.char_buffer;
                write_cell(&mut self.char_buffer.chars[row - 1][col], ch);
                proof {
                    lemma_grid_store(before, self.char_buffer, row - 1, col as int, ch);
                }
                col = col + 1;
                assert(self@.grid[row - 1] =~= copied_prefix(gr[row - 1], g0[row as int], col as int));
                assert(self@.grid =~= gr.update(row - 1, copied_prefix(gr[row - 1], g0[row as int], col as int)));
            }
            row = row + 1;
            assert(self@.grid =~= shifted_upto(g0, row - 1)) by {
                assert(copied_prefix(gr[row - 2], g0[row - 1], BUFFER_WIDTH as int) =~= g0[row - 1]);
            }
        }
        self.clear_row(BUFFER_HEIGHT - 1);
        self.cursor_x = 0;
        self.cursor_y = BUFFER_HEIGHT - 1;
        assert(self@.grid =~= scrolled(g0));
    }

    /// Puts one byte on screen: a newline starts a new line; any other byte
    /// is stored as it is, after a wrap when the bottom row is full.
    pub fn print_byte(&mut self, byte: u8)
        requires
            old(self).wf(),
        ensures
            final(self).wf(),
            final(self)@ == after_byte(old(self)@, byte),
    {
        if byte == 0x0a {
            self.new_line();
        } else {
            if self.cursor_x >= BUFFER_WIDTH {
                self.new_line();
            }
            let row = BUFFER_HEIGHT - 1;
            let col = self.cursor_x;
            let ch = RenderedChar { ascii_char: byte, colour_code: self.colour_code };
            let ghost before = self.char_buffer;
            write_cell(&mut self.char_buffer.chars[row][col], ch);
            proof {
                lemma_grid_store(before, self.char_buffer, row as int, col as int, ch);
            }
            self.cursor_x = self.cursor_x + 1;
        }
    }

    /// Prints the bytes of `string` left to right; a byte that is neither
    /// printable ASCII nor a newline shows as the placeholder glyph.
    pub fn print_string(&mut self, string: &str)
        requires
            old(self).wf(),
        ensures
            final(self).wf(),
            final(self)@ == after_string(old(self)@, string.spec_bytes()),
    {
        let bytes = string.as_bytes();
        let ghost bs = string.spec_bytes();
        let mut i: usize = 0;
        while i < bytes.len()
            invariant
                self.wf(),
                bytes@ == bs,
                i <= bs.len(),
                self@ == after_string(old(self)@, bs.take(i as int)),
            decreases bs.len() - i,
        {
            let byte = bytes[i];
            if (0x20 <= byte && byte <= 0x7e) || byte == 0x0a {
                self.print_byte(byte);
            } else {
                self.print_byte(PLACEHOLDER);
            }
            assert(bs.take(i + 1).drop_last() =~= bs.take(i as int));
            i = i + 1;
        }
        assert(bs.take(i as int) =~= bs);
    }

    /// Sets the attribute used for characters printed from now on.
    pub fn set_colour_code(&mut self, colour_code: ColourCode)
        requires
            old(self).wf(),
        ensures
            final(self).wf(),
            final(self)@ == (ConsoleView { colour: colour_code, ..old(self)@ }),
    {
        self.colour_code = colour_code;
    }
}

/// Number of newline bytes in `bs`.
pub open spec fn line_breaks(bs: Seq<u8>) -> nat
    decreases bs.len(),
{
    if bs.len() == 0 {
        0
    } else {
        line_breaks(bs.drop_last()) + if bs.last() == 0x0a { 1nat } else { 0nat }
    }
}

/// A run of printable bytes with room left on the bottom row lands on that
/// row one cell per byte from the cursor, in the current attribute; the
/// cursor moves one column per byte and nothing else on screen changes.
pub proof fn lemma_printable_run(v: ConsoleView, bs: Seq<u8>)
    requires
        view_wf(v),
        forall|i: int| 0 <= i < bs.len() ==> 0x20 <= #[trigger] bs[i] <= 0x7e,
        v.x + bs.len() <= BUFFER_WIDTH,
    ensures
        after_string(v, bs).x == v.x + bs.len(),
        after_string(v, bs).y == v.y,
        after_string(v, bs).colour == v.colour,
        grid_wf(after_string(v, bs).grid),
        forall|i: int|
            0 <= i < bs.len() ==> #[trigger] after_string(v, bs).grid[BUFFER_HEIGHT - 1][v.x + i]
                == (RenderedChar { ascii_char: bs[i], colour_code: v.colour }),
        forall|c: int|
            0 <= c < BUFFER_WIDTH && !(v.x <= c < v.x + bs.len()) ==> #[trigger] after_string(
                v,
                bs,
            ).grid[BUFFER_HEIGHT - 1][c] == v.grid[BUFFER_HEIGHT - 1][c],
        forall|r: int|
            0 <= r < BUFFER_HEIGHT - 1 ==> #[trigger] after_string(v, bs).grid[r] == v.grid[r],
    decreases bs.len(),
{
    if bs.len() > 0 {
        let front = bs.drop_last();
        assert forall|i: int| 0 <= i < front.len() implies 0x20 <= #[trigger] front[i] <= 0x7e by {
            assert(front[i] == bs[i]);
        }
        lemma_printable_run(v, front);
        let w = after_string(v, front);
        assert(glyph(bs.last()) == bs.last());
        assert forall|i: int| 0 <= i < bs.len() implies #[trigger] after_string(v, bs).grid[BUFFER_HEIGHT
            - 1][v.x + i] == (RenderedChar { ascii_char: bs[i], colour_code: v.colour }) by {
            if i < front.len() {
                assert(w.grid[BUFFER_HEIGHT - 1][v.x + i] == (RenderedChar {
                    ascii_char: front[i],
                    colour_code: v.colour,
                }));
            }
        }
    }
}

/// A byte outside printable ASCII, other than newline, acts exactly as the
/// placeholder glyph: it is stored as that glyph in the cell before the new
/// cursor and moves the cursor on by one cell, as any printable byte does.
pub proof fn lemma_placeholder(v: ConsoleView, b: u8)
    requires
        view_wf(v),
        !passes_through(b),
    ensures
        after_string(v, seq![b]) == after_byte(v, PLACEHOLDER),
        after_string(v, seq![b]).x >= 1,
        after_string(v, seq![b]).grid[BUFFER_HEIGHT - 1][after_string(v, seq![b]).x - 1]
            == (RenderedChar { ascii_char: PLACEHOLDER, colour_code: v.colour }),
{
    let bs = seq![b];
    assert(bs.drop_last() =~= Seq::<u8>::empty());
    assert(after_string(v, bs.drop_last()) == v);
    assert(bs.last() == b);
    assert(glyph(b) == PLACEHOLDER);
    assert(after_string(v, bs) == after_byte(v, PLACEHOLDER));
    let w = if v.x >= BUFFER_WIDTH { after_new_line(v) } else { v };
    assert(w.grid[BUFFER_HEIGHT - 1].len() == BUFFER_WIDTH);
}

/// The grids agree on every row from `j` down.
pub open spec fn rows_agree_from(g1: Seq<Seq<RenderedChar>>, g2: Seq<Seq<RenderedChar>>, j: int) -> bool {
    forall|r: int| j <= r < BUFFER_HEIGHT ==> #[trigger] g1[r] == #[trigger] g2[r]
}

proof fn lemma_byte_agree(v1: ConsoleView, v2: ConsoleView, b: u8, j: int)
    requires
        view_wf(v1),
        view_wf(v2),
        v1.x == v2.x,
        v1.y == v2.y,
        v1.colour == v2.colour,
        0 <= j <= BUFFER_HEIGHT,
        rows_agree_from(v1.grid, v2.grid, j),
    ensures
        after_byte(v1, b).x == after_byte(v2, b).x,
        after_byte(v1, b).y == after_byte(v2, b).y,
        after_byte(v1, b).colour == after_byte(v2, b).colour,
        rows_agree_from(after_byte(v1, b).grid, after_byte(v2, b).grid, if b == 0x0a && j > 0 { j - 1 } else { j }),
{
    let n1 = after_new_line(v1);
    let n2 = after_new_line(v2);
    assert(rows_agree_from(n1.grid, n2.grid, if j > 0 { j - 1 } else { 0 })) by {
        assert forall|r: int| (if j > 0 { j - 1 } else { 0 }) <= r < BUFFER_HEIGHT implies #[trigger] n1.grid[r]
            == #[trigger] n2.grid[r] by {
            if r < BUFFER_HEIGHT - 1 {
                assert(n1.grid[r] == v1.grid[r + 1]);
                assert(n2.grid[r] == v2.grid[r + 1]);
            }
        }
    }
    if b != 0x0a {
        let w1 = if v1.x >= BUFFER_WIDTH { n1 } else { v1 };
        let w2 = if v2.x >= BUFFER_WIDTH { n2 } else { v2 };
        assert(rows_agree_from(w1.grid, w2.grid, j));
        let last = BUFFER_HEIGHT - 1;
        let ch = RenderedChar { ascii_char: b, colour_code: w1.colour };
        assert forall|r: int| j <= r < BUFFER_HEIGHT implies #[trigger] after_byte(v1, b).grid[r]
            == #[trigger] after_byte(v2, b).grid[r] by {
            if r == last {
                assert(w1.grid[last] == w2.grid[last]);
            }
        }
    }
}

proof fn lemma_string_agree(v1: ConsoleView, v2: ConsoleView, bs: Seq<u8>)
    requires
        view_wf(v1),
        view_wf(v2),
        v1.colour == v2.colour,
    ensures
        view_wf(after_string(v1, bs)),
        view_wf(after_string(v2, bs)),
        after_string(v1, bs).colour == after_string(v2, bs).colour,
        line_breaks(bs) >= 1 ==> {
            &&& after_string(v1, bs).x == after_string(v2, bs).x
            &&& after_string(v1, bs).y == after_string(v2, bs).y
            &&& rows_agree_from(
                after_string(v1, bs).grid,
                after_string(v2, bs).grid,
                if line_breaks(bs) >= BUFFER_HEIGHT { 0 } else { BUFFER_HEIGHT - line_breaks(bs) },
            )
        },
    decreases bs.len(),
{
    lemma_after_string_wf(v1, bs);
    lemma_after_string_wf(v2, bs);
    lemma_colour_kept(v1, bs);
    lemma_colour_kept(v2, bs);
    if bs.len() > 0 {
        let front = bs.drop_last();
        lemma_string_agree(v1, v2, front);
        lemma_after_string_wf(v1, front);
        lemma_after_string_wf(v2, front);
        lemma_colour_kept(v1, front);
        lemma_colour_kept(v2, front);
        let w1 = after_string(v1, front);
        let w2 = after_string(v2, front);
        let b = glyph(bs.last());
        if line_breaks(front) >= 1 {
            let j = if line_breaks(front) >= BUFFER_HEIGHT { 0 } else { BUFFER_HEIGHT - line_breaks(front) };
            lemma_byte_agree(w1, w2, b, j);
        } else if bs.last() == 0x0a {
            assert(b == 0x0a);
            let g1 = after_byte(w1, b).grid;
            let g2 = after_byte(w2, b).grid;
            assert(g1[BUFFER_HEIGHT - 1] == blank_row());
            assert(g2[BUFFER_HEIGHT - 1] == blank_row());
            assert(rows_agree_from(g1, g2, BUFFER_HEIGHT - 1));
        }
    }
}

/// Once `BUFFER_HEIGHT` line breaks have been printed, nothing that was on
/// screen before is left: two consoles in the same attribute, whatever their
/// cursors and screen contents, end in the same state after the same bytes.
pub proof fn lemma_scrolled_out(v1: ConsoleView, v2: ConsoleView, bs: Seq<u8>)
    requires
        view_wf(v1),
        view_wf(v2),
        v1.colour == v2.colour,
        line_breaks(bs) >= BUFFER_HEIGHT,
    ensures
        after_string(v1, bs) == after_string(v2, bs),
{
    lemma_string_agree(v1, v2, bs);
    assert(after_string(v1, bs).grid =~= after_string(v2, bs).grid);
}

/// Printing never changes the current attribute.
pub proof fn lemma_colour_kept(v: ConsoleView, bs: Seq<u8>)
    ensures
        after_string(v, bs).colour == v.colour,
    decreases bs.len(),
{
    if bs.len() > 0 {
        lemma_colour_kept(v, bs.drop_last());
    }
}

/// The bottom row holds the latest run of printable bytes that has not
/// wrapped: if the last `k` bytes printed are printable and the cursor
/// stands at column `k` or beyond, those `k` bytes fill the `k` cells left
/// of the cursor, in the current attribute.
pub proof fn lemma_bottom_row_holds_latest(v: ConsoleView, bs: Seq<u8>, k: nat)
    requires
        view_wf(v),
        k <= bs.len(),
        forall|i: int| bs.len() - k <= i < bs.len() ==> 0x20 <= #[trigger] bs[i] <= 0x7e,
        after_string(v, bs).x >= k,
    ensures
        forall|i: int|
            0 <= i < k ==> #[trigger] after_string(v, bs).grid[BUFFER_HEIGHT - 1][after_string(v, bs).x - k + i]
                == (RenderedChar { ascii_char: bs[bs.len() - k + i], colour_code: v.colour }),
    decreases k,
{
    if k > 0 {
        let front = bs.drop_last();
        let w = after_string(v, front);
        let b = bs.last();
        lemma_after_string_wf(v, front);
        lemma_colour_kept(v, front);
        assert(0x20 <= bs[bs.len() - 1] <= 0x7e);
        assert(glyph(b) == b);
        let u = after_string(v, bs);
        if w.x >= BUFFER_WIDTH {
            assert(u.x == 1);
            assert(k == 1);
        } else {
            assert forall|i: int| front.len() - (k - 1) <= i < front.len() implies 0x20 <= #[trigger] front[i]
                <= 0x7e by {
                assert(front[i] == bs[i]);
            }
            lemma_bottom_row_holds_latest(v, front, (k - 1) as nat);
            assert forall|i: int| 0 <= i < k implies #[trigger] u.grid[BUFFER_HEIGHT - 1][u.x - k + i]
                == (RenderedChar { ascii_char: bs[bs.len() - k + i], colour_code: v.colour }) by {
                if i < k - 1 {
                    assert(w.grid[BUFFER_HEIGHT - 1][w.x - (k - 1) + i] == (RenderedChar {
                        ascii_char: front[front.len() - (k - 1) + i],
                        colour_code: v.colour,
                    }));
                    assert(front[front.len() - (k - 1) + i] == bs[bs.len() - k + i]);
                }
            }
        }
    }
}

/// A screen of blank rows.
pub open spec fn blank_screen() -> Seq<Seq<RenderedChar>> {
    Seq::new(BUFFER_HEIGHT as nat, |_r: int| blank_row())
}

proof fn lemma_line_breaks_on_blank(v: ConsoleView, bs: Seq<u8>)
    requires
        view_wf(v),
        v.grid == blank_screen(),
        forall|i: int| 0 <= i < bs.len() ==> #[trigger] bs[i] == 0x0a,
    ensures
        after_string(v, bs).grid == blank_screen(),
        line_breaks(bs) == bs.len(),
    decreases bs.len(),
{
    if bs.len() > 0 {
        let front = bs.drop_last();
        assert forall|i: int| 0 <= i < front.len() implies #[trigger] front[i] == 0x0a by {
            assert(front[i] == bs[i]);
        }
        lemma_line_breaks_on_blank(v, front);
        assert(bs[bs.len() - 1] == 0x0a);
        assert(scrolled(blank_screen()) =~= blank_screen());
    }
}

/// `BUFFER_HEIGHT` line breaks in a row leave a blank screen, whatever it
/// held before.
pub proof fn lemma_line_breaks_clear_screen(v: ConsoleView, bs: Seq<u8>)
    requires
        view_wf(v),
        bs.len() >= BUFFER_HEIGHT,
        forall|i: int| 0 <= i < bs.len() ==> #[trigger] bs[i] == 0x0a,
    ensures
        after_string(v, bs).grid == blank_screen(),
{
    let b = ConsoleView { grid: blank_screen(), ..v };
    lemma_line_breaks_on_blank(b, bs);
    lemma_scrolled_out(v, b, bs);
}

} // verus!
