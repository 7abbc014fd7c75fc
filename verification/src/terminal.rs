//! The terminal's character grid and the interpretation of the control
//! functions a shell sends to it.
//!
//! The state of a grid is described by [`GridModel`]; every operation on a
//! [`TerminalGrid`] is specified as a function on that model.

use vstd::prelude::*;

use crate::theme::Color;
use vte::Params;

verus! {

/// One character cell of the grid.
#[derive(Clone, Copy, PartialEq, Eq, Debug, Structural)]
pub struct Cell {
    pub ch: char,
    pub fg: Color,
    pub bg: Color,
    pub bold: bool,
    pub italic: bool,
}

impl Cell {
    /// An empty cell: a space in the default colours.
    pub open spec fn blank() -> Cell {
        Cell { ch: ' ', fg: Color::Default, bg: Color::Default, bold: false, italic: false }
    }
}

impl Default for Cell {
    fn default() -> (c: Self)
        ensures
            c == Cell::blank(),
    {
        Cell { ch: ' ', fg: Color::Default, bg: Color::Default, bold: false, italic: false }
    }
}

/// The attributes that newly printed characters receive.
#[derive(Clone, Copy, PartialEq, Eq, Debug, Structural)]
pub struct Pen {
    pub fg: Color,
    pub bg: Color,
    pub bold: bool,
    pub italic: bool,
    pub inverse: bool,
}

impl Default for Pen {
    fn default() -> (p: Self)
        ensures
            p == Pen::plain(),
    {
        Pen { fg: Color::Default, bg: Color::Default, bold: false, italic: false, inverse: false }
    }
}

/// The code at position `i`, if there is one.
pub open spec fn code_at(codes: Seq<u16>, i: int) -> Option<u16> {
    if 0 <= i < codes.len() {
        Some(codes[i])
    } else {
        None
    }
}

/// The code at position `i`, or 0 past the end.
pub open spec fn code_or_zero(codes: Seq<u16>, i: int) -> u16 {
    match code_at(codes, i) {
        Some(c) => c,
        None => 0,
    }
}

/// The low byte of a parameter, as an `as u8` cast keeps it.
pub open spec fn low_byte(x: u16) -> u8 {
    (x % 256) as u8
}

impl Pen {
    /// The pen with default colours and no attributes.
    pub open spec fn plain() -> Pen {
        Pen { fg: Color::Default, bg: Color::Default, bold: false, italic: false, inverse: false }
    }

    /// The (foreground, background) a printed cell receives; inverse video
    /// swaps them, standing in ANSI black and white for the defaults.
    pub open spec fn spec_cell_style(self) -> (Color, Color) {
        if self.inverse {
            let fg = match self.bg {
                Color::Default => Color::Indexed(0),
                other => other,
            };
            let bg = match self.fg {
                Color::Default => Color::Indexed(7),
                other => other,
            };
            (fg, bg)
        } else {
            (self.fg, self.bg)
        }
    }

    pub fn cell_style(&self) -> (style: (Color, Color))
        ensures
            style == self.spec_cell_style(),
    {
        if self.inverse {
            let fg = match self.bg {
                Color::Default => Color::Indexed(0),
                other => other,
            };
            let bg = match self.fg {
                Color::Default => Color::Indexed(7),
                other => other,
            };
            (fg, bg)
        } else {
            (self.fg, self.bg)
        }
    }

    /// The pen with its foreground (`is_fg`) or background set to `c`.
    pub open spec fn with_color(self, is_fg: bool, c: Color) -> Pen {
        if is_fg {
            Pen { fg: c, ..self }
        } else {
            Pen { bg: c, ..self }
        }
    }

    /// The effect of the SGR code at position `i`: the new pen and the
    /// position of the next code (extended colours consume their arguments).
    pub open spec fn sgr_step(self, codes: Seq<u16>, i: int) -> (Pen, int) {
        let code = codes[i];
        if code == 0 {
            (Pen::plain(), i + 1)
        } else if code == 1 {
            (Pen { bold: true, ..self }, i + 1)
        } else if code == 3 {
            (Pen { italic: true, ..self }, i + 1)
        } else if code == 7 {
            (Pen { inverse: true, ..self }, i + 1)
        } else if code == 22 {
            (Pen { bold: false, ..self }, i + 1)
        } else if code == 23 {
            (Pen { italic: false, ..self }, i + 1)
        } else if code == 27 {
            (Pen { inverse: false, ..self }, i + 1)
        } else if 30 <= code <= 37 {
            (Pen { fg: Color::Indexed((code - 30) as u8), ..self }, i + 1)
        } else if code == 39 {
            (Pen { fg: Color::Default, ..self }, i + 1)
        } else if 40 <= code <= 47 {
            (Pen { bg: Color::Indexed((code - 40) as u8), ..self }, i + 1)
        } else if code == 49 {
            (Pen { bg: Color::Default, ..self }, i + 1)
        } else if 90 <= code <= 97 {
            (Pen { fg: Color::Indexed((code - 90 + 8) as u8), ..self }, i + 1)
        } else if 100 <= code <= 107 {
            (Pen { bg: Color::Indexed((code - 100 + 8) as u8), ..self }, i + 1)
        } else if code == 38 || code == 48 {
            let is_fg = code == 38;
            match code_at(codes, i + 1) {
                Some(2) => (
                    self.with_color(
                        is_fg,
                        Color::Rgb(
                            low_byte(code_or_zero(codes, i + 2)),
                            low_byte(code_or_zero(codes, i + 3)),
                            low_byte(code_or_zero(codes, i + 4)),
                        ),
                    ),
                    i + 5,
                ),
                Some(5) => (
                    self.with_color(is_fg, Color::Indexed(low_byte(code_or_zero(codes, i + 2)))),
                    i + 3,
                ),
                _ => (self, i + 1),
            }
        } else {
            (self, i + 1)
        }
    }

    /// The pen after the codes from position `i` on.
    pub open spec fn sgr_from(self, codes: Seq<u16>, i: int) -> Pen
        decreases codes.len() - i,
    {
        if i < 0 || i >= codes.len() {
            self
        } else {
            let (p, j) = self.sgr_step(codes, i);
            p.sgr_from(codes, min_int(j, codes.len() as int))
        }
    }

    /// The pen after a whole SGR sequence; an empty one resets it.
    pub open spec fn spec_apply_sgr(self, codes: Seq<u16>) -> Pen {
        if codes.len() == 0 {
            Pen::plain()
        } else {
            self.sgr_from(codes, 0)
        }
    }
}

pub open spec fn clamp_dim(n: int) -> int {
    if n < 1 {
        1
    } else {
        n
    }
}

pub open spec fn min_int(a: int, b: int) -> int {
    if a <= b {
        a
    } else {
        b
    }
}

/// `a - b`, or 0 where that is negative.
pub open spec fn sat_sub(a: int, b: int) -> int {
    if a >= b {
        a - b
    } else {
        0
    }
}

/// A row of `cols` blank cells.
pub open spec fn blank_line(cols: int) -> Seq<Cell> {
    Seq::new(cols as nat, |_i: int| Cell::blank())
}

/// `line` cut to `cols` cells or padded with blanks to that width.
pub open spec fn resized_line(line: Seq<Cell>, cols: int) -> Seq<Cell> {
    if cols <= line.len() {
        line.subrange(0, cols)
    } else {
        line + Seq::new((cols - line.len()) as nat, |_i: int| Cell::blank())
    }
}

/// The abstract state of a terminal grid.
pub struct GridModel {
    pub rows: int,
    pub cols: int,
    /// `cells[r][c]` is the cell in row `r`, column `c`.
    pub cells: Seq<Seq<Cell>>,
    pub cursor_row: int,
    pub cursor_col: int,
    pub pen: Pen,
    /// Set after a character was printed in the last column: the next
    /// printed character goes to the start of the next line.
    pub wrap_pending: bool,
}

impl GridModel {
    /// The grid has at least one row and one column, every row has `cols`
    /// cells, and the cursor lies on the grid.
    pub open spec fn wf(self) -> bool {
        &&& self.rows >= 1
        &&& self.cols >= 1
        &&& self.cells.len() == self.rows
        &&& forall|r: int| 0 <= r < self.rows ==> #[trigger] self.cells[r].len() == self.cols
        &&& 0 <= self.cursor_row < self.rows
        &&& 0 <= self.cursor_col < self.cols
    }

    /// A blank grid of the given size (each at least 1).
    pub open spec fn fresh(rows: int, cols: int) -> GridModel {
        let r = clamp_dim(rows);
        let c = clamp_dim(cols);
        GridModel {
            rows: r,
            cols: c,
            cells: Seq::new(r as nat, |_i: int| blank_line(c)),
            cursor_row: 0,
            cursor_col: 0,
            pen: Pen::plain(),
            wrap_pending: false,
        }
    }

    /// The grid after a change of size: rows are cut or padded to the new
    /// width; rows are added at the bottom, or removed from the top with the
    /// cursor moving up along with the text; the cursor is then clamped.
    pub open spec fn resize(self, rows: int, cols: int) -> GridModel {
        let r = clamp_dim(rows);
        let c = clamp_dim(cols);
        if r == self.rows && c == self.cols {
            self
        } else {
            let n = self.cells.len() as int;
            let lines = self.cells.map_values(|l: Seq<Cell>| resized_line(l, c));
            let cells = if r > n {
                lines + Seq::new((r - n) as nat, |_i: int| blank_line(c))
            } else {
                lines.subrange(n - r, n)
            };
            let cr = if r > n {
                self.cursor_row
            } else {
                sat_sub(self.cursor_row, n - r)
            };
            GridModel {
                rows: r,
                cols: c,
                cells,
                cursor_row: min_int(cr, r - 1),
                cursor_col: min_int(self.cursor_col, c - 1),
                pen: self.pen,
                wrap_pending: false,
            }
        }
    }

    /// The grid scrolled up by one line: the top row is discarded and a
    /// blank row appears at the bottom.
    pub open spec fn scroll_up(self) -> GridModel {
        GridModel { cells: self.cells.drop_first().push(blank_line(self.cols)), ..self }
    }

    /// The cursor moves down one row, scrolling at the bottom row.
    pub open spec fn newline(self) -> GridModel {
        if self.cursor_row + 1 >= self.rows {
            self.scroll_up()
        } else {
            GridModel { cursor_row: self.cursor_row + 1, ..self }
        }
    }

    /// The grid after printing `ch`: a pending wrap first moves the cursor to
    /// the start of the next line; the cell under the cursor receives `ch` in
    /// the pen's style; the cursor advances, or in the last column a wrap
    /// becomes pending.
    pub open spec fn put_char(self, ch: char) -> GridModel {
        let s = if self.wrap_pending {
            GridModel { wrap_pending: false, ..GridModel { cursor_col: 0, ..self }.newline() }
        } else {
            self
        };
        let style = s.pen.spec_cell_style();
        let cell = Cell { ch, fg: style.0, bg: style.1, bold: s.pen.bold, italic: s.pen.italic };
        let cells = s.cells.update(s.cursor_row, s.cells[s.cursor_row].update(s.cursor_col, cell));
        if s.cursor_col + 1 >= s.cols {
            GridModel { cells, wrap_pending: true, ..s }
        } else {
            GridModel { cells, cursor_col: s.cursor_col + 1, ..s }
        }
    }

    /// The cursor moved to (`row`, `col`), clamped to the grid; any pending
    /// wrap is cancelled.
    pub open spec fn move_cursor(self, row: int, col: int) -> GridModel {
        GridModel {
            cursor_row: min_int(row, self.rows - 1),
            cursor_col: min_int(col, self.cols - 1),
            wrap_pending: false,
            ..self
        }
    }

    /// The grid with every cell in `region` (as row, column) made blank.
    pub open spec fn erase_where(self, region: Set<(int, int)>) -> GridModel {
        GridModel {
            cells: Seq::new(
                self.cells.len(),
                |r: int|
                    Seq::new(
                        self.cells[r].len(),
                        |c: int|
                            if region.contains((r, c)) {
                                Cell::blank()
                            } else {
                                self.cells[r][c]
                            },
                    ),
            ),
            ..self
        }
    }

    /// The cells `from <= c < to` of row `row` made blank.
    pub open spec fn clear_range(self, row: int, from: int, to: int) -> GridModel {
        self.erase_where(span_region(row, from, to))
    }

    /// Erase in line (EL): 0 clears from the cursor to the end of its row,
    /// 1 from the start of the row through the cursor, 2 the whole row.
    pub open spec fn erase_in_line(self, mode: u16) -> GridModel {
        if mode <= 2 {
            self.erase_where(line_erase_region(mode, self.cursor_row, self.cursor_col))
        } else {
            self
        }
    }

    /// Erase in display (ED): 0 clears from the cursor to the end of the
    /// grid, 1 from its start through the cursor, 2 and 3 the whole grid.
    pub open spec fn erase_in_display(self, mode: u16) -> GridModel {
        if mode <= 3 {
            self.erase_where(display_erase_region(mode, self.cursor_row, self.cursor_col))
        } else {
            self
        }
    }

    /// The pen after a select-graphic-rendition sequence.
    pub open spec fn apply_sgr(self, codes: Seq<u16>) -> GridModel {
        GridModel { pen: self.pen.spec_apply_sgr(codes), ..self }
    }

    /// The effect of a C0 control character: line feed (also VT and FF),
    /// carriage return, backspace and horizontal tab; others are ignored.
    pub open spec fn execute(self, byte: u8) -> GridModel {
        if byte == 10 || byte == 11 || byte == 12 {
            GridModel { wrap_pending: false, ..self.newline() }
        } else if byte == 13 {
            GridModel { cursor_col: 0, wrap_pending: false, ..self }
        } else if byte == 8 {
            GridModel { cursor_col: sat_sub(self.cursor_col, 1), wrap_pending: false, ..self }
        } else if byte == 9 {
            GridModel {
                cursor_col: min_int((self.cursor_col / 8 + 1) * 8, self.cols - 1),
                wrap_pending: false,
                ..self
            }
        } else {
            self
        }
    }

    /// The effect of a control sequence (CSI) with parameter groups `groups`,
    /// intermediate bytes `intermediates` and final character `action`.
    pub open spec fn csi_dispatch(
        self,
        groups: Seq<Seq<u16>>,
        intermediates: Seq<u8>,
        action: char,
    ) -> GridModel {
        let private = intermediates.len() > 0 && intermediates[0] == 63;
        let n = param_or(groups, 0, 1) as int;
        if action == 'A' {
            self.move_cursor(sat_sub(self.cursor_row, n), self.cursor_col)
        } else if action == 'B' {
            self.move_cursor(self.cursor_row + n, self.cursor_col)
        } else if action == 'C' {
            self.move_cursor(self.cursor_row, self.cursor_col + n)
        } else if action == 'D' {
            self.move_cursor(self.cursor_row, sat_sub(self.cursor_col, n))
        } else if action == 'G' {
            self.move_cursor(self.cursor_row, sat_sub(n, 1))
        } else if action == 'd' {
            self.move_cursor(sat_sub(n, 1), self.cursor_col)
        } else if action == 'H' || action == 'f' {
            self.move_cursor(sat_sub(n, 1), sat_sub(param_or(groups, 1, 1) as int, 1))
        } else if action == 'J' && !private {
            self.erase_in_display(param_or(groups, 0, 0))
        } else if action == 'K' && !private {
            self.erase_in_line(param_or(groups, 0, 0))
        } else if action == 'm' {
            self.apply_sgr(flatten_groups(groups))
        } else {
            self
        }
    }
}

/// The cells `from <= c < to` of row `row`.
pub open spec fn span_region(row: int, from: int, to: int) -> Set<(int, int)> {
    Set::new(|p: (int, int)| p.0 == row && from <= p.1 && p.1 < to)
}

/// The rows `from <= r < to`.
pub open spec fn rows_region(from: int, to: int) -> Set<(int, int)> {
    Set::new(|p: (int, int)| from <= p.0 && p.0 < to)
}

/// The cells EL with `mode` clears, for the cursor at (`cr`, `cc`).
pub open spec fn line_erase_region(mode: u16, cr: int, cc: int) -> Set<(int, int)> {
    Set::new(
        |p: (int, int)|
            p.0 == cr && if mode == 0 {
                p.1 >= cc
            } else if mode == 1 {
                p.1 <= cc
            } else {
                mode == 2
            },
    )
}

/// The cells ED with `mode` clears, for the cursor at (`cr`, `cc`).
pub open spec fn display_erase_region(mode: u16, cr: int, cc: int) -> Set<(int, int)> {
    Set::new(
        |p: (int, int)|
            if mode == 0 {
                (p.0 == cr && p.1 >= cc) || p.0 > cr
            } else if mode == 1 {
                p.0 < cr || (p.0 == cr && p.1 <= cc)
            } else {
                mode == 2 || mode == 3
            },
    )
}

/// Parameter `n` of a control sequence: its first value where present and
/// non-zero, else `default`.
pub open spec fn param_or(groups: Seq<Seq<u16>>, n: int, default: u16) -> u16 {
    if 0 <= n < groups.len() && groups[n].len() > 0 && groups[n][0] != 0 {
        groups[n][0]
    } else {
        default
    }
}


/// All parameter values in order, an empty group counting as a single 0.
pub open spec fn flatten_groups(groups: Seq<Seq<u16>>) -> Seq<u16>
    decreases groups.len(),
{
    if groups.len() == 0 {
        seq![]
    } else {
        flatten_groups(groups.drop_last()) + if groups.last().len() == 0 {
            seq![0u16]
        } else {
            groups.last()
        }
    }
}

/// Erasing keeps the grid well formed and touches nothing but the cells.
pub proof fn lemma_erase_wf(m: GridModel, region: Set<(int, int)>)
    requires
        m.wf(),
    ensures
        m.erase_where(region).wf(),
        m.erase_where(region).rows == m.rows,
        m.erase_where(region).cols == m.cols,
        m.erase_where(region).cursor_row == m.cursor_row,
        m.erase_where(region).cursor_col == m.cursor_col,
        m.erase_where(region).pen == m.pen,
        m.erase_where(region).wrap_pending == m.wrap_pending,
{
    let e = m.erase_where(region);
    assert forall|r: int| 0 <= r < e.rows implies #[trigger] e.cells[r].len() == e.cols by {
        assert(m.cells[r].len() == m.cols);
    }
}

/// Erasing depends only on which cells of the grid the region holds.
pub proof fn lemma_erase_ext(m: GridModel, a: Set<(int, int)>, b: Set<(int, int)>)
    requires
        m.wf(),
        forall|r: int, c: int|
            0 <= r < m.rows && 0 <= c < m.cols ==> (#[trigger] a.contains((r, c)) == b.contains((r, c))),
    ensures
        m.erase_where(a) == m.erase_where(b),
{
    let x = m.erase_where(a);
    let y = m.erase_where(b);
    assert forall|r: int| 0 <= r < m.rows implies #[trigger] x.cells[r] =~= y.cells[r] by {
        assert(m.cells[r].len() == m.cols);
        assert forall|c: int| 0 <= c < m.cols implies x.cells[r][c] == y.cells[r][c] by {
            assert(a.contains((r, c)) == b.contains((r, c)));
        }
    }
    assert(x.cells =~= y.cells);
}

/// Erasing two regions in turn erases their union.
pub proof fn lemma_erase_compose(m: GridModel, a: Set<(int, int)>, b: Set<(int, int)>)
    requires
        m.wf(),
    ensures
        m.erase_where(a).erase_where(b) == m.erase_where(a + b),
{
    let x = m.erase_where(a).erase_where(b);
    let y = m.erase_where(a + b);
    lemma_erase_wf(m, a);
    assert forall|r: int| 0 <= r < m.rows implies #[trigger] x.cells[r] =~= y.cells[r] by {
        assert(m.cells[r].len() == m.cols);
    }
    assert(x.cells =~= y.cells);
}

/// Erasing a region that holds no cell of the grid changes nothing.
pub proof fn lemma_erase_nothing(m: GridModel, a: Set<(int, int)>)
    requires
        m.wf(),
        forall|r: int, c: int| 0 <= r < m.rows && 0 <= c < m.cols ==> !(#[trigger] a.contains((r, c))),
    ensures
        m.erase_where(a) == m,
{
    let x = m.erase_where(a);
    assert forall|r: int| 0 <= r < m.rows implies #[trigger] x.cells[r] =~= m.cells[r] by {
        assert(m.cells[r].len() == m.cols);
        assert forall|c: int| 0 <= c < m.cols implies x.cells[r][c] == m.cells[r][c] by {
            assert(!a.contains((r, c)));
        }
    }
    assert(x.cells =~= m.cells);
}

/// The pen after the SGR code at position `i`, and the position of the next
/// code (never past the end).
fn sgr_step(pen: Pen, codes: &[u16], i: usize) -> (res: (Pen, usize))
    requires
        i < codes@.len(),
    ensures
        res.0 == pen.sgr_step(codes@, i as int).0,
        res.1 == min_int(pen.sgr_step(codes@, i as int).1, codes@.len() as int),
{
    let len = codes.len();
    let code = codes[i];
    if code == 0 {
        (Pen::default(), i + 1)
    } else if code == 1 {
        (Pen { bold: true, ..pen }, i + 1)
    } else if code == 3 {
        (Pen { italic: true, ..pen }, i + 1)
    } else if code == 7 {
        (Pen { inverse: true, ..pen }, i + 1)
    } else if code == 22 {
        (Pen { bold: false, ..pen }, i + 1)
    } else if code == 23 {
        (Pen { italic: false, ..pen }, i + 1)
    } else if code == 27 {
        (Pen { inverse: false, ..pen }, i + 1)
    } else if 30 <= code && code <= 37 {
        (Pen { fg: Color::Indexed((code - 30) as u8), ..pen }, i + 1)
    } else if code == 39 {
        (Pen { fg: Color::Default, ..pen }, i + 1)
    } else if 40 <= code && code <= 47 {
        (Pen { bg: Color::Indexed((code - 40) as u8), ..pen }, i + 1)
    } else if code == 49 {
        (Pen { bg: Color::Default, ..pen }, i + 1)
    } else if 90 <= code && code <= 97 {
        (Pen { fg: Color::Indexed((code - 90 + 8) as u8), ..pen }, i + 1)
    } else if 100 <= code && code <= 107 {
        (Pen { bg: Color::Indexed((code - 100 + 8) as u8), ..pen }, i + 1)
    } else if code == 38 || code == 48 {
        let is_fg = code == 38;
        let kind = if len - i > 1 { Some(codes[i + 1]) } else { None };
        match kind {
            Some(2) => {
                let r = if len - i > 2 { codes[i + 2] } else { 0 };
                let g = if len - i > 3 { codes[i + 3] } else { 0 };
                let b = if len - i > 4 { codes[i + 4] } else { 0 };
                let c = Color::Rgb((r % 256) as u8, (g % 256) as u8, (b % 256) as u8);
                let p = if is_fg { Pen { fg: c, ..pen } } else { Pen { bg: c, ..pen } };
                (p, if len - i > 5 { i + 5 } else { len })
            },
            Some(5) => {
                let n = if len - i > 2 { codes[i + 2] } else { 0 };
                let c = Color::Indexed((n % 256) as u8);
                let p = if is_fg { Pen { fg: c, ..pen } } else { Pen { bg: c, ..pen } };
                (p, if len - i > 3 { i + 3 } else { len })
            },
            _ => (pen, i + 1),
        }
    } else {
        (pen, i + 1)
    }
}

/// All parameter values in order, an empty group counting as a single 0.
pub fn flatten_groups_exec(groups: &Vec<Vec<u16>>) -> (out: Vec<u16>)
    ensures
        out@ == flatten_groups(groups_view(groups@)),
{
    let mut out: Vec<u16> = Vec::new();
    let mut i: usize = 0;
    while i < groups.len()
        invariant
            i <= groups@.len(),
            out@ == flatten_groups(groups_view(groups@.subrange(0, i as int))),
        decreases groups@.len() - i,
    {
        let ghost before = groups_view(groups@.subrange(0, i as int));
        assert(groups_view(groups@.subrange(0, i + 1)).drop_last() =~= before);
        if groups[i].len() == 0 {
            out.push(0);
            assert(out@ =~= flatten_groups(groups_view(groups@.subrange(0, i + 1))));
        } else {
            let mut k: usize = 0;
            let ghost base = out@;
            while k < groups[i].len()
                invariant
                    i < groups@.len(),
                    k <= groups@[i as int]@.len(),
                    out@ == base + groups@[i as int]@.subrange(0, k as int),
                decreases groups@[i as int]@.len() - k,
            {
                out.push(groups[i][k]);
                k += 1;
                assert(out@ =~= base + groups@[i as int]@.subrange(0, k as int));
            }
            assert(out@ =~= flatten_groups(groups_view(groups@.subrange(0, i + 1))));
        }
        i += 1;
    }
    assert(groups@.subrange(0, groups@.len() as int) =~= groups@);
    out
}

/// Parameter `n`: its first value where present and non-zero, else `default`.
pub fn group_param(groups: &Vec<Vec<u16>>, n: usize, default: u16) -> (v: u16)
    ensures
        v == param_or(groups_view(groups@), n as int, default),
{
    if n < groups.len() && groups[n].len() > 0 && groups[n][0] != 0 {
        groups[n][0]
    } else {
        default
    }
}

/// The contents of a list of parameter groups.
pub open spec fn groups_view(groups: Seq<Vec<u16>>) -> Seq<Seq<u16>> {
    groups.map_values(|g: Vec<u16>| g@)
}

/// The parameter list the escape-sequence parser hands to a control-sequence
/// callback; its contents are read only through `param_groups`.
#[verifier::external_type_specification]
#[verifier::external_body]
pub struct ExParams(vte::Params);

/// The parameter groups a control sequence carries, in order; each group is
/// a parameter followed by its subparameters.
pub uninterp spec fn param_groups(params: Params) -> Seq<Seq<u16>>;

/// Copies out the groups of `vte::Params::iter`, one vector per group, in
/// the order the iterator yields them.
#[verifier::external_body]
fn collect_param_groups(params: &Params) -> (groups: Vec<Vec<u16>>)
    ensures
        groups_view(groups@) == param_groups(*params),
{
    params.iter().map(|group| group.to_vec()).collect()
}

/// All parameter values of a control sequence, an empty group counting as 0.
pub fn flatten_params(params: &Params) -> (out: Vec<u16>)
    ensures
        out@ == flatten_groups(param_groups(*params)),
{
    let groups = collect_param_groups(params);
    flatten_groups_exec(&groups)
}

/// The first parameter of a control sequence where present and non-zero,
/// else `default`.
pub fn first_param(params: &Params, default: u16) -> (v: u16)
    ensures
        v == param_or(param_groups(*params), 0, default),
{
    let groups = collect_param_groups(params);
    group_param(&groups, 0, default)
}

/// Parameter `n` of a control sequence where present and non-zero, else
/// `default`.
pub fn nth_param(params: &Params, n: usize, default: u16) -> (v: u16)
    ensures
        v == param_or(param_groups(*params), n as int, default),
{
    let groups = collect_param_groups(params);
    group_param(&groups, n, default)
}

/// Resizing twice to the same size is the same as resizing once, and
/// resizing to the current size changes nothing.
pub proof fn law_resize_idempotent(m: GridModel, rows: int, cols: int)
    requires
        m.wf(),
    ensures
        m.resize(rows, cols).resize(rows, cols) == m.resize(rows, cols),
        m.resize(m.rows, m.cols) == m,
{
}

/// Resizing gives a well-formed grid of the requested size (at least 1x1).
pub proof fn law_resize_wf(m: GridModel, rows: int, cols: int)
    requires
        m.wf(),
    ensures
        m.resize(rows, cols).wf(),
        m.resize(rows, cols).rows == (if rows < 1 { 1 } else { rows }),
        m.resize(rows, cols).cols == (if cols < 1 { 1 } else { cols }),
{
    let g = m.resize(rows, cols);
    if !((if rows < 1 { 1 } else { rows }) == m.rows && (if cols < 1 { 1 } else { cols }) == m.cols) {
        assert forall|r: int| 0 <= r < g.rows implies #[trigger] g.cells[r].len() == g.cols by {
            if (if rows < 1 { 1 } else { rows }) <= m.rows {
                assert(m.cells[r + (m.rows - (if rows < 1 { 1 } else { rows }))].len() == m.cols);
            } else if r < m.rows {
                assert(m.cells[r].len() == m.cols);
            }
        }
    }
}

/// Resizing keeps the text anchored at the bottom-left: the cell `k` rows
/// above the bottom row in column `c` stays `k` rows above the bottom row,
/// as long as both grids have that row and column; where the grid grows,
/// the new cells are blank.
pub proof fn law_resize_keeps_cells(m: GridModel, rows: int, cols: int, r: int, c: int)
    requires
        m.wf(),
        0 <= c < m.cols,
        c < (if cols < 1 { 1 } else { cols }),
        0 <= r < m.rows,
        (if rows < 1 { 1 } else { rows }) <= m.rows ==> r >= m.rows - (if rows < 1 { 1 } else { rows }),
    ensures
        ({
            let g = m.resize(rows, cols);
            let shift = if (if rows < 1 { 1 } else { rows }) <= m.rows { m.rows - (if rows < 1 { 1 } else { rows }) } else { 0 };
            g.cells[r - shift][c] == m.cells[r][c]
        }),
{
    assert(m.cells[r].len() == m.cols);
}

/// Where the grid grows, the new rows and the new columns are blank.
pub proof fn law_resize_grows_blank(m: GridModel, rows: int, cols: int, r: int, c: int)
    requires
        m.wf(),
        rows >= m.rows,
        cols >= m.cols,
        0 <= r < rows,
        0 <= c < cols,
        r >= m.rows || c >= m.cols,
    ensures
        m.resize(rows, cols).cells[r][c] == Cell::blank(),
{
    if r < m.rows {
        assert(m.cells[r].len() == m.cols);
    }
}

/// Printing without a pending wrap puts the character, in the pen's style,
/// under the cursor and moves the cursor one column right, or at the last
/// column leaves it there with a wrap pending; nothing else changes.
pub proof fn law_print_writes_cell(m: GridModel, ch: char)
    requires
        m.wf(),
        !m.wrap_pending,
    ensures
        ({
            let g = m.put_char(ch);
            let style = m.pen.spec_cell_style();
            &&& g.wf()
            &&& g.cells[m.cursor_row][m.cursor_col] == Cell {
                ch,
                fg: style.0,
                bg: style.1,
                bold: m.pen.bold,
                italic: m.pen.italic,
            }
            &&& forall|r: int, c: int|
                0 <= r < m.rows && 0 <= c < m.cols && (r != m.cursor_row || c != m.cursor_col)
                    ==> #[trigger] g.cells[r][c] == m.cells[r][c]
            &&& g.cursor_row == m.cursor_row
            &&& if m.cursor_col + 1 < m.cols {
                g.cursor_col == m.cursor_col + 1 && !g.wrap_pending
            } else {
                g.cursor_col == m.cursor_col && g.wrap_pending
            }
        }),
{
    let g = m.put_char(ch);
    assert forall|r: int| 0 <= r < g.rows implies #[trigger] g.cells[r].len() == g.cols by {
        assert(m.cells[r].len() == m.cols);
    }
}

/// A line feed on the bottom row scrolls: the top row is lost, every other
/// row moves up by one and a blank row appears at the bottom, while the
/// cursor stays on the bottom row.
pub proof fn law_linefeed_scrolls_at_bottom(m: GridModel)
    requires
        m.wf(),
        m.cursor_row == m.rows - 1,
    ensures
        ({
            let g = m.execute(10);
            &&& g.wf()
            &&& g.cursor_row == m.cursor_row
            &&& g.cursor_col == m.cursor_col
            &&& forall|r: int| 0 <= r < m.rows - 1 ==> #[trigger] g.cells[r] == m.cells[r + 1]
            &&& g.cells[m.rows - 1] == blank_line(m.cols)
        }),
{
    let g = m.execute(10);
    assert forall|r: int| 0 <= r < g.rows implies #[trigger] g.cells[r].len() == g.cols by {
        if r < m.rows - 1 {
            assert(m.cells[r + 1].len() == m.cols);
        }
    }
}

/// Carriage return then line feed puts the cursor at the start of the next
/// row, or of the bottom row after scrolling.
pub proof fn law_crlf(m: GridModel)
    requires
        m.wf(),
    ensures
        m.execute(13).execute(10).cursor_col == 0,
        m.execute(13).execute(10).cursor_row == min_int(m.cursor_row + 1, m.rows - 1),
        !m.execute(13).execute(10).wrap_pending,
{
}

/// Erasing the whole display (ED 2 or 3) blanks every cell and leaves the
/// cursor, the pen and the size alone.
pub proof fn law_erase_display_all(m: GridModel, mode: u16)
    requires
        m.wf(),
        mode == 2 || mode == 3,
    ensures
        ({
            let g = m.erase_in_display(mode);
            &&& g.wf()
            &&& g.rows == m.rows
            &&& g.cols == m.cols
            &&& g.cursor_row == m.cursor_row
            &&& g.cursor_col == m.cursor_col
            &&& g.pen == m.pen
            &&& forall|r: int, c: int| 0 <= r < m.rows && 0 <= c < m.cols ==> #[trigger] g.cells[r][c] == Cell::blank()
        }),
{
    lemma_erase_wf(m, display_erase_region(mode, m.cursor_row, m.cursor_col));
    assert forall|r: int, c: int| 0 <= r < m.rows && 0 <= c < m.cols implies #[trigger] m.erase_in_display(mode).cells[r][c] == Cell::blank() by {
        assert(m.cells[r].len() == m.cols);
        assert(display_erase_region(mode, m.cursor_row, m.cursor_col).contains((r, c)));
    }
}

/// Cursor positioning (CUP, `ESC [ row ; col H`) moves the cursor to the
/// 1-based position given, clamped to the grid, whatever the cursor was.
pub proof fn law_cursor_position(m: GridModel, row: u16, col: u16)
    requires
        m.wf(),
        row >= 1,
        col >= 1,
    ensures
        ({
            let g = m.csi_dispatch(seq![seq![row], seq![col]], seq![], 'H');
            &&& g.cursor_row == min_int(row - 1, m.rows - 1)
            &&& g.cursor_col == min_int(col - 1, m.cols - 1)
            &&& g.cells == m.cells
        }),
{
}

/// A missing or zero parameter counts as 1 for cursor movement: `ESC [ A`
/// and `ESC [ 0 A` both move the cursor up one row.
pub proof fn law_cursor_default_count(m: GridModel)
    requires
        m.wf(),
    ensures
        m.csi_dispatch(seq![], seq![], 'A') == m.csi_dispatch(seq![seq![0u16]], seq![], 'A'),
        m.csi_dispatch(seq![], seq![], 'A').cursor_row == sat_sub(m.cursor_row, 1),
{
}

/// An empty SGR sequence and SGR 0 both reset the pen, whatever it was.
pub proof fn law_sgr_reset(p: Pen)
    ensures
        p.spec_apply_sgr(seq![]) == Pen::plain(),
        p.spec_apply_sgr(seq![0u16]) == Pen::plain(),
{
    assert(Pen::plain().sgr_from(seq![0u16], 1) == Pen::plain());
}

/// Turning an attribute on and then off again restores the pen: SGR 22
/// undoes 1 (bold), 23 undoes 3 (italic) and 27 undoes 7 (inverse).
pub proof fn law_sgr_attribute_undo(p: Pen)
    ensures
        !p.bold ==> p.spec_apply_sgr(seq![1u16]).spec_apply_sgr(seq![22u16]) == p,
        !p.italic ==> p.spec_apply_sgr(seq![3u16]).spec_apply_sgr(seq![23u16]) == p,
        !p.inverse ==> p.spec_apply_sgr(seq![7u16]).spec_apply_sgr(seq![27u16]) == p,
{
    let one = seq![1u16];
    let three = seq![3u16];
    let seven = seq![7u16];
    assert(Pen { bold: true, ..p }.sgr_from(one, 1) == Pen { bold: true, ..p });
    assert(Pen { bold: false, ..p }.sgr_from(seq![22u16], 1) == Pen { bold: false, ..p });
    assert(Pen { italic: true, ..p }.sgr_from(three, 1) == Pen { italic: true, ..p });
    assert(Pen { italic: false, ..p }.sgr_from(seq![23u16], 1) == Pen { italic: false, ..p });
    assert(Pen { inverse: true, ..p }.sgr_from(seven, 1) == Pen { inverse: true, ..p });
    assert(Pen { inverse: false, ..p }.sgr_from(seq![27u16], 1) == Pen { inverse: false, ..p });
}

/// Inverse video swaps explicit colours.
pub proof fn law_inverse_swaps(p: Pen)
    requires
        p.inverse,
        p.fg != Color::Default,
        p.bg != Color::Default,
    ensures
        p.spec_cell_style() == (p.bg, p.fg),
{
}

/// Printing with a wrap pending, above the bottom row, puts the character
/// at the start of the next row.
pub proof fn law_print_after_wrap(m: GridModel, ch: char)
    requires
        m.wf(),
        m.wrap_pending,
        m.cursor_row + 1 < m.rows,
    ensures
        ({
            let g = m.put_char(ch);
            let style = m.pen.spec_cell_style();
            &&& g.cells[m.cursor_row + 1][0] == Cell {
                ch,
                fg: style.0,
                bg: style.1,
                bold: m.pen.bold,
                italic: m.pen.italic,
            }
            &&& g.cursor_row == m.cursor_row + 1
            &&& (m.cols > 1 ==> g.cursor_col == 1 && !g.wrap_pending)
        }),
{
    assert(m.cells[m.cursor_row + 1].len() == m.cols);
}

/// Erasing the whole line (EL 2) blanks the cursor's row and nothing else,
/// and leaves the cursor where it is.
pub proof fn law_erase_line_all(m: GridModel)
    requires
        m.wf(),
    ensures
        ({
            let g = m.erase_in_line(2);
            &&& g.cursor_row == m.cursor_row
            &&& g.cursor_col == m.cursor_col
            &&& forall|r: int, c: int|
                0 <= r < m.rows && 0 <= c < m.cols ==> #[trigger] g.cells[r][c] == if r == m.cursor_row {
                    Cell::blank()
                } else {
                    m.cells[r][c]
                }
        }),
{
    assert forall|r: int, c: int| 0 <= r < m.rows && 0 <= c < m.cols implies #[trigger] m.erase_in_line(2).cells[r][c] == if r == m.cursor_row {
        Cell::blank()
    } else {
        m.cells[r][c]
    } by {
        assert(m.cells[r].len() == m.cols);
        assert(line_erase_region(2, m.cursor_row, m.cursor_col).contains((r, c)) == (r == m.cursor_row));
    }
}

/// Backspace takes back the cursor advance of a print: after printing in
/// any column but the last, a backspace returns the cursor to where it was.
pub proof fn law_backspace_undoes_advance(m: GridModel, ch: char)
    requires
        m.wf(),
        !m.wrap_pending,
        m.cursor_col + 1 < m.cols,
    ensures
        m.put_char(ch).execute(8).cursor_row == m.cursor_row,
        m.put_char(ch).execute(8).cursor_col == m.cursor_col,
        !m.put_char(ch).execute(8).wrap_pending,
{
}

/// The fields an SGR sequence overwrites, with their new values; `None`
/// leaves a field as it was.
pub struct PenUpdate {
    pub fg: Option<Color>,
    pub bg: Option<Color>,
    pub bold: Option<bool>,
    pub italic: Option<bool>,
    pub inverse: Option<bool>,
}

/// `o`'s value where it has one, else `v`.
pub open spec fn or_keep<T>(o: Option<T>, v: T) -> T {
    match o {
        Some(x) => x,
        None => v,
    }
}

/// `u2` where it sets a field, else `u1`.
pub open spec fn or_first<T>(u1: Option<T>, u2: Option<T>) -> Option<T> {
    match u2 {
        Some(x) => Some(x),
        None => u1,
    }
}

impl PenUpdate {
    /// The update that changes nothing.
    pub open spec fn keep() -> PenUpdate {
        PenUpdate { fg: None, bg: None, bold: None, italic: None, inverse: None }
    }

    /// The update that sets every field to `p`'s.
    pub open spec fn set_all(p: Pen) -> PenUpdate {
        PenUpdate {
            fg: Some(p.fg),
            bg: Some(p.bg),
            bold: Some(p.bold),
            italic: Some(p.italic),
            inverse: Some(p.inverse),
        }
    }

    /// `self` followed by `later`.
    pub open spec fn followed_by(self, later: PenUpdate) -> PenUpdate {
        PenUpdate {
            fg: or_first(self.fg, later.fg),
            bg: or_first(self.bg, later.bg),
            bold: or_first(self.bold, later.bold),
            italic: or_first(self.italic, later.italic),
            inverse: or_first(self.inverse, later.inverse),
        }
    }
}

impl Pen {
    /// The pen with the fields `u` sets overwritten.
    pub open spec fn updated(self, u: PenUpdate) -> Pen {
        Pen {
            fg: or_keep(u.fg, self.fg),
            bg: or_keep(u.bg, self.bg),
            bold: or_keep(u.bold, self.bold),
            italic: or_keep(u.italic, self.italic),
            inverse: or_keep(u.inverse, self.inverse),
        }
    }
}

/// What the SGR code at position `i` overwrites, whatever the pen.
pub open spec fn sgr_code_update(codes: Seq<u16>, i: int) -> PenUpdate {
    let code = codes[i];
    let k = PenUpdate::keep();
    if code == 0 {
        PenUpdate::set_all(Pen::plain())
    } else if code == 1 {
        PenUpdate { bold: Some(true), ..k }
    } else if code == 3 {
        PenUpdate { italic: Some(true), ..k }
    } else if code == 7 {
        PenUpdate { inverse: Some(true), ..k }
    } else if code == 22 {
        PenUpdate { bold: Some(false), ..k }
    } else if code == 23 {
        PenUpdate { italic: Some(false), ..k }
    } else if code == 27 {
        PenUpdate { inverse: Some(false), ..k }
    } else if 30 <= code <= 37 {
        PenUpdate { fg: Some(Color::Indexed((code - 30) as u8)), ..k }
    } else if code == 39 {
        PenUpdate { fg: Some(Color::Default), ..k }
    } else if 40 <= code <= 47 {
        PenUpdate { bg: Some(Color::Indexed((code - 40) as u8)), ..k }
    } else if code == 49 {
        PenUpdate { bg: Some(Color::Default), ..k }
    } else if 90 <= code <= 97 {
        PenUpdate { fg: Some(Color::Indexed((code - 90 + 8) as u8)), ..k }
    } else if 100 <= code <= 107 {
        PenUpdate { bg: Some(Color::Indexed((code - 100 + 8) as u8)), ..k }
    } else if code == 38 || code == 48 {
        let c = match code_at(codes, i + 1) {
            Some(2) => Some(
                Color::Rgb(
                    low_byte(code_or_zero(codes, i + 2)),
                    low_byte(code_or_zero(codes, i + 3)),
                    low_byte(code_or_zero(codes, i + 4)),
                ),
            ),
            Some(5) => Some(Color::Indexed(low_byte(code_or_zero(codes, i + 2)))),
            _ => None,
        };
        if code == 38 {
            PenUpdate { fg: c, ..k }
        } else {
            PenUpdate { bg: c, ..k }
        }
    } else {
        k
    }
}

/// What the SGR codes from position `i` on overwrite, whatever the pen.
pub open spec fn sgr_update_from(codes: Seq<u16>, i: int) -> PenUpdate
    decreases codes.len() - i,
{
    if i < 0 || i >= codes.len() {
        PenUpdate::keep()
    } else {
        let j = Pen::plain().sgr_step(codes, i).1;
        sgr_code_update(codes, i).followed_by(sgr_update_from(codes, min_int(j, codes.len() as int)))
    }
}

/// One SGR code overwrites fields with values that do not depend on the pen,
/// and where the next code starts does not depend on it either.
proof fn lemma_sgr_step_update(p: Pen, codes: Seq<u16>, i: int)
    requires
        0 <= i < codes.len(),
    ensures
        p.sgr_step(codes, i).0 == p.updated(sgr_code_update(codes, i)),
        p.sgr_step(codes, i).1 == Pen::plain().sgr_step(codes, i).1,
{
}

/// Overwriting with `u1` and then `u2` is overwriting with their sequence.
proof fn lemma_updated_followed_by(p: Pen, u1: PenUpdate, u2: PenUpdate)
    ensures
        p.updated(u1).updated(u2) == p.updated(u1.followed_by(u2)),
{
}

/// A run of SGR codes overwrites fields with values that do not depend on
/// the pen.
proof fn lemma_sgr_from_update(p: Pen, codes: Seq<u16>, i: int)
    ensures
        p.sgr_from(codes, i) == p.updated(sgr_update_from(codes, i)),
    decreases codes.len() - i,
{
    if 0 <= i < codes.len() {
        lemma_sgr_step_update(p, codes, i);
        let (q, j) = p.sgr_step(codes, i);
        let next = min_int(j, codes.len() as int);
        lemma_sgr_from_update(q, codes, next);
        lemma_updated_followed_by(p, sgr_code_update(codes, i), sgr_update_from(codes, next));
    }
}

/// Applying the same SGR sequence twice gives the same pen as applying it
/// once: every code sets attributes to values that do not depend on the pen.
pub proof fn law_sgr_idempotent(p: Pen, codes: Seq<u16>)
    ensures
        p.spec_apply_sgr(codes).spec_apply_sgr(codes) == p.spec_apply_sgr(codes),
{
    if codes.len() > 0 {
        let u = sgr_update_from(codes, 0);
        lemma_sgr_from_update(p, codes, 0);
        lemma_sgr_from_update(p.updated(u), codes, 0);
    }
}

/// The codes of `b` read at an offset of `a.len()` inside `a + b` act as
/// they do in `b` alone.
proof fn lemma_sgr_from_shift(p: Pen, a: Seq<u16>, b: Seq<u16>, k: int)
    requires
        0 <= k <= b.len(),
    ensures
        p.sgr_from(a + b, a.len() + k) == p.sgr_from(b, k),
    decreases b.len() - k,
{
    let ab = a + b;
    let i = a.len() + k;
    if k < b.len() {
        assert(ab[i] == b[k]);
        assert forall|d: int| 0 <= d <= 4 implies #[trigger] code_at(ab, i + d) == code_at(b, k + d) by {
            if k + d < b.len() {
                assert(ab[i + d] == b[k + d]);
            }
        }
        assert(code_at(ab, i + 1) == code_at(b, k + 1));
        assert(code_or_zero(ab, i + 2) == code_or_zero(b, k + 2));
        assert(code_or_zero(ab, i + 3) == code_or_zero(b, k + 3));
        assert(code_or_zero(ab, i + 4) == code_or_zero(b, k + 4));
        let (q, j) = p.sgr_step(ab, i);
        let (q2, j2) = p.sgr_step(b, k);
        assert(q == q2);
        assert(j == j2 + a.len());
        lemma_sgr_from_shift(q, a, b, min_int(j2, b.len() as int));
    }
}

/// Codes other than extended colours are read one at a time, so a run of
/// them ends where the next sequence begins.
proof fn lemma_sgr_from_concat(p: Pen, a: Seq<u16>, b: Seq<u16>, i: int)
    requires
        0 <= i <= a.len(),
        forall|k: int| 0 <= k < a.len() ==> #[trigger] a[k] != 38 && a[k] != 48,
    ensures
        p.sgr_from(a + b, i) == p.sgr_from(a, i).sgr_from(b, 0),
    decreases a.len() - i,
{
    let ab = a + b;
    if i < a.len() {
        assert(ab[i] == a[i]);
        assert(a[i] != 38 && a[i] != 48);
        let (q, j) = p.sgr_step(ab, i);
        assert(q == p.sgr_step(a, i).0);
        assert(j == i + 1);
        lemma_sgr_from_concat(q, a, b, i + 1);
    } else {
        lemma_sgr_from_shift(p, a, b, 0);
    }
}

/// SGR codes take effect left to right: when `a` holds no extended-colour
/// code (38 or 48, which read the codes after them), applying `a + b` gives
/// the same pen as applying `a` and then `b`.
pub proof fn law_sgr_concat(p: Pen, a: Seq<u16>, b: Seq<u16>)
    requires
        a.len() > 0,
        b.len() > 0,
        forall|k: int| 0 <= k < a.len() ==> #[trigger] a[k] != 38 && a[k] != 48,
    ensures
        p.spec_apply_sgr(a + b) == p.spec_apply_sgr(a).spec_apply_sgr(b),
{
    lemma_sgr_from_concat(p, a, b, 0);
}

/// Printing with a wrap pending on the bottom row scrolls: every row moves
/// up by one (the top row is lost), the character goes to column 0 of the
/// bottom row, the rest of the bottom row is blank, and the cursor is left
/// just after the character.
pub proof fn law_print_wraps_and_scrolls_at_bottom(m: GridModel, ch: char)
    requires
        m.wf(),
        m.wrap_pending,
        m.cursor_row == m.rows - 1,
    ensures
        ({
            let g = m.put_char(ch);
            let style = m.pen.spec_cell_style();
            &&& g.wf()
            &&& g.rows == m.rows
            &&& g.cols == m.cols
            &&& g.cursor_row == m.rows - 1
            &&& forall|r: int, c: int|
                0 <= r < m.rows - 1 && 0 <= c < m.cols ==> #[trigger] g.cells[r][c] == m.cells[r + 1][c]
            &&& g.cells[m.rows - 1][0] == Cell {
                ch,
                fg: style.0,
                bg: style.1,
                bold: m.pen.bold,
                italic: m.pen.italic,
            }
            &&& forall|c: int| 1 <= c < m.cols ==> #[trigger] g.cells[m.rows - 1][c] == Cell::blank()
            &&& (m.cols > 1 ==> g.cursor_col == 1 && !g.wrap_pending)
            &&& (m.cols == 1 ==> g.cursor_col == 0 && g.wrap_pending)
        }),
{
    let g = m.put_char(ch);
    assert forall|r: int| 0 <= r < g.rows implies #[trigger] g.cells[r].len() == g.cols by {
        if r < m.rows - 1 {
            assert(m.cells[r + 1].len() == m.cols);
        }
    }
    assert forall|r: int, c: int| 0 <= r < m.rows - 1 && 0 <= c < m.cols implies #[trigger] g.cells[r][c]
        == m.cells[r + 1][c] by {
        assert(m.cells[r + 1].len() == m.cols);
    }
}

/// Printing with a wrap pending above the bottom row moves to the start of
/// the next row without scrolling: only that row's first cell changes.
pub proof fn law_print_wraps_without_scroll(m: GridModel, ch: char)
    requires
        m.wf(),
        m.wrap_pending,
        m.cursor_row + 1 < m.rows,
    ensures
        ({
            let g = m.put_char(ch);
            &&& g.cursor_row == m.cursor_row + 1
            &&& forall|r: int, c: int|
                0 <= r < m.rows && 0 <= c < m.cols && (r != m.cursor_row + 1 || c != 0)
                    ==> #[trigger] g.cells[r][c] == m.cells[r][c]
        }),
{
    assert(m.cells[m.cursor_row + 1].len() == m.cols);
}

/// After a resize the cursor stays on its line of text: when `d` rows leave
/// the top, the cursor row goes up by `d` (stopping at 0); when rows are
/// added at the bottom it stays; the column is clamped to the new width.
/// The cells of the cursor's old line that survive are on its new line.
pub proof fn law_resize_cursor(m: GridModel, rows: int, cols: int)
    requires
        m.wf(),
    ensures
        ({
            let g = m.resize(rows, cols);
            let r = if rows < 1 { 1 } else { rows };
            let c = if cols < 1 { 1 } else { cols };
            &&& (r == m.rows && c == m.cols) ==> g == m
            &&& (r != m.rows || c != m.cols) ==> {
                &&& g.cursor_row == if r < m.rows {
                    if m.cursor_row >= m.rows - r {
                        m.cursor_row - (m.rows - r)
                    } else {
                        0
                    }
                } else {
                    m.cursor_row
                }
                &&& g.cursor_col == if m.cursor_col < c {
                    m.cursor_col
                } else {
                    c - 1
                }
                &&& !g.wrap_pending
                &&& (r >= m.rows || m.cursor_row >= m.rows - r) ==> forall|k: int|
                    0 <= k < m.cols && k < c ==> #[trigger] g.cells[g.cursor_row][k]
                        == m.cells[m.cursor_row][k]
            }
        }),
{
    assert(m.cells[m.cursor_row].len() == m.cols);
}

/// An extended foreground or background colour consumes its arguments:
/// `38;2;r;g;b` (`48;2;r;g;b`) sets only the foreground (background) to the
/// 24-bit colour given by the low bytes of r, g, b, and `38;5;n` (`48;5;n`)
/// only to palette entry n; reading continues with the code after them.
pub proof fn law_sgr_extended_colour(p: Pen, sel: u16, r: u16, g: u16, b: u16, rest: Seq<u16>)
    requires
        sel == 38 || sel == 48,
    ensures
        ({
            let rgb = Color::Rgb((r % 256) as u8, (g % 256) as u8, (b % 256) as u8);
            let q = if sel == 38 {
                Pen { fg: rgb, ..p }
            } else {
                Pen { bg: rgb, ..p }
            };
            p.spec_apply_sgr(seq![sel, 2u16, r, g, b] + rest) == if rest.len() == 0 {
                q
            } else {
                q.spec_apply_sgr(rest)
            }
        }),
        ({
            let idx = Color::Indexed((r % 256) as u8);
            let q = if sel == 38 {
                Pen { fg: idx, ..p }
            } else {
                Pen { bg: idx, ..p }
            };
            p.spec_apply_sgr(seq![sel, 5u16, r] + rest) == if rest.len() == 0 {
                q
            } else {
                q.spec_apply_sgr(rest)
            }
        }),
{
    let a = seq![sel, 2u16, r, g, b];
    let ab = a + rest;
    assert(ab[0] == sel && ab[1] == 2 && ab[2] == r && ab[3] == g && ab[4] == b);
    let (q, j) = p.sgr_step(ab, 0);
    assert(j == 5);
    lemma_sgr_from_shift(q, a, rest, 0);
    assert(q.sgr_from(rest, 0) == if rest.len() == 0 { q } else { q.spec_apply_sgr(rest) });
    let a2 = seq![sel, 5u16, r];
    let ab2 = a2 + rest;
    assert(ab2[0] == sel && ab2[1] == 5 && ab2[2] == r);
    let (q2, j2) = p.sgr_step(ab2, 0);
    assert(j2 == 3);
    lemma_sgr_from_shift(q2, a2, rest, 0);
}

/// The C0 controls: carriage return goes to column 0, backspace one column
/// left (not past 0), tab to the next multiple of 8 (not past the last
/// column), and line feed, VT and FF one row down (scrolling on the bottom
/// row); each cancels a pending wrap and leaves the pen and size alone.
/// Every other byte changes nothing.
pub proof fn law_execute_controls(m: GridModel, byte: u8)
    requires
        m.wf(),
    ensures
        ({
            let g = m.execute(byte);
            let lf = byte == 10 || byte == 11 || byte == 12;
            let stop = m.cursor_col - m.cursor_col % 8 + 8;
            &&& g.wf()
            &&& g.rows == m.rows
            &&& g.cols == m.cols
            &&& g.pen == m.pen
            &&& byte == 13 ==> g.cursor_col == 0 && g.cursor_row == m.cursor_row && g.cells == m.cells
                && !g.wrap_pending
            &&& byte == 8 ==> g.cursor_col == (if m.cursor_col > 0 {
                m.cursor_col - 1
            } else {
                0
            }) && g.cursor_row == m.cursor_row && g.cells == m.cells && !g.wrap_pending
            &&& byte == 9 ==> g.cursor_col == (if stop < m.cols - 1 {
                stop
            } else {
                m.cols - 1
            }) && g.cursor_row == m.cursor_row && g.cells == m.cells && !g.wrap_pending
            &&& (lf && m.cursor_row + 1 < m.rows) ==> g.cursor_row == m.cursor_row + 1 && g.cursor_col
                == m.cursor_col && g.cells == m.cells && !g.wrap_pending
            &&& (lf && m.cursor_row + 1 == m.rows) ==> {
                &&& g.cursor_row == m.cursor_row
                &&& g.cursor_col == m.cursor_col
                &&& !g.wrap_pending
                &&& forall|r: int| 0 <= r < m.rows - 1 ==> #[trigger] g.cells[r] == m.cells[r + 1]
                &&& forall|c: int| 0 <= c < m.cols ==> #[trigger] g.cells[m.rows - 1][c] == Cell::blank()
            }
            &&& !(lf || byte == 13 || byte == 8 || byte == 9) ==> g == m
        }),
{
    let g = m.execute(byte);
    if byte == 10 || byte == 11 || byte == 12 {
        if m.cursor_row + 1 == m.rows {
            assert forall|r: int| 0 <= r < g.rows implies #[trigger] g.cells[r].len() == g.cols by {
                if r < m.rows - 1 {
                    assert(m.cells[r + 1].len() == m.cols);
                }
            }
        }
    }
}

/// The cursor-movement control sequences, with `n` the first parameter (1
/// when missing or 0): CUU (`A`) up `n` rows, CUD (`B`) down, CUF (`C`)
/// right, CUB (`D`) left, each stopping at the edge; CHA (`G`) to column
/// `n`, VPA (`d`) to row `n`, CUP (`H`, `f`) to row `n` and column given by
/// the second parameter, all 1-based and clamped. None touches a cell or
/// the pen, and each cancels a pending wrap.
pub proof fn law_csi_cursor_moves(m: GridModel, groups: Seq<Seq<u16>>, intermediates: Seq<u8>, action: char)
    requires
        m.wf(),
        action == 'A' || action == 'B' || action == 'C' || action == 'D' || action == 'G' || action == 'd'
            || action == 'H' || action == 'f',
    ensures
        ({
            let g = m.csi_dispatch(groups, intermediates, action);
            let n: int = if groups.len() > 0 && groups[0].len() > 0 && groups[0][0] != 0 {
                groups[0][0] as int
            } else {
                1
            };
            let n2: int = if groups.len() > 1 && groups[1].len() > 0 && groups[1][0] != 0 {
                groups[1][0] as int
            } else {
                1
            };
            let last_row = m.rows - 1;
            let last_col = m.cols - 1;
            &&& g.cells == m.cells
            &&& g.pen == m.pen
            &&& g.rows == m.rows
            &&& g.cols == m.cols
            &&& !g.wrap_pending
            &&& action == 'A' ==> g.cursor_row == (if m.cursor_row >= n { m.cursor_row - n } else { 0 })
                && g.cursor_col == m.cursor_col
            &&& action == 'B' ==> g.cursor_row == (if m.cursor_row + n <= last_row {
                m.cursor_row + n
            } else {
                last_row
            }) && g.cursor_col == m.cursor_col
            &&& action == 'C' ==> g.cursor_col == (if m.cursor_col + n <= last_col {
                m.cursor_col + n
            } else {
                last_col
            }) && g.cursor_row == m.cursor_row
            &&& action == 'D' ==> g.cursor_col == (if m.cursor_col >= n { m.cursor_col - n } else { 0 })
                && g.cursor_row == m.cursor_row
            &&& action == 'G' ==> g.cursor_col == (if n - 1 <= last_col { n - 1 } else { last_col })
                && g.cursor_row == m.cursor_row
            &&& action == 'd' ==> g.cursor_row == (if n - 1 <= last_row { n - 1 } else { last_row })
                && g.cursor_col == m.cursor_col
            &&& (action == 'H' || action == 'f') ==> g.cursor_row == (if n - 1 <= last_row {
                n - 1
            } else {
                last_row
            }) && g.cursor_col == (if n2 - 1 <= last_col { n2 - 1 } else { last_col })
        }),
{
}

/// Erase in display clears, for mode 0, the cursor's cell, the rest of its
/// row and every row below; for mode 1, every row above, and the cursor's
/// row up to and including the cursor; for modes 2 and 3 everything; other
/// modes clear nothing. Cursor, pen and pending wrap stay as they were.
pub proof fn law_erase_in_display_cells(m: GridModel, mode: u16)
    requires
        m.wf(),
    ensures
        ({
            let g = m.erase_in_display(mode);
            let cr = m.cursor_row;
            let cc = m.cursor_col;
            &&& g.wf()
            &&& g.cursor_row == cr
            &&& g.cursor_col == cc
            &&& g.pen == m.pen
            &&& g.wrap_pending == m.wrap_pending
            &&& forall|r: int, c: int|
                0 <= r < m.rows && 0 <= c < m.cols ==> #[trigger] g.cells[r][c] == if (mode == 0 && (r > cr
                    || (r == cr && c >= cc))) || (mode == 1 && (r < cr || (r == cr && c <= cc))) || mode
                    == 2 || mode == 3 {
                    Cell::blank()
                } else {
                    m.cells[r][c]
                }
        }),
{
    lemma_erase_wf(m, display_erase_region(mode, m.cursor_row, m.cursor_col));
    assert forall|r: int, c: int| 0 <= r < m.rows && 0 <= c < m.cols implies #[trigger] m.erase_in_display(
        mode,
    ).cells[r][c] == if (mode == 0 && (r > m.cursor_row || (r == m.cursor_row && c >= m.cursor_col))) || (
    mode == 1 && (r < m.cursor_row || (r == m.cursor_row && c <= m.cursor_col))) || mode == 2 || mode == 3 {
        Cell::blank()
    } else {
        m.cells[r][c]
    } by {
        assert(m.cells[r].len() == m.cols);
        assert(display_erase_region(mode, m.cursor_row, m.cursor_col).contains((r, c)) == ((mode == 0 && (r
            > m.cursor_row || (r == m.cursor_row && c >= m.cursor_col))) || (mode == 1 && (r < m.cursor_row
            || (r == m.cursor_row && c <= m.cursor_col))) || mode == 2 || mode == 3));
    }
}

/// Erase in line clears cells of the cursor's row only: for mode 0 from the
/// cursor to the end, for mode 1 from the start through the cursor, for
/// mode 2 all of it; other modes clear nothing. Cursor, pen and pending
/// wrap stay as they were.
pub proof fn law_erase_in_line_cells(m: GridModel, mode: u16)
    requires
        m.wf(),
    ensures
        ({
            let g = m.erase_in_line(mode);
            let cr = m.cursor_row;
            let cc = m.cursor_col;
            &&& g.wf()
            &&& g.cursor_row == cr
            &&& g.cursor_col == cc
            &&& g.pen == m.pen
            &&& g.wrap_pending == m.wrap_pending
            &&& forall|r: int, c: int|
                0 <= r < m.rows && 0 <= c < m.cols ==> #[trigger] g.cells[r][c] == if r == cr && ((mode == 0
                    && c >= cc) || (mode == 1 && c <= cc) || mode == 2) {
                    Cell::blank()
                } else {
                    m.cells[r][c]
                }
        }),
{
    lemma_erase_wf(m, line_erase_region(mode, m.cursor_row, m.cursor_col));
    assert forall|r: int, c: int| 0 <= r < m.rows && 0 <= c < m.cols implies #[trigger] m.erase_in_line(
        mode,
    ).cells[r][c] == if r == m.cursor_row && ((mode == 0 && c >= m.cursor_col) || (mode == 1 && c
        <= m.cursor_col) || mode == 2) {
        Cell::blank()
    } else {
        m.cells[r][c]
    } by {
        assert(m.cells[r].len() == m.cols);
        assert(line_erase_region(mode, m.cursor_row, m.cursor_col).contains((r, c)) == (r == m.cursor_row
            && ((mode == 0 && c >= m.cursor_col) || (mode == 1 && c <= m.cursor_col) || mode == 2)));
    }
}

/// ED (`J`) and EL (`K`) erase with their first parameter as the mode (0
/// when missing); with a `?` intermediate they are ignored, as are final
/// characters the grid does not know. SGR (`m`) changes only the pen.
pub proof fn law_csi_erase_and_others(m: GridModel, groups: Seq<Seq<u16>>, intermediates: Seq<u8>, action: char)
    requires
        m.wf(),
    ensures
        ({
            let g = m.csi_dispatch(groups, intermediates, action);
            let mode: u16 = if groups.len() > 0 && groups[0].len() > 0 { groups[0][0] } else { 0 };
            let private = intermediates.len() > 0 && intermediates[0] == 0x3f;
            &&& (action == 'J' && !private) ==> g == m.erase_in_display(mode)
            &&& (action == 'K' && !private) ==> g == m.erase_in_line(mode)
            &&& ((action == 'J' || action == 'K') && private) ==> g == m
            &&& action == 'm' ==> g.cells == m.cells && g.cursor_row == m.cursor_row && g.cursor_col
                == m.cursor_col && g.wrap_pending == m.wrap_pending
            &&& !(action == 'A' || action == 'B' || action == 'C' || action == 'D' || action == 'G' || action
                == 'd' || action == 'H' || action == 'f' || action == 'J' || action == 'K' || action == 'm')
                ==> g == m
        }),
{
}

/// A single SGR code: 0 resets every attribute; 1, 3, 7 turn bold, italic,
/// inverse on and 22, 23, 27 off; 30-37 and 90-97 set the foreground to
/// ANSI colours 0-7 and 8-15, 40-47 and 100-107 the background; 39 and 49
/// restore the default foreground and background. Any other code alone,
/// including an extended colour without arguments, changes nothing.
pub proof fn law_sgr_single_code(p: Pen, code: u16)
    ensures
        ({
            let q = p.spec_apply_sgr(seq![code]);
            &&& code == 0 ==> q == Pen {
                fg: Color::Default,
                bg: Color::Default,
                bold: false,
                italic: false,
                inverse: false,
            }
            &&& code == 1 ==> q == Pen { bold: true, ..p }
            &&& code == 3 ==> q == Pen { italic: true, ..p }
            &&& code == 7 ==> q == Pen { inverse: true, ..p }
            &&& code == 22 ==> q == Pen { bold: false, ..p }
            &&& code == 23 ==> q == Pen { italic: false, ..p }
            &&& code == 27 ==> q == Pen { inverse: false, ..p }
            &&& 30 <= code <= 37 ==> q == Pen { fg: Color::Indexed((code - 30) as u8), ..p }
            &&& 90 <= code <= 97 ==> q == Pen { fg: Color::Indexed((code - 82) as u8), ..p }
            &&& 40 <= code <= 47 ==> q == Pen { bg: Color::Indexed((code - 40) as u8), ..p }
            &&& 100 <= code <= 107 ==> q == Pen { bg: Color::Indexed((code - 92) as u8), ..p }
            &&& code == 39 ==> q == Pen { fg: Color::Default, ..p }
            &&& code == 49 ==> q == Pen { bg: Color::Default, ..p }
            &&& !(code == 0 || code == 1 || code == 3 || code == 7 || code == 22 || code == 23 || code == 27
                || 30 <= code <= 37 || 90 <= code <= 97 || 40 <= code <= 47 || 100 <= code <= 107 || code
                == 39 || code == 49) ==> q == p
        }),
{
    let codes = seq![code];
    let (q, j) = p.sgr_step(codes, 0);
    assert(q.sgr_from(codes, 1) == q);
}

/// A new grid is blank: every cell a space in default colours, the cursor
/// at the top left with no wrap pending, the pen plain, and at least one
/// row and column, exactly as many as asked for otherwise.
pub proof fn law_fresh_grid(rows: int, cols: int)
    ensures
        ({
            let g = GridModel::fresh(rows, cols);
            &&& g.wf()
            &&& g.rows == if rows < 1 { 1 } else { rows }
            &&& g.cols == if cols < 1 { 1 } else { cols }
            &&& g.cursor_row == 0 && g.cursor_col == 0 && !g.wrap_pending
            &&& g.pen == Pen {
                fg: Color::Default,
                bg: Color::Default,
                bold: false,
                italic: false,
                inverse: false,
            }
            &&& forall|r: int, c: int| 0 <= r < g.rows && 0 <= c < g.cols ==> #[trigger] g.cells[r][c] == Cell {
                ch: ' ',
                fg: Color::Default,
                bg: Color::Default,
                bold: false,
                italic: false,
            }
        }),
{
}

/// The character grid of a terminal.
pub struct TerminalGrid {
    rows: usize,
    cols: usize,
    lines: Vec<Vec<Cell>>,
    cursor_row: usize,
    cursor_col: usize,
    pen: Pen,
    wrap_pending: bool,
}

impl View for TerminalGrid {
    type V = GridModel;

    closed spec fn view(&self) -> GridModel {
        GridModel {
            rows: self.rows as int,
            cols: self.cols as int,
            cells: self.lines@.map_values(|l: Vec<Cell>| l@),
            cursor_row: self.cursor_row as int,
            cursor_col: self.cursor_col as int,
            pen: self.pen,
            wrap_pending: self.wrap_pending,
        }
    }
}

fn blank_row(cols: usize) -> (line: Vec<Cell>)
    ensures
        line@ == blank_line(cols as int),
{
    let mut line: Vec<Cell> = Vec::new();
    let mut i: usize = 0;
    while i < cols
        invariant
            i <= cols,
            line@ == blank_line(i as int),
        decreases cols - i,
    {
        line.push(Cell::default());
        i += 1;
    }
    line
}

fn resize_row(line: &mut Vec<Cell>, cols: usize)
    ensures
        final(line)@ == resized_line(old(line)@, cols as int),
{
    if cols <= line.len() {
        line.truncate(cols);
    } else {
        let ghost start = line@;
        while line.len() < cols
            invariant
                start.len() <= line@.len() <= cols,
                line@ == start + Seq::new((line@.len() - start.len()) as nat, |_i: int| Cell::blank()),
            decreases cols - line@.len(),
        {
            line.push(Cell::default());
        }
    }
}

impl TerminalGrid {
    /// The grid is well formed.
    pub open spec fn inv(&self) -> bool {
        self@.wf()
    }

    /// A blank grid with the given number of rows and columns (each at least 1).
    pub fn new(rows: usize, cols: usize) -> (g: Self)
        ensures
            g.inv(),
            g@ == GridModel::fresh(rows as int, cols as int),
    {
        let rows = if rows < 1 { 1 } else { rows };
        let cols = if cols < 1 { 1 } else { cols };
        let mut lines: Vec<Vec<Cell>> = Vec::new();
        let mut i: usize = 0;
        while i < rows
            invariant
                i <= rows,
                lines@.len() == i,
                forall|k: int| 0 <= k < i ==> (#[trigger] lines@[k])@ == blank_line(cols as int),
            decreases rows - i,
        {
            lines.push(blank_row(cols));
            i += 1;
        }
        let g = TerminalGrid {
            rows,
            cols,
            lines,
            cursor_row: 0,
            cursor_col: 0,
            pen: Pen::default(),
            wrap_pending: false,
        };
        assert(g@.cells =~= GridModel::fresh(rows as int, cols as int).cells);
        g
    }

    /// The rows of the grid, top first.
    pub fn lines(&self) -> (lines: &[Vec<Cell>])
        ensures
            lines@.map_values(|l: Vec<Cell>| l@) == self@.cells,
    {
        self.lines.as_slice()
    }

    /// The cursor position as (row, column).
    pub fn cursor(&self) -> (pos: (usize, usize))
        ensures
            pos.0 == self@.cursor_row,
            pos.1 == self@.cursor_col,
    {
        (self.cursor_row, self.cursor_col)
    }

    /// The size of the grid as (rows, columns).
    pub fn size(&self) -> (dims: (usize, usize))
        ensures
            dims.0 == self@.rows,
            dims.1 == self@.cols,
    {
        (self.rows, self.cols)
    }

    /// Changes the size of the grid (each dimension at least 1).
    pub fn resize(&mut self, rows: usize, cols: usize)
        requires
            old(self).inv(),
        ensures
            final(self).inv(),
            final(self)@ == old(self)@.resize(rows as int, cols as int),
    {
        let ghost start = self@;
        let ghost goal = start.resize(rows as int, cols as int);
        let rows = if rows < 1 { 1 } else { rows };
        let cols = if cols < 1 { 1 } else { cols };
        if rows == self.rows && cols == self.cols {
            return;
        }
        let n = self.lines.len();
        let mut i: usize = 0;
        while i < n
            invariant
                n == self.lines@.len(),
                n == start.cells.len(),
                self@.cursor_row == start.cursor_row,
                self@.cursor_col == start.cursor_col,
                self@.pen == start.pen,
                i <= n,
                forall|k: int|
                    0 <= k < i ==> (#[trigger] self.lines@[k])@ == resized_line(
                        start.cells[k],
                        cols as int,
                    ),
                forall|k: int| i <= k < n ==> (#[trigger] self.lines@[k])@ == start.cells[k],
            decreases n - i,
        {
            resize_row(&mut self.lines[i], cols);
            i += 1;
        }
        let ghost resized = start.cells.map_values(|l: Seq<Cell>| resized_line(l, cols as int));
        assert(self.lines@.map_values(|l: Vec<Cell>| l@) =~= resized);
        if rows > self.lines.len() {
            let extra = rows - self.lines.len();
            let mut j: usize = 0;
            while j < extra
                invariant
                    j <= extra,
                    extra == rows - n,
                    resized.len() == n,
                    self@.cursor_row == start.cursor_row,
                    self@.cursor_col == start.cursor_col,
                    self@.pen == start.pen,
                    self.lines@.len() == n + j,
                    forall|k: int|
                        0 <= k < n + j ==> (#[trigger] self.lines@[k])@ == (resized + Seq::new(
                            (rows - n) as nat,
                            |_i: int| blank_line(cols as int),
                        ))[k],
                decreases extra - j,
            {
                self.lines.push(blank_row(cols));
                j += 1;
            }
            assert(self.lines@.map_values(|l: Vec<Cell>| l@) =~= resized + Seq::new(
                (rows - n) as nat,
                |_i: int| blank_line(cols as int),
            ));
        } else {
            let drop = self.lines.len() - rows;
            let kept = self.lines.split_off(drop);
            self.lines = kept;
            assert(self.lines@.map_values(|l: Vec<Cell>| l@) =~= resized.subrange(
                n - rows,
                n as int,
            ));
            self.cursor_row = if self.cursor_row >= drop {
                self.cursor_row - drop
            } else {
                0
            };
        }
        self.rows = rows;
        self.cols = cols;
        if self.cursor_row > rows - 1 {
            self.cursor_row = rows - 1;
        }
        if self.cursor_col > cols - 1 {
            self.cursor_col = cols - 1;
        }
        self.wrap_pending = false;
        assert(self@.cells == goal.cells);
    }

    fn scroll_up(&mut self)
        requires
            old(self).inv(),
        ensures
            final(self).inv(),
            final(self)@ == old(self)@.scroll_up(),
    {
        let ghost start = self@;
        self.lines.remove(0);
        self.lines.push(blank_row(self.cols));
        assert(self@.cells =~= start.cells.drop_first().push(blank_line(start.cols)));
    }

    fn newline(&mut self)
        requires
            old(self).inv(),
        ensures
            final(self).inv(),
            final(self)@ == old(self)@.newline(),
    {
        if self.cursor_row + 1 >= self.rows {
            self.scroll_up();
        } else {
            self.cursor_row += 1;
        }
    }

    fn put_char(&mut self, ch: char)
        requires
            old(self).inv(),
        ensures
            final(self).inv(),
            final(self)@ == old(self)@.put_char(ch),
    {
        if self.wrap_pending {
            self.cursor_col = 0;
            self.newline();
            self.wrap_pending = false;
        }
        let ghost mid = self@;
        let (fg, bg) = self.pen.cell_style();
        let row = if self.cursor_row < self.rows - 1 { self.cursor_row } else { self.rows - 1 };
        let col = if self.cursor_col < self.cols - 1 { self.cursor_col } else { self.cols - 1 };
        let cell = Cell { ch, fg, bg, bold: self.pen.bold, italic: self.pen.italic };
        self.lines[row][col] = cell;
        assert(self@.cells =~= mid.cells.update(row as int, mid.cells[row as int].update(col as int, cell)));
        if self.cursor_col + 1 >= self.cols {
            self.wrap_pending = true;
        } else {
            self.cursor_col += 1;
        }
    }

    fn move_cursor(&mut self, row: usize, col: usize)
        requires
            old(self).inv(),
        ensures
            final(self).inv(),
            final(self)@ == old(self)@.move_cursor(row as int, col as int),
    {
        self.cursor_row = if row < self.rows - 1 { row } else { self.rows - 1 };
        self.cursor_col = if col < self.cols - 1 { col } else { self.cols - 1 };
        self.wrap_pending = false;
    }

    /// Prints a character at the cursor.
    pub fn print(&mut self, c: char)
        requires
            old(self).inv(),
        ensures
            final(self).inv(),
            final(self)@ == old(self)@.put_char(c),
    {
        self.put_char(c);
    }

    fn clear_line_range(&mut self, row: usize, from: usize, to: usize)
        requires
            old(self).inv(),
        ensures
            final(self).inv(),
            final(self)@ == old(self)@.clear_range(row as int, from as int, to as int),
    {
        let ghost start = self@;
        let ghost region = span_region(row as int, from as int, to as int);
        proof {
            lemma_erase_wf(start, region);
        }
        if row >= self.rows {
            proof {
                lemma_erase_nothing(start, region);
            }
            return;
        }
        let end = if to < self.cols { to } else { self.cols };
        let mut col = from;
        while col < end
            invariant
                start.wf(),
                row < start.rows,
                end <= start.cols,
                end == to || end == start.cols,
                end <= to,
                col == from || (from <= col && col <= end),
                self@.rows == start.rows,
                self@.cols == start.cols,
                self@.cursor_row == start.cursor_row,
                self@.cursor_col == start.cursor_col,
                self@.pen == start.pen,
                self@.wrap_pending == start.wrap_pending,
                self.lines@.len() == start.rows,
                forall|r: int| 0 <= r < start.rows && r != row ==> (#[trigger] self.lines@[r])@ == start.cells[r],
                self.lines@[row as int]@.len() == start.cols,
                forall|c: int|
                    0 <= c < start.cols ==> #[trigger] self.lines@[row as int]@[c] == if from <= c && c < col {
                        Cell::blank()
                    } else {
                        start.cells[row as int][c]
                    },
            decreases end - col,
        {
            self.lines[row][col] = Cell::default();
            col += 1;
        }
        let ghost goal = start.erase_where(region);
        assert forall|r: int| 0 <= r < start.rows implies #[trigger] self@.cells[r] =~= goal.cells[r] by {
            assert(start.cells[r].len() == start.cols);
            if r == row {
                assert forall|c: int| 0 <= c < start.cols implies self@.cells[r][c] == goal.cells[r][c] by {
                    assert(self.lines@[row as int]@[c] == self@.cells[r][c]);
                    assert(region.contains((r, c)) == (from <= c && c < to));
                }
            } else {
                assert(self.lines@[r]@ == start.cells[r]);
            }
        }
        assert(self@.cells =~= goal.cells);
    }

    /// Clears rows `from <= r < to` entirely, one by one.
    fn clear_rows(&mut self, from: usize, to: usize)
        requires
            old(self).inv(),
            to <= old(self)@.rows,
        ensures
            final(self).inv(),
            final(self)@ == old(self)@.erase_where(rows_region(from as int, to as int)),
    {
        let ghost start = self@;
        let mut row = from;
        proof {
            lemma_erase_nothing(start, rows_region(from as int, from as int));
        }
        while row < to
            invariant
                start.wf(),
                self.inv(),
                to <= start.rows,
                row == from || (from <= row && row <= to),
                self@ == start.erase_where(rows_region(from as int, row as int)),
            decreases to - row,
        {
            let cols = self.cols;
            self.clear_line_range(row, 0, cols);
            proof {
                let a = rows_region(from as int, row as int);
                let b = span_region(row as int, 0, cols as int);
                lemma_erase_compose(start, a, b);
                lemma_erase_ext(start, a + b, rows_region(from as int, row + 1));
            }
            row += 1;
        }
        proof {
            if to < from {
                lemma_erase_nothing(start, rows_region(from as int, to as int));
            }
        }
    }

    fn erase_in_line(&mut self, mode: u16)
        requires
            old(self).inv(),
        ensures
            final(self).inv(),
            final(self)@ == old(self)@.erase_in_line(mode),
    {
        let ghost start = self@;
        let row = self.cursor_row;
        let cc = self.cursor_col;
        let cols = self.cols;
        let ghost goal = line_erase_region(mode, start.cursor_row, start.cursor_col);
        if mode == 0 {
            self.clear_line_range(row, cc, cols);
            proof {
                lemma_erase_ext(start, span_region(row as int, cc as int, cols as int), goal);
            }
        } else if mode == 1 {
            self.clear_line_range(row, 0, cc + 1);
            proof {
                lemma_erase_ext(start, span_region(row as int, 0, cc + 1), goal);
            }
        } else if mode == 2 {
            self.clear_line_range(row, 0, cols);
            proof {
                lemma_erase_ext(start, span_region(row as int, 0, cols as int), goal);
            }
        }
    }

    fn erase_in_display(&mut self, mode: u16)
        requires
            old(self).inv(),
        ensures
            final(self).inv(),
            final(self)@ == old(self)@.erase_in_display(mode),
    {
        let ghost start = self@;
        let cr = self.cursor_row;
        let cc = self.cursor_col;
        let rows = self.rows;
        let cols = self.cols;
        let ghost goal = display_erase_region(mode, start.cursor_row, start.cursor_col);
        if mode == 0 {
            self.clear_line_range(cr, cc, cols);
            self.clear_rows(cr + 1, rows);
            proof {
                let a = span_region(cr as int, cc as int, cols as int);
                let b = rows_region(cr + 1, rows as int);
                lemma_erase_compose(start, a, b);
                lemma_erase_ext(start, a + b, goal);
            }
        } else if mode == 1 {
            self.clear_rows(0, cr);
            self.clear_line_range(cr, 0, cc + 1);
            proof {
                let a = rows_region(0, cr as int);
                let b = span_region(cr as int, 0, cc + 1);
                lemma_erase_compose(start, a, b);
                lemma_erase_ext(start, a + b, goal);
            }
        } else if mode == 2 || mode == 3 {
            self.clear_rows(0, rows);
            proof {
                lemma_erase_ext(start, rows_region(0, rows as int), goal);
            }
        }
    }

    fn apply_sgr(&mut self, codes: &[u16])
        requires
            old(self).inv(),
        ensures
            final(self).inv(),
            final(self)@ == old(self)@.apply_sgr(codes@),
    {
        if codes.len() == 0 {
            self.pen = Pen::default();
            return;
        }
        let ghost goal = self.pen.sgr_from(codes@, 0);
        let mut pen = self.pen;
        let mut i: usize = 0;
        while i < codes.len()
            invariant
                i <= codes@.len(),
                pen.sgr_from(codes@, i as int) == goal,
            decreases codes@.len() - i,
        {
            let (p, j) = sgr_step(pen, codes, i);
            pen = p;
            i = j;
        }
        self.pen = pen;
    }

    /// Carries out a C0 control character.
    pub fn execute(&mut self, byte: u8)
        requires
            old(self).inv(),
        ensures
            final(self).inv(),
            final(self)@ == old(self)@.execute(byte),
    {
        if byte == 10 || byte == 11 || byte == 12 {
            self.newline();
            self.wrap_pending = false;
        } else if byte == 13 {
            self.cursor_col = 0;
            self.wrap_pending = false;
        } else if byte == 8 {
            self.cursor_col = if self.cursor_col >= 1 { self.cursor_col - 1 } else { 0 };
            self.wrap_pending = false;
        } else if byte == 9 {
            let base = self.cursor_col - self.cursor_col % 8;
            let last = self.cols - 1;
            self.cursor_col = if last - base <= 8 { last } else { base + 8 };
            self.wrap_pending = false;
        }
    }

    /// Carries out a control sequence given its parameter groups, its
    /// intermediate bytes and its final character.
    pub fn csi_dispatch_groups(&mut self, groups: &Vec<Vec<u16>>, intermediates: &[u8], action: char)
        requires
            old(self).inv(),
        ensures
            final(self).inv(),
            final(self)@ == old(self)@.csi_dispatch(groups_view(groups@), intermediates@, action),
    {
        let private = intermediates.len() > 0 && intermediates[0] == 63;
        let rows = self.rows;
        let cols = self.cols;
        let cr = self.cursor_row;
        let cc = self.cursor_col;
        if action == 'A' {
            let n = group_param(groups, 0, 1) as usize;
            self.move_cursor(if cr >= n { cr - n } else { 0 }, cc);
        } else if action == 'B' {
            let n = group_param(groups, 0, 1) as usize;
            self.move_cursor(if n >= rows - 1 - cr { rows - 1 } else { cr + n }, cc);
        } else if action == 'C' {
            let n = group_param(groups, 0, 1) as usize;
            self.move_cursor(cr, if n >= cols - 1 - cc { cols - 1 } else { cc + n });
        } else if action == 'D' {
            let n = group_param(groups, 0, 1) as usize;
            self.move_cursor(cr, if cc >= n { cc - n } else { 0 });
        } else if action == 'G' {
            let col = group_param(groups, 0, 1) as usize;
            self.move_cursor(cr, if col >= 1 { col - 1 } else { 0 });
        } else if action == 'd' {
            let row = group_param(groups, 0, 1) as usize;
            self.move_cursor(if row >= 1 { row - 1 } else { 0 }, cc);
        } else if action == 'H' || action == 'f' {
            let row = group_param(groups, 0, 1) as usize;
            let col = group_param(groups, 1, 1) as usize;
            self.move_cursor(if row >= 1 { row - 1 } else { 0 }, if col >= 1 { col - 1 } else { 0 });
        } else if action == 'J' && !private {
            self.erase_in_display(group_param(groups, 0, 0));
        } else if action == 'K' && !private {
            self.erase_in_line(group_param(groups, 0, 0));
        } else if action == 'm' {
            let codes = flatten_groups_exec(groups);
            self.apply_sgr(codes.as_slice());
        }
    }

    /// Carries out a control sequence as the escape-sequence parser delivers
    /// it; `_ignore` (set when the sequence had too many parameters) does not
    /// change the effect.
    pub fn csi_dispatch(&mut self, params: &Params, intermediates: &[u8], _ignore: bool, action: char)
        requires
            old(self).inv(),
        ensures
            final(self).inv(),
            final(self)@ == old(self)@.csi_dispatch(param_groups(*params), intermediates@, action),
    {
        let groups = collect_param_groups(params);
        self.csi_dispatch_groups(&groups, intermediates, action);
    }
}

/// Flattening parameter groups reads them in order, each group giving its
/// values and an empty group a single 0: the flattening of two lists one
/// after the other is the one flattening after the other.
pub proof fn law_flatten_groups(g1: Seq<Seq<u16>>, g2: Seq<Seq<u16>>, g: Seq<u16>)
    ensures
        flatten_groups(g1 + g2) == flatten_groups(g1) + flatten_groups(g2),
        flatten_groups(seq![g]) == if g.len() == 0 {
            seq![0u16]
        } else {
            g
        },
    decreases g2.len(),
{
    if g2.len() > 0 {
        law_flatten_groups(g1, g2.drop_last(), g);
        assert((g1 + g2).drop_last() =~= g1 + g2.drop_last());
        assert((g1 + g2).last() == g2.last());
        let tail = if g2.last().len() == 0 { seq![0u16] } else { g2.last() };
        assert(flatten_groups(g1) + flatten_groups(g2.drop_last()) + tail =~= flatten_groups(g1) + (
        flatten_groups(g2.drop_last()) + tail));
    } else {
        assert(g1 + g2 =~= g1);
        assert(flatten_groups(g1) + seq![] =~= flatten_groups(g1));
    }
    assert(seq![g].drop_last() =~= Seq::<Seq<u16>>::empty());
    assert(flatten_groups(Seq::<Seq<u16>>::empty()) == Seq::<u16>::empty());
    assert(seq![g].last() == g);
    assert(seq![] + (if g.len() == 0 { seq![0u16] } else { g }) =~= (if g.len() == 0 {
        seq![0u16]
    } else {
        g
    }));
}

/// The colours a printed cell receives: the pen's own, or with inverse video
/// the two swapped, a default background becoming ANSI black (0) as the
/// foreground and a default foreground ANSI white (7) as the background.
pub proof fn law_cell_style(p: Pen)
    ensures
        !p.inverse ==> p.spec_cell_style() == (p.fg, p.bg),
        p.inverse ==> p.spec_cell_style().0 == (if p.bg == Color::Default {
            Color::Indexed(0)
        } else {
            p.bg
        }),
        p.inverse ==> p.spec_cell_style().1 == (if p.fg == Color::Default {
            Color::Indexed(7)
        } else {
            p.fg
        }),
{
}

} // verus!
