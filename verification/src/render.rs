//! What a frame draws, worked out from the grid before any geometry: which
//! cells get a background quad, which get a glyph and in what colour, where
//! the glyphs of a line of chrome text go, and how large the vertex buffer
//! must grow.

use vstd::arithmetic::power2::pow2;
use vstd::prelude::*;

use crate::terminal::Cell;
use crate::theme::{Rgba8, Theme};

verus! {

/// A cell whose background is filled.
#[derive(Clone, Copy, PartialEq, Eq, Debug, Structural)]
pub struct BgQuad {
    pub row: usize,
    pub col: usize,
    pub color: Rgba8,
}

/// A cell whose character is drawn.
#[derive(Clone, Copy, PartialEq, Eq, Debug, Structural)]
pub struct GlyphQuad {
    pub row: usize,
    pub col: usize,
    pub ch: char,
    pub bold: bool,
    pub italic: bool,
    pub color: Rgba8,
}

/// Background quads of the first cells of row `r`, left to right.
pub open spec fn bg_row(theme: &Theme, line: Seq<Cell>, r: int) -> Seq<BgQuad>
    decreases line.len(),
{
    if line.len() == 0 {
        seq![]
    } else {
        bg_row(theme, line.drop_last(), r) + match theme.spec_resolve_bg(line.last().bg) {
            Some(color) => seq![BgQuad { row: r as usize, col: (line.len() - 1) as usize, color }],
            None => seq![],
        }
    }
}

/// Background quads of a grid, row by row: one for each cell whose
/// background is not the default, in the colour the theme gives it.
pub open spec fn bg_plan(theme: &Theme, cells: Seq<Seq<Cell>>) -> Seq<BgQuad>
    decreases cells.len(),
{
    if cells.len() == 0 {
        seq![]
    } else {
        bg_plan(theme, cells.drop_last()) + bg_row(theme, cells.last(), cells.len() - 1)
    }
}

/// A cell shows a glyph unless it holds a space or NUL.
pub open spec fn shows_glyph(c: Cell) -> bool {
    c.ch != ' ' && c.ch != '\0'
}

/// Glyph quads of the first cells of row `r`, left to right.
pub open spec fn glyph_row(theme: &Theme, line: Seq<Cell>, r: int) -> Seq<GlyphQuad>
    decreases line.len(),
{
    if line.len() == 0 {
        seq![]
    } else {
        let c = line.last();
        glyph_row(theme, line.drop_last(), r) + if shows_glyph(c) {
            seq![
                GlyphQuad {
                    row: r as usize,
                    col: (line.len() - 1) as usize,
                    ch: c.ch,
                    bold: c.bold,
                    italic: c.italic,
                    color: theme.spec_resolve_fg(c.fg, c.bold),
                },
            ]
        } else {
            seq![]
        }
    }
}

/// Glyph quads of a grid, row by row: one for each cell that shows a glyph,
/// in its resolved foreground colour.
pub open spec fn glyph_plan(theme: &Theme, cells: Seq<Seq<Cell>>) -> Seq<GlyphQuad>
    decreases cells.len(),
{
    if cells.len() == 0 {
        seq![]
    } else {
        glyph_plan(theme, cells.drop_last()) + glyph_row(theme, cells.last(), cells.len() - 1)
    }
}

/// The contents of a list of rows.
pub open spec fn lines_view(lines: Seq<Vec<Cell>>) -> Seq<Seq<Cell>> {
    lines.map_values(|l: Vec<Cell>| l@)
}

/// The background quads of a grid's rows.
pub fn background_quads(lines: &[Vec<Cell>], theme: &Theme) -> (quads: Vec<BgQuad>)
    ensures
        quads@ == bg_plan(theme, lines_view(lines@)),
{
    let mut out: Vec<BgQuad> = Vec::new();
    let mut r: usize = 0;
    while r < lines.len()
        invariant
            r <= lines@.len(),
            out@ == bg_plan(theme, lines_view(lines@).subrange(0, r as int)),
        decreases lines@.len() - r,
    {
        let line = &lines[r];
        let ghost base = out@;
        let mut c: usize = 0;
        while c < line.len()
            invariant
                r < lines@.len(),
                line == lines@[r as int],
                c <= line@.len(),
                out@ == base + bg_row(theme, line@.subrange(0, c as int), r as int),
            decreases line@.len() - c,
        {
            assert(line@.subrange(0, c + 1).drop_last() =~= line@.subrange(0, c as int));
            if let Some(color) = theme.resolve_bg(line[c].bg) {
                out.push(BgQuad { row: r, col: c, color });
            }
            c += 1;
            assert(out@ =~= base + bg_row(theme, line@.subrange(0, c as int), r as int));
        }
        assert(line@.subrange(0, line@.len() as int) =~= line@);
        assert(lines_view(lines@).subrange(0, r + 1).drop_last() =~= lines_view(lines@).subrange(0, r as int));
        r += 1;
    }
    assert(lines_view(lines@).subrange(0, lines@.len() as int) =~= lines_view(lines@));
    out
}

/// The glyph quads of a grid's rows.
pub fn glyph_quads(lines: &[Vec<Cell>], theme: &Theme) -> (quads: Vec<GlyphQuad>)
    ensures
        quads@ == glyph_plan(theme, lines_view(lines@)),
{
    let mut out: Vec<GlyphQuad> = Vec::new();
    let mut r: usize = 0;
    while r < lines.len()
        invariant
            r <= lines@.len(),
            out@ == glyph_plan(theme, lines_view(lines@).subrange(0, r as int)),
        decreases lines@.len() - r,
    {
        let line = &lines[r];
        let ghost base = out@;
        let mut c: usize = 0;
        while c < line.len()
            invariant
                r < lines@.len(),
                line == lines@[r as int],
                c <= line@.len(),
                out@ == base + glyph_row(theme, line@.subrange(0, c as int), r as int),
            decreases line@.len() - c,
        {
            assert(line@.subrange(0, c + 1).drop_last() =~= line@.subrange(0, c as int));
            let cell = line[c];
            if cell.ch != ' ' && cell.ch != '\0' {
                let color = theme.resolve_fg(cell.fg, cell.bold);
                out.push(GlyphQuad { row: r, col: c, ch: cell.ch, bold: cell.bold, italic: cell.italic, color });
            }
            c += 1;
            assert(out@ =~= base + glyph_row(theme, line@.subrange(0, c as int), r as int));
        }
        assert(line@.subrange(0, line@.len() as int) =~= line@);
        assert(lines_view(lines@).subrange(0, r + 1).drop_last() =~= lines_view(lines@).subrange(0, r as int));
        r += 1;
    }
    assert(lines_view(lines@).subrange(0, lines@.len() as int) =~= lines_view(lines@));
    out
}

/// The (column, character) pairs of the non-space characters of a text.
pub open spec fn text_glyphs(text: Seq<char>) -> Seq<(usize, char)>
    decreases text.len(),
{
    if text.len() == 0 {
        seq![]
    } else {
        text_glyphs(text.drop_last()) + if text.last() != ' ' {
            seq![((text.len() - 1) as usize, text.last())]
        } else {
            seq![]
        }
    }
}

/// Where the glyphs of a line of chrome text go: each character takes one
/// cell, and spaces draw nothing.
pub fn text_glyph_columns(text: &[char]) -> (cols: Vec<(usize, char)>)
    ensures
        cols@ == text_glyphs(text@),
{
    let mut out: Vec<(usize, char)> = Vec::new();
    let mut i: usize = 0;
    while i < text.len()
        invariant
            i <= text@.len(),
            out@ == text_glyphs(text@.subrange(0, i as int)),
        decreases text@.len() - i,
    {
        assert(text@.subrange(0, i + 1).drop_last() =~= text@.subrange(0, i as int));
        if text[i] != ' ' {
            out.push((i, text[i]));
        }
        i += 1;
        assert(out@ =~= text_glyphs(text@.subrange(0, i as int)));
    }
    assert(text@.subrange(0, text@.len() as int) =~= text@);
    out
}

/// `p` is the smallest power of two at least `n`.
pub open spec fn is_next_pow2(n: int, p: int) -> bool {
    exists|k: nat| p == #[trigger] pow2(k) && n <= p && (k == 0 || pow2((k - 1) as nat) < n)
}

/// `usize::next_power_of_two`: the smallest power of two greater than or
/// equal to `n` (its documentation; it overflows past the largest power of
/// two, which `requires` leaves out).
#[verifier::external_body]
fn next_power_of_two(n: usize) -> (p: usize)
    requires
        n <= usize::MAX / 2 + 1,
    ensures
        is_next_pow2(n as int, p as int),
{
    n.next_power_of_two()
}

/// The size the vertex buffer must have for `needed` vertices: the current
/// capacity while it suffices, else the next power of two.
pub fn grown_capacity(needed: usize, capacity: usize) -> (cap: usize)
    requires
        needed <= usize::MAX / 2 + 1,
    ensures
        needed <= capacity ==> cap == capacity,
        needed > capacity ==> is_next_pow2(needed as int, cap as int),
{
    if needed > capacity {
        next_power_of_two(needed)
    } else {
        capacity
    }
}

/// `q` draws cell (`q.row`, `q.col`) of `cells`, which shows a glyph, with
/// that cell's character, bold and italic attributes and resolved colour.
pub open spec fn glyph_quad_matches(theme: &Theme, cells: Seq<Seq<Cell>>, q: GlyphQuad) -> bool {
    &&& (q.row as int) < cells.len()
    &&& (q.col as int) < cells[q.row as int].len()
    &&& {
        let c = cells[q.row as int][q.col as int];
        &&& c.ch != ' ' && c.ch != '\0'
        &&& q.ch == c.ch
        &&& q.bold == c.bold
        &&& q.italic == c.italic
        &&& q.color == theme.spec_resolve_fg(c.fg, c.bold)
    }
}

/// `q` fills cell (`q.row`, `q.col`) of `cells`, whose background is not the
/// default, in that background's resolved colour.
pub open spec fn bg_quad_matches(theme: &Theme, cells: Seq<Seq<Cell>>, q: BgQuad) -> bool {
    &&& (q.row as int) < cells.len()
    &&& (q.col as int) < cells[q.row as int].len()
    &&& theme.spec_resolve_bg(cells[q.row as int][q.col as int].bg) == Some(q.color)
}

proof fn lemma_glyph_row(theme: &Theme, cells: Seq<Seq<Cell>>, r: int, n: int)
    requires
        0 <= r < cells.len(),
        r <= usize::MAX,
        0 <= n <= cells[r].len(),
        cells[r].len() <= usize::MAX,
    ensures
        forall|i: int|
            0 <= i < glyph_row(theme, cells[r].subrange(0, n), r).len() ==> {
                let q = #[trigger] glyph_row(theme, cells[r].subrange(0, n), r)[i];
                &&& glyph_quad_matches(theme, cells, q)
                &&& q.row == r
                &&& q.col < n
            },
        forall|c: int|
            0 <= c < n && (#[trigger] cells[r][c]).ch != ' ' && cells[r][c].ch != '\0' ==> exists|i: int|
                0 <= i < glyph_row(theme, cells[r].subrange(0, n), r).len() && (
                #[trigger] glyph_row(theme, cells[r].subrange(0, n), r)[i]).col == c,
    decreases n,
{
    let line = cells[r].subrange(0, n);
    if n > 0 {
        assert(line.drop_last() =~= cells[r].subrange(0, n - 1));
        lemma_glyph_row(theme, cells, r, n - 1);
        let prev = glyph_row(theme, cells[r].subrange(0, n - 1), r);
        let all = glyph_row(theme, line, r);
        assert forall|c: int|
            0 <= c < n && (#[trigger] cells[r][c]).ch != ' ' && cells[r][c].ch != '\0' implies exists|i: int|
                0 <= i < all.len() && (#[trigger] all[i]).col == c by {
            if c < n - 1 {
                let i = choose|i: int| 0 <= i < prev.len() && (#[trigger] prev[i]).col == c;
                assert(all[i] == prev[i]);
            } else {
                assert(all[prev.len() as int].col == c);
            }
        }
    }
}

proof fn lemma_glyph_plan(theme: &Theme, cells: Seq<Seq<Cell>>, n: int)
    requires
        0 <= n <= cells.len(),
        cells.len() <= usize::MAX,
        forall|r: int| 0 <= r < cells.len() ==> #[trigger] cells[r].len() <= usize::MAX,
    ensures
        forall|i: int|
            0 <= i < glyph_plan(theme, cells.subrange(0, n)).len() ==> {
                let q = #[trigger] glyph_plan(theme, cells.subrange(0, n))[i];
                glyph_quad_matches(theme, cells, q) && q.row < n
            },
        forall|r: int, c: int|
            0 <= r < n && 0 <= c < cells[r].len() && (#[trigger] cells[r][c]).ch != ' ' && cells[r][c].ch
                != '\0' ==> exists|i: int|
                0 <= i < glyph_plan(theme, cells.subrange(0, n)).len() && (#[trigger] glyph_plan(
                    theme,
                    cells.subrange(0, n),
                )[i]).row == r && glyph_plan(theme, cells.subrange(0, n))[i].col == c,
    decreases n,
{
    if n > 0 {
        let sub = cells.subrange(0, n);
        assert(sub.drop_last() =~= cells.subrange(0, n - 1));
        assert(sub.last() == cells[n - 1]);
        lemma_glyph_plan(theme, cells, n - 1);
        lemma_glyph_row(theme, cells, n - 1, cells[n - 1].len() as int);
        assert(cells[n - 1].subrange(0, cells[n - 1].len() as int) =~= cells[n - 1]);
        let prev = glyph_plan(theme, cells.subrange(0, n - 1));
        let row = glyph_row(theme, cells[n - 1], n - 1);
        let all = glyph_plan(theme, sub);
        assert(all == prev + row);
        assert forall|i: int| 0 <= i < all.len() implies {
            let q = #[trigger] all[i];
            glyph_quad_matches(theme, cells, q) && q.row < n
        } by {
            if i < prev.len() {
                assert(all[i] == prev[i]);
            } else {
                assert(all[i] == row[i - prev.len()]);
            }
        }
        assert forall|r: int, c: int|
            0 <= r < n && 0 <= c < cells[r].len() && (#[trigger] cells[r][c]).ch != ' ' && cells[r][c].ch
                != '\0' implies exists|i: int|
                0 <= i < all.len() && (#[trigger] all[i]).row == r && all[i].col == c by {
            if r < n - 1 {
                let i = choose|i: int| 0 <= i < prev.len() && (#[trigger] prev[i]).row == r && prev[i].col == c;
                assert(all[i] == prev[i]);
            } else {
                let i = choose|i: int| 0 <= i < row.len() && (#[trigger] row[i]).col == c;
                assert(all[prev.len() + i] == row[i]);
            }
        }
    }
}

/// The glyph quads of a grid are exactly its cells that show a glyph: each
/// quad draws such a cell with the cell's own character, bold and italic
/// attributes and resolved foreground colour, and every such cell has a
/// quad.
pub proof fn law_glyph_quads_match_cells(theme: &Theme, cells: Seq<Seq<Cell>>)
    requires
        cells.len() <= usize::MAX,
        forall|r: int| 0 <= r < cells.len() ==> #[trigger] cells[r].len() <= usize::MAX,
    ensures
        forall|i: int|
            0 <= i < glyph_plan(theme, cells).len() ==> glyph_quad_matches(
                theme,
                cells,
                #[trigger] glyph_plan(theme, cells)[i],
            ),
        forall|r: int, c: int|
            0 <= r < cells.len() && 0 <= c < cells[r].len() && (#[trigger] cells[r][c]).ch != ' '
                && cells[r][c].ch != '\0' ==> exists|i: int|
                0 <= i < glyph_plan(theme, cells).len() && (#[trigger] glyph_plan(theme, cells)[i]).row
                    == r && glyph_plan(theme, cells)[i].col == c,
{
    lemma_glyph_plan(theme, cells, cells.len() as int);
    assert(cells.subrange(0, cells.len() as int) =~= cells);
}

proof fn lemma_bg_row(theme: &Theme, cells: Seq<Seq<Cell>>, r: int, n: int)
    requires
        0 <= r < cells.len(),
        r <= usize::MAX,
        0 <= n <= cells[r].len(),
        cells[r].len() <= usize::MAX,
    ensures
        forall|i: int|
            0 <= i < bg_row(theme, cells[r].subrange(0, n), r).len() ==> {
                let q = #[trigger] bg_row(theme, cells[r].subrange(0, n), r)[i];
                &&& bg_quad_matches(theme, cells, q)
                &&& q.row == r
                &&& q.col < n
            },
        forall|c: int|
            0 <= c < n && theme.spec_resolve_bg((#[trigger] cells[r][c]).bg) is Some ==> exists|i: int|
                0 <= i < bg_row(theme, cells[r].subrange(0, n), r).len() && (
                #[trigger] bg_row(theme, cells[r].subrange(0, n), r)[i]).col == c,
    decreases n,
{
    let line = cells[r].subrange(0, n);
    if n > 0 {
        assert(line.drop_last() =~= cells[r].subrange(0, n - 1));
        lemma_bg_row(theme, cells, r, n - 1);
        let prev = bg_row(theme, cells[r].subrange(0, n - 1), r);
        let all = bg_row(theme, line, r);
        assert forall|c: int|
            0 <= c < n && theme.spec_resolve_bg((#[trigger] cells[r][c]).bg) is Some implies exists|i: int|
                0 <= i < all.len() && (#[trigger] all[i]).col == c by {
            if c < n - 1 {
                let i = choose|i: int| 0 <= i < prev.len() && (#[trigger] prev[i]).col == c;
                assert(all[i] == prev[i]);
            } else {
                assert(all[prev.len() as int].col == c);
            }
        }
    }
}

proof fn lemma_bg_plan(theme: &Theme, cells: Seq<Seq<Cell>>, n: int)
    requires
        0 <= n <= cells.len(),
        cells.len() <= usize::MAX,
        forall|r: int| 0 <= r < cells.len() ==> #[trigger] cells[r].len() <= usize::MAX,
    ensures
        forall|i: int|
            0 <= i < bg_plan(theme, cells.subrange(0, n)).len() ==> {
                let q = #[trigger] bg_plan(theme, cells.subrange(0, n))[i];
                bg_quad_matches(theme, cells, q) && q.row < n
            },
        forall|r: int, c: int|
            0 <= r < n && 0 <= c < cells[r].len() && theme.spec_resolve_bg((#[trigger] cells[r][c]).bg) is Some ==> exists|i: int|
                0 <= i < bg_plan(theme, cells.subrange(0, n)).len() && (#[trigger] bg_plan(
                    theme,
                    cells.subrange(0, n),
                )[i]).row == r && bg_plan(theme, cells.subrange(0, n))[i].col == c,
    decreases n,
{
    if n > 0 {
        let sub = cells.subrange(0, n);
        assert(sub.drop_last() =~= cells.subrange(0, n - 1));
        assert(sub.last() == cells[n - 1]);
        lemma_bg_plan(theme, cells, n - 1);
        lemma_bg_row(theme, cells, n - 1, cells[n - 1].len() as int);
        assert(cells[n - 1].subrange(0, cells[n - 1].len() as int) =~= cells[n - 1]);
        let prev = bg_plan(theme, cells.subrange(0, n - 1));
        let row = bg_row(theme, cells[n - 1], n - 1);
        let all = bg_plan(theme, sub);
        assert(all == prev + row);
        assert forall|i: int| 0 <= i < all.len() implies {
            let q = #[trigger] all[i];
            bg_quad_matches(theme, cells, q) && q.row < n
        } by {
            if i < prev.len() {
                assert(all[i] == prev[i]);
            } else {
                assert(all[i] == row[i - prev.len()]);
            }
        }
        assert forall|r: int, c: int|
            0 <= r < n && 0 <= c < cells[r].len() && theme.spec_resolve_bg((#[trigger] cells[r][c]).bg) is Some implies exists|i: int|
                0 <= i < all.len() && (#[trigger] all[i]).row == r && all[i].col == c by {
            if r < n - 1 {
                let i = choose|i: int| 0 <= i < prev.len() && (#[trigger] prev[i]).row == r && prev[i].col == c;
                assert(all[i] == prev[i]);
            } else {
                let i = choose|i: int| 0 <= i < row.len() && (#[trigger] row[i]).col == c;
                assert(all[prev.len() + i] == row[i]);
            }
        }
    }
}

/// The background quads of a grid are exactly its cells with a background
/// other than the default: each quad fills such a cell in the colour its
/// background resolves to, and every such cell has a quad.
pub proof fn law_bg_quads_match_cells(theme: &Theme, cells: Seq<Seq<Cell>>)
    requires
        cells.len() <= usize::MAX,
        forall|r: int| 0 <= r < cells.len() ==> #[trigger] cells[r].len() <= usize::MAX,
    ensures
        forall|i: int|
            0 <= i < bg_plan(theme, cells).len() ==> bg_quad_matches(
                theme,
                cells,
                #[trigger] bg_plan(theme, cells)[i],
            ),
        forall|r: int, c: int|
            0 <= r < cells.len() && 0 <= c < cells[r].len() && theme.spec_resolve_bg((#[trigger] cells[r][c]).bg) is Some ==> exists|i: int|
                0 <= i < bg_plan(theme, cells).len() && (#[trigger] bg_plan(theme, cells)[i]).row
                    == r && bg_plan(theme, cells)[i].col == c,
{
    lemma_bg_plan(theme, cells, cells.len() as int);
    assert(cells.subrange(0, cells.len() as int) =~= cells);
}

proof fn lemma_text_glyphs(text: Seq<char>, n: int)
    requires
        0 <= n <= text.len(),
        text.len() <= usize::MAX,
    ensures
        forall|i: int|
            0 <= i < text_glyphs(text.subrange(0, n)).len() ==> {
                let (col, ch) = #[trigger] text_glyphs(text.subrange(0, n))[i];
                (col as int) < n && text[col as int] == ch && ch != ' '
            },
        forall|i: int, j: int|
            0 <= i < j < text_glyphs(text.subrange(0, n)).len() ==> (#[trigger] text_glyphs(
                text.subrange(0, n),
            )[i]).0 < (#[trigger] text_glyphs(text.subrange(0, n))[j]).0,
        forall|c: int|
            0 <= c < n && #[trigger] text[c] != ' ' ==> exists|i: int|
                0 <= i < text_glyphs(text.subrange(0, n)).len() && (#[trigger] text_glyphs(
                    text.subrange(0, n),
                )[i]).0 == c,
    decreases n,
{
    if n > 0 {
        let sub = text.subrange(0, n);
        assert(sub.drop_last() =~= text.subrange(0, n - 1));
        lemma_text_glyphs(text, n - 1);
        let prev = text_glyphs(text.subrange(0, n - 1));
        let all = text_glyphs(sub);
        assert forall|c: int| 0 <= c < n && #[trigger] text[c] != ' ' implies exists|i: int|
            0 <= i < all.len() && (#[trigger] all[i]).0 == c by {
            if c < n - 1 {
                let i = choose|i: int| 0 <= i < prev.len() && (#[trigger] prev[i]).0 == c;
                assert(all[i] == prev[i]);
            } else {
                assert(all[prev.len() as int].0 == c);
            }
        }
    }
}

/// The glyphs of a line of chrome text are its non-space characters, each
/// at the column of its position in the text, left to right.
pub proof fn law_text_glyph_columns(text: Seq<char>)
    requires
        text.len() <= usize::MAX,
    ensures
        forall|i: int|
            0 <= i < text_glyphs(text).len() ==> {
                let (col, ch) = #[trigger] text_glyphs(text)[i];
                (col as int) < text.len() && text[col as int] == ch && ch != ' '
            },
        forall|i: int, j: int|
            0 <= i < j < text_glyphs(text).len() ==> (#[trigger] text_glyphs(text)[i]).0 < (
            #[trigger] text_glyphs(text)[j]).0,
        forall|c: int|
            0 <= c < text.len() && #[trigger] text[c] != ' ' ==> exists|i: int|
                0 <= i < text_glyphs(text).len() && (#[trigger] text_glyphs(text)[i]).0 == c,
{
    lemma_text_glyphs(text, text.len() as int);
    assert(text.subrange(0, text.len() as int) =~= text);
}

} // verus!
