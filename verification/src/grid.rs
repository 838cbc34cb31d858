use vstd::prelude::*;

use crate::codec::{empty_ch, empty_char, normalize, normalized, next_glyph, glyph_of_byte_spec};
use crate::color::{
    Color, palette, no_color, transparent, dim_green, dim_green_color, darken, darken_spec,
    random_color_excluded,
};
use crate::layout::{
    rows_deep, split_rows, split_rows_spec, max_row_len, max_row_len_spec, lemma_max_row_len_bound,
};

verus! {

/// One cell of a grid: a character (the empty sentinel when no glyph
/// occupies the cell) and its display color.
#[derive(Clone, Copy, PartialEq, Eq, Structural, Debug)]
pub struct Cell {
    pub ch: char,
    pub color: Color,
}

/// A cell as a spec-level value.
pub open spec fn make_cell(ch: char, color: Color) -> Cell {
    Cell { ch, color }
}

/// The cell every grid starts from: no glyph, dim green.
pub open spec fn blank_cell() -> Cell {
    Cell { ch: empty_ch(), color: dim_green() }
}

/// Horizontal pixel positions (width * 32) must fit a signed 32-bit
/// drawing coordinate.
pub const MAX_GRID_WIDTH: usize = 0x7fff_ffff / 32;

/// The column band rectangle's pixel height (32 * 32 * height) must fit an
/// unsigned 32-bit extent.
pub const MAX_GRID_HEIGHT: usize = 0xffff_ffff / 1024;

/// Whether a grid of `w` columns and `h` rows stays within the pixel
/// arithmetic bounds of the rasterizer.
pub open spec fn dims_ok(w: int, h: int) -> bool {
    w * 32 <= 0x7fff_ffff && h * 1024 <= 0xffff_ffff
}

/// A well-formed stack of columns: `w` columns of `h` rows each.
pub open spec fn grid_wf(cols: Seq<Vec<Cell>>, w: int, h: int) -> bool {
    cols.len() == w && forall|c: int| 0 <= c < w ==> (#[trigger] cols[c])@.len() == h
}

/// The target character at cell `(c, r)` for the given rows of text: row
/// `ri` of the text sits on grid row `ri + 2` (a fixed two-row top margin),
/// every unassigned cell holds the empty sentinel.
pub open spec fn target_ch_spec(rows: Seq<Seq<char>>, c: int, r: int) -> char {
    if 2 <= r && r < rows.len() + 2 && 0 <= c && c < rows[r - 2].len() {
        rows[r - 2][c]
    } else {
        empty_ch()
    }
}

/// One tick's effect on a rolling column: the fresh cell enters at row 0,
/// the rest shift down one row, the bottom row drops off.
pub open spec fn rolled(col: Seq<Cell>, fresh: Cell) -> Seq<Cell>
    recommends
        col.len() >= 1,
{
    seq![fresh] + col.drop_last()
}

/// The revealed cell after one scoring pass: frozen to the target character
/// with the darkened rolling color on a match, unchanged otherwise.
pub open spec fn scored(target: Cell, rolling: Cell, prev: Cell) -> Cell {
    if target.ch != empty_ch() && rolling.ch == target.ch {
        Cell { ch: target.ch, color: darken_spec(rolling.color) }
    } else {
        prev
    }
}

/// Law: scoring never changes a revealed character that already matches the
/// target, whatever glyph rolls in.
pub proof fn lemma_reveal_monotonic(target: Cell, rolling: Cell, prev: Cell)
    requires
        prev.ch == target.ch,
    ensures
        scored(target, rolling, prev).ch == target.ch,
{
}

/// A column after a whole sequence of draws, the last draw the most recent.
pub open spec fn rolled_n(col: Seq<Cell>, draws: Seq<Cell>) -> Seq<Cell>
    decreases draws.len(),
{
    if draws.len() == 0 {
        col
    } else {
        rolled(rolled_n(col, draws.drop_last()), draws.last())
    }
}

/// Rolling preserves the column height.
pub proof fn lemma_rolled_n_len(col: Seq<Cell>, draws: Seq<Cell>)
    requires
        col.len() >= 1,
    ensures
        rolled_n(col, draws).len() == col.len(),
    decreases draws.len(),
{
    if draws.len() == 0 {
    } else {
        lemma_rolled_n_len(col, draws.drop_last());
    }
}

/// Law: a rolling column is a fixed-size sliding window over the draws.
/// After the draws in `draws` land on a column of height `h`, row `r` holds
/// the `r + 1`-to-last draw: row 0 the most recent one, and row `h - 1`,
/// once at least `h` draws happened, the draw from `h - 1` ticks before the
/// last.
pub proof fn lemma_rolling_window(col: Seq<Cell>, draws: Seq<Cell>, r: int)
    requires
        col.len() >= 1,
        0 <= r < col.len(),
        r < draws.len(),
    ensures
        rolled_n(col, draws)[r] == draws[draws.len() - 1 - r],
    decreases draws.len(),
{
    lemma_rolled_n_len(col, draws.drop_last());
    if r == 0 {
    } else {
        lemma_rolling_window(col, draws.drop_last(), r - 1);
    }
}

/// The whole simulation state: the fixed target grid, the rolling grid of
/// flickering glyphs, the monotonically filling revealed grid, and one
/// current color per column. All three grids are column-major: the outer
/// index is the column, the inner index the row.
pub struct RevealGrid {
    pub target: Vec<Vec<Cell>>,
    pub rolling: Vec<Vec<Cell>>,
    pub revealed: Vec<Vec<Cell>>,
    pub column_colors: Vec<Color>,
    pub height: usize,
}

impl RevealGrid {
    /// Number of columns.
    pub open spec fn width(self) -> int {
        self.target@.len() as int
    }

    /// The target cell at `(c, r)`.
    pub open spec fn target_at(self, c: int, r: int) -> Cell {
        self.target@[c]@[r]
    }

    /// The rolling cell at `(c, r)`.
    pub open spec fn rolling_at(self, c: int, r: int) -> Cell {
        self.rolling@[c]@[r]
    }

    /// The revealed cell at `(c, r)`.
    pub open spec fn revealed_at(self, c: int, r: int) -> Cell {
        self.revealed@[c]@[r]
    }

    /// The rolling column `c` as a sequence of cells.
    pub open spec fn rolling_col(self, c: int) -> Seq<Cell> {
        self.rolling@[c]@
    }

    /// The current color of column `c`.
    pub open spec fn col_color(self, c: int) -> Color {
        self.column_colors@[c]
    }

    /// Whether `(c, r)` addresses a cell.
    pub open spec fn in_range(self, c: int, r: int) -> bool {
        0 <= c < self.width() && 0 <= r < self.height
    }

    /// Well-formedness: the three grids share the same dimensions, one color
    /// per column, and the height includes the five padding rows.
    pub open spec fn wf(self) -> bool {
        &&& grid_wf(self.target@, self.width(), self.height as int)
        &&& grid_wf(self.rolling@, self.width(), self.height as int)
        &&& grid_wf(self.revealed@, self.width(), self.height as int)
        &&& self.column_colors@.len() == self.width()
        &&& self.height >= 5
    }

    /// A target cell whose revealed character does not match yet.
    pub open spec fn cell_pending(self, c: int, r: int) -> bool {
        self.target_at(c, r).ch != empty_ch() && self.revealed_at(c, r).ch != self.target_at(
            c,
            r,
        ).ch
    }

    /// Every non-empty target cell has an equal-valued revealed character.
    pub open spec fn all_revealed(self) -> bool {
        forall|c: int, r: int| self.in_range(c, r) ==> !(#[trigger] self.cell_pending(c, r))
    }
}

/// What a freshly built simulation looks like for the given rows of text:
/// the target laid out with its two-row top margin, rolling and revealed
/// grids all blank, and initial column colors drawn from the palette with no
/// two horizontally adjacent columns identical.
pub open spec fn fresh_grid_for(g: RevealGrid, rows: Seq<Seq<char>>) -> bool {
    &&& g.wf()
    &&& g.width() == max_row_len_spec(rows)
    &&& g.height == rows.len() + 5
    &&& forall|c: int, r: int|
        g.in_range(c, r) ==> #[trigger] g.target_at(c, r) == make_cell(
            target_ch_spec(rows, c, r),
            dim_green(),
        )
    &&& forall|c: int, r: int| g.in_range(c, r) ==> #[trigger] g.rolling_at(c, r) == blank_cell()
    &&& forall|c: int, r: int| g.in_range(c, r) ==> #[trigger] g.revealed_at(c, r) == blank_cell()
    &&& forall|c: int| 0 <= c < g.width() ==> palette().contains(#[trigger] g.col_color(c))
    &&& g.width() > 0 ==> g.col_color(0) != no_color()
    &&& forall|c: int| 1 <= c < g.width() ==> #[trigger] g.col_color(c) != g.col_color(c - 1)
}

/// Builds the simulation state for the given rows of text. Returns `None`
/// exactly when the grid would break the rasterizer's pixel bounds.
pub fn from_rows(rows: &Vec<Vec<char>>) -> (g: Option<RevealGrid>)
    ensures
        match g {
            Some(grid) => fresh_grid_for(grid, rows_deep(rows@)) && dims_ok(
                max_row_len_spec(rows_deep(rows@)),
                rows_deep(rows@).len() + 5int,
            ),
            None => !dims_ok(max_row_len_spec(rows_deep(rows@)), rows_deep(rows@).len() + 5int),
        },
{
    let ghost rs = rows_deep(rows@);
    let w = max_row_len(rows);
    if w > MAX_GRID_WIDTH || rows.len() > MAX_GRID_HEIGHT - 5 {
        return None;
    }
    let h = rows.len() + 5;

    let mut column_colors: Vec<Color> = Vec::new();
    let mut ci: usize = 0;
    while ci < w
        invariant
            ci <= w,
            column_colors@.len() == ci,
            forall|j: int| 0 <= j < ci ==> palette().contains(#[trigger] column_colors@[j]),
            ci > 0 ==> column_colors@[0] != no_color(),
            forall|j: int| 1 <= j < ci ==> #[trigger] column_colors@[j] != column_colors@[j - 1],
        decreases w - ci,
    {
        let excluded = if ci == 0 {
            transparent()
        } else {
            column_colors[ci - 1]
        };
        let col = random_color_excluded(excluded);
        column_colors.push(col);
        ci += 1;
    }

    let mut target: Vec<Vec<Cell>> = Vec::new();
    let mut rolling: Vec<Vec<Cell>> = Vec::new();
    let mut revealed: Vec<Vec<Cell>> = Vec::new();
    let mut c: usize = 0;
    while c < w
        invariant
            c <= w,
            rs == rows_deep(rows@),
            h == rs.len() + 5int,
            target@.len() == c,
            rolling@.len() == c,
            revealed@.len() == c,
            forall|cc: int| 0 <= cc < c ==> (#[trigger] target@[cc])@.len() == h,
            forall|cc: int| 0 <= cc < c ==> (#[trigger] rolling@[cc])@.len() == h,
            forall|cc: int| 0 <= cc < c ==> (#[trigger] revealed@[cc])@.len() == h,
            forall|cc: int, rr: int|
                0 <= cc < c && 0 <= rr < h ==> #[trigger] target@[cc]@[rr] == make_cell(
                    target_ch_spec(rs, cc, rr),
                    dim_green(),
                ),
            forall|cc: int, rr: int|
                0 <= cc < c && 0 <= rr < h ==> #[trigger] rolling@[cc]@[rr] == blank_cell(),
            forall|cc: int, rr: int|
                0 <= cc < c && 0 <= rr < h ==> #[trigger] revealed@[cc]@[rr] == blank_cell(),
        decreases w - c,
    {
        let mut tcol: Vec<Cell> = Vec::new();
        let mut bcol: Vec<Cell> = Vec::new();
        let mut vcol: Vec<Cell> = Vec::new();
        let mut r: usize = 0;
        while r < h
            invariant
                c < w || c >= 0,
                rs == rows_deep(rows@),
                h == rs.len() + 5int,
                r <= h,
                tcol@.len() == r,
                bcol@.len() == r,
                vcol@.len() == r,
                forall|rr: int|
                    0 <= rr < r ==> #[trigger] tcol@[rr] == make_cell(
                        target_ch_spec(rs, c as int, rr),
                        dim_green(),
                    ),
                forall|rr: int| 0 <= rr < r ==> #[trigger] bcol@[rr] == blank_cell(),
                forall|rr: int| 0 <= rr < r ==> #[trigger] vcol@[rr] == blank_cell(),
            decreases h - r,
        {
            let ch = if r >= 2 && r - 2 < rows.len() {
                let row: &Vec<char> = &rows[r - 2];
                if c < row.len() {
                    row[c]
                } else {
                    empty_char()
                }
            } else {
                empty_char()
            };
            proof {
                assert(ch == target_ch_spec(rs, c as int, r as int));
            }
            tcol.push(Cell { ch, color: dim_green_color() });
            bcol.push(Cell { ch: empty_char(), color: dim_green_color() });
            vcol.push(Cell { ch: empty_char(), color: dim_green_color() });
            r += 1;
        }
        target.push(tcol);
        rolling.push(bcol);
        revealed.push(vcol);
        c += 1;
    }

    let g = RevealGrid { target, rolling, revealed, column_colors, height: h };
    proof {
        if rs.len() > 0 {
            lemma_max_row_len_bound(rs, 0);
        }
    }
    Some(g)
}

/// Builds the simulation for an input string: the string is normalized
/// through the legacy charset, split on spaces into rows (one word per row),
/// and laid out on the grid. Returns `None` exactly when the resulting grid
/// would break the rasterizer's pixel bounds.
pub fn build(s: &str) -> (g: Option<RevealGrid>)
    ensures
        ({
            let rs = split_rows_spec(normalized(s@));
            match g {
                Some(grid) => fresh_grid_for(grid, rs) && dims_ok(
                    max_row_len_spec(rs),
                    rs.len() + 5int,
                ),
                None => !dims_ok(max_row_len_spec(rs), rs.len() + 5int),
            }
        }),
{
    let norm = normalize(s);
    let rows = split_rows(&norm);
    from_rows(&rows)
}

impl RevealGrid {
    /// Replaces row 0 of every rolling column with its fresh cell, shifting
    /// the column down one row, and records the fresh colors as the new
    /// column colors.
    fn roll_columns(&mut self, fresh: &Vec<Cell>)
        requires
            old(self).wf(),
            fresh@.len() == old(self).width(),
        ensures
            final(self).wf(),
            final(self).target == old(self).target,
            final(self).revealed == old(self).revealed,
            final(self).height == old(self).height,
            final(self).width() == old(self).width(),
            forall|c: int|
                0 <= c < final(self).width() ==> #[trigger] final(self).rolling_col(c) == rolled(
                    old(self).rolling_col(c),
                    fresh@[c],
                ),
            forall|c: int| 0 <= c < final(self).width() ==> #[trigger] final(self).col_color(c) == fresh@[c].color,
    {
        let w = self.target.len();
        let h = self.height;
        let mut new_rolling: Vec<Vec<Cell>> = Vec::new();
        let mut new_colors: Vec<Color> = Vec::new();
        let mut c: usize = 0;
        while c < w
            invariant
                c <= w,
                w == self.width(),
                h == self.height,
                self.wf(),
                fresh@.len() == w,
                new_rolling@.len() == c,
                new_colors@.len() == c,
                forall|cc: int|
                    0 <= cc < c ==> (#[trigger] new_rolling@[cc])@ == rolled(
                        self.rolling_col(cc),
                        fresh@[cc],
                    ),
                forall|cc: int| 0 <= cc < c ==> #[trigger] new_colors@[cc] == fresh@[cc].color,
            decreases w - c,
        {
            let fcell = fresh[c];
            let mut col: Vec<Cell> = Vec::new();
            col.push(fcell);
            let mut r: usize = 0;
            while r + 1 < h
                invariant
                    c < w,
                    w == self.width(),
                    h == self.height,
                    self.wf(),
                    fresh@.len() == w,
                    r < h,
                    col@.len() == r + 1,
                    col@[0] == fresh@[c as int],
                    forall|rr: int|
                        1 <= rr < r + 1 ==> #[trigger] col@[rr] == self.rolling_col(
                            c as int,
                        )[rr - 1],
                decreases h - r,
            {
                let prev = self.rolling[c][r];
                col.push(prev);
                r += 1;
            }
            proof {
                assert(col@ =~= rolled(self.rolling_col(c as int), fresh@[c as int]));
            }
            new_rolling.push(col);
            new_colors.push(fcell.color);
            c += 1;
        }
        self.rolling = new_rolling;
        self.column_colors = new_colors;
    }

    /// Whether some non-empty target cell is still missing its revealed
    /// character.
    pub fn has_unrevealed(&self) -> (pending: bool)
        requires
            self.wf(),
        ensures
            pending == !self.all_revealed(),
    {
        let w = self.target.len();
        let h = self.height;
        let mut pending = false;
        let mut c: usize = 0;
        while c < w
            invariant
                c <= w,
                w == self.width(),
                h == self.height,
                self.wf(),
                pending == exists|cc: int, rr: int|
                    0 <= cc < c && 0 <= rr < h && #[trigger] self.cell_pending(cc, rr),
            decreases w - c,
        {
            let mut r: usize = 0;
            while r < h
                invariant
                    c < w,
                    w == self.width(),
                    h == self.height,
                    self.wf(),
                    r <= h,
                    pending == ((exists|cc: int, rr: int|
                        0 <= cc < c && 0 <= rr < h && #[trigger] self.cell_pending(cc, rr))
                        || (exists|rr: int|
                        0 <= rr < r && #[trigger] self.cell_pending(c as int, rr))),
                decreases h - r,
            {
                let t = self.target[c][r];
                let v = self.revealed[c][r];
                if t.ch != '\0' && v.ch != t.ch {
                    pending = true;
                    proof {
                        assert(self.cell_pending(c as int, r as int));
                    }
                }
                r += 1;
            }
            c += 1;
        }
        pending
    }

    /// One scoring pass: every cell where the rolling glyph matches a
    /// non-empty target freezes to the target character with the darkened
    /// rolling color; every other revealed cell keeps its value. Returns
    /// whether unresolved target cells remain afterwards.
    pub fn score_and_reveal(&mut self) -> (unresolved: bool)
        requires
            old(self).wf(),
        ensures
            final(self).wf(),
            final(self).target == old(self).target,
            final(self).rolling == old(self).rolling,
            final(self).column_colors == old(self).column_colors,
            final(self).height == old(self).height,
            final(self).width() == old(self).width(),
            forall|c: int|
                0 <= c < final(self).width() ==> #[trigger] final(self).rolling_col(c) == old(
                    self,
                ).rolling_col(c),
            forall|c: int|
                0 <= c < final(self).width() ==> #[trigger] final(self).col_color(c) == old(
                    self,
                ).col_color(c),
            forall|c: int, r: int|
                final(self).in_range(c, r) ==> #[trigger] final(self).revealed_at(c, r) == scored(
                    final(self).target_at(c, r),
                    final(self).rolling_at(c, r),
                    old(self).revealed_at(c, r),
                ),
            unresolved == !final(self).all_revealed(),
    {
        let w = self.target.len();
        let h = self.height;
        let mut new_revealed: Vec<Vec<Cell>> = Vec::new();
        let mut c: usize = 0;
        while c < w
            invariant
                c <= w,
                w == self.width(),
                h == self.height,
                self.wf(),
                new_revealed@.len() == c,
                forall|cc: int| 0 <= cc < c ==> (#[trigger] new_revealed@[cc])@.len() == h,
                forall|cc: int, rr: int|
                    0 <= cc < c && 0 <= rr < h ==> #[trigger] new_revealed@[cc]@[rr] == scored(
                        self.target_at(cc, rr),
                        self.rolling_at(cc, rr),
                        self.revealed_at(cc, rr),
                    ),
            decreases w - c,
        {
            let mut col: Vec<Cell> = Vec::new();
            let mut r: usize = 0;
            while r < h
                invariant
                    c < w,
                    w == self.width(),
                    h == self.height,
                    self.wf(),
                    r <= h,
                    col@.len() == r,
                    forall|rr: int|
                        0 <= rr < r ==> #[trigger] col@[rr] == scored(
                            self.target_at(c as int, rr),
                            self.rolling_at(c as int, rr),
                            self.revealed_at(c as int, rr),
                        ),
                decreases h - r,
            {
                let t = self.target[c][r];
                let b = self.rolling[c][r];
                let v = self.revealed[c][r];
                let cell = if t.ch != '\0' && b.ch == t.ch {
                    Cell { ch: t.ch, color: darken(b.color) }
                } else {
                    v
                };
                col.push(cell);
                r += 1;
            }
            new_revealed.push(col);
            c += 1;
        }
        self.revealed = new_revealed;
        self.has_unrevealed()
    }

    /// One full tick with the given fresh cells, one per column: the rolling
    /// grid slides down under the fresh glyphs, the column colors take the
    /// fresh colors, then the scoring pass reveals every matching cell.
    /// Returns whether unresolved target cells remain; once it returns
    /// `false`, every non-empty target cell stays revealed.
    pub fn advance_tick(&mut self, fresh: &Vec<Cell>) -> (unresolved: bool)
        requires
            old(self).wf(),
            fresh@.len() == old(self).width(),
        ensures
            final(self).wf(),
            final(self).target == old(self).target,
            final(self).height == old(self).height,
            final(self).width() == old(self).width(),
            forall|c: int|
                0 <= c < final(self).width() ==> #[trigger] final(self).rolling_col(c) == rolled(
                    old(self).rolling_col(c),
                    fresh@[c],
                ),
            forall|c: int| 0 <= c < final(self).width() ==> #[trigger] final(self).col_color(c) == fresh@[c].color,
            forall|c: int, r: int|
                final(self).in_range(c, r) ==> #[trigger] final(self).revealed_at(c, r) == scored(
                    final(self).target_at(c, r),
                    final(self).rolling_at(c, r),
                    old(self).revealed_at(c, r),
                ),
            forall|c: int, r: int|
                final(self).in_range(c, r) && old(self).revealed_at(c, r).ch == final(self).target_at(c, r).ch
                    ==> (#[trigger] final(self).revealed_at(c, r)).ch == final(self).target_at(c, r).ch,
            unresolved == !final(self).all_revealed(),
    {
        self.roll_columns(fresh);
        self.score_and_reveal()
    }

    /// One full tick with random draws, as the live animation runs it: each
    /// column gets a random legacy-charset glyph and a palette color
    /// different from the column's previous color.
    pub fn advance_tick_random(&mut self) -> (unresolved: bool)
        requires
            old(self).wf(),
        ensures
            final(self).wf(),
            final(self).target == old(self).target,
            final(self).height == old(self).height,
            final(self).width() == old(self).width(),
            forall|c: int|
                0 <= c < final(self).width() ==> palette().contains(#[trigger] final(self).col_color(c))
                    && final(self).col_color(c) != old(self).col_color(c),
            forall|c: int, r: int|
                0 <= c < final(self).width() && 1 <= r < final(self).height ==> #[trigger] final(self).rolling_at(c, r)
                    == old(self).rolling_at(c, r - 1),
            forall|c: int|
                0 <= c < final(self).width() ==> (#[trigger] final(self).rolling_at(c, 0)).color
                    == final(self).col_color(c) && (exists|b: u8|
                    final(self).rolling_at(c, 0).ch == glyph_of_byte_spec(b)),
            forall|c: int, r: int|
                final(self).in_range(c, r) ==> #[trigger] final(self).revealed_at(c, r) == scored(
                    final(self).target_at(c, r),
                    final(self).rolling_at(c, r),
                    old(self).revealed_at(c, r),
                ),
            forall|c: int, r: int|
                final(self).in_range(c, r) && old(self).revealed_at(c, r).ch == final(self).target_at(c, r).ch
                    ==> (#[trigger] final(self).revealed_at(c, r)).ch == final(self).target_at(c, r).ch,
            unresolved == !final(self).all_revealed(),
    {
        let w = self.target.len();
        let mut fresh: Vec<Cell> = Vec::new();
        let mut c: usize = 0;
        while c < w
            invariant
                c <= w,
                w == self.width(),
                self.wf(),
                fresh@.len() == c,
                forall|cc: int|
                    0 <= cc < c ==> palette().contains((#[trigger] fresh@[cc]).color)
                        && fresh@[cc].color != self.col_color(cc),
                forall|cc: int|
                    0 <= cc < c ==> exists|b: u8| (#[trigger] fresh@[cc]).ch == glyph_of_byte_spec(
                        b,
                    ),
            decreases w - c,
        {
            let ch = next_glyph();
            let color = random_color_excluded(self.column_colors[c]);
            fresh.push(Cell { ch, color });
            c += 1;
        }
        let unresolved = self.advance_tick(&fresh);
        proof {
            assert forall|cc: int, rr: int|
                0 <= cc < self.width() && 1 <= rr < self.height implies #[trigger] self.rolling_at(
                cc,
                rr,
            ) == old(self).rolling_at(cc, rr - 1) by {
                assert(self.rolling_col(cc) == rolled(old(self).rolling_col(cc), fresh@[cc]));
                assert(self.rolling_col(cc)[rr] == old(self).rolling_col(cc).drop_last()[rr - 1]);
            }
            assert forall|cc: int| 0 <= cc < self.width() implies (#[trigger] self.rolling_at(
                cc,
                0,
            )).color == self.col_color(cc) && (exists|b: u8|
                self.rolling_at(cc, 0).ch == glyph_of_byte_spec(b)) by {
                assert(self.rolling_col(cc) == rolled(old(self).rolling_col(cc), fresh@[cc]));
                assert(self.rolling_at(cc, 0) == fresh@[cc]);
            }
        }
        unresolved
    }
}

} // verus!
