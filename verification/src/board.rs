//! The board: the grid of cells, the gravity drop, and the column selector.

use vstd::prelude::*;
use vstd::string::*;
use crate::piece::{Cell, Piece, PieceDef, cell_glyph, cell_of, piece_glyph};

verus! {

/// The selector position after one shift to the left: it decrements, clamped
/// at the lower bound 0.
pub open spec fn shl_step(pos: int) -> int {
    if pos <= 0 {
        0
    } else {
        pos - 1
    }
}

/// The selector position after one shift to the right: it increments, clamped
/// at the upper bound `max`.
pub open spec fn shr_step(pos: int, max: int) -> int {
    if pos + 1 <= max {
        pos + 1
    } else {
        max
    }
}

/// The column selector shown above the board: the index of the column a drop
/// will target, always within `[0, max]`.
#[derive(Debug, Clone, Copy, PartialEq, Eq, Structural)]
pub struct Selector {
    pub pos: usize,
    pub max: usize,
}

impl Selector {
    /// The selector's invariant: its position never leaves `[0, max]`.
    pub open spec fn wf(self) -> bool {
        self.pos <= self.max
    }

    /// Creates a selector over the columns `0..=max`, starting at `pos`
    /// clamped into that range.
    pub fn new(pos: usize, max: usize) -> (r: Self)
        ensures
            r.max == max,
            r.pos == if pos <= max { pos as int } else { max as int },
            r.wf(),
    {
        Self { pos: if pos <= max { pos } else { max }, max }
    }

    /// Shifts the selector one column left, saturating at column 0.
    pub fn shl(&mut self)
        ensures
            final(self).max == old(self).max,
            final(self).pos == shl_step(old(self).pos as int),
    {
        if self.pos > 0 {
            self.pos = self.pos - 1;
        }
    }

    /// Shifts the selector one column right, saturating at column `max`.
    pub fn shr(&mut self)
        requires
            old(self).wf(),
        ensures
            final(self).max == old(self).max,
            final(self).pos == shr_step(old(self).pos as int, old(self).max as int),
    {
        if self.pos < self.max {
            self.pos = self.pos + 1;
        }
    }

    /// The selector row: the current player's glyph between styled markers on
    /// the selected column, blank padding over every other column.
    pub fn write(&self, player: Piece, def: PieceDef) -> (r: String)
        requires
            self.max < usize::MAX,
        ensures
            r@ == selector_line(self.pos as int, self.max as int, piece_glyph(player, def)),
    {
        let glyph = player.write(def);
        let mut s = String::new();
        let mut j: usize = 0;
        while j <= self.max
            invariant
                self.max < usize::MAX,
                j <= self.max + 1,
                glyph@ == piece_glyph(player, def),
                s@ == sel_cells(self.pos as int, glyph@, j as int),
            decreases self.max + 1 - j,
        {
            if j == self.pos {
                s.append("\u{1b}[38;2;65;72;104m\u{2039}\u{1b}[m(");
                s.append(glyph.as_str());
                s.append(")\u{1b}[38;2;65;72;104m\u{203a}\u{1b}[m");
                proof {
                    assert(s@ =~= sel_cells(self.pos as int, glyph@, j as int) + sel_cell(
                        self.pos as int,
                        glyph@,
                        j as int,
                    ));
                }
            } else {
                s.append("    ");
            }
            j += 1;
        }
        s
    }
}

/// The selector position after `n` left shifts from `pos`.
pub open spec fn shl_iter(pos: int, n: nat) -> int
    decreases n,
{
    if n == 0 {
        pos
    } else {
        shl_iter(shl_step(pos), (n - 1) as nat)
    }
}

/// The selector position after `n` right shifts from `pos` under the upper
/// bound `max`.
pub open spec fn shr_iter(pos: int, max: int, n: nat) -> int
    decreases n,
{
    if n == 0 {
        pos
    } else {
        shr_iter(shr_step(pos, max), max, (n - 1) as nat)
    }
}

/// Law: a single shift in either direction never moves the position out of
/// `[0, max]`; at a boundary the shift towards it is a no-op.
pub proof fn lemma_shift_stays_in_bounds(pos: int, max: int)
    requires
        0 <= pos <= max,
    ensures
        0 <= shl_step(pos) <= max,
        0 <= shr_step(pos, max) <= max,
        pos == 0 ==> shl_step(pos) == pos,
        pos == max ==> shr_step(pos, max) == pos,
{
}

/// Law: from any start, `n >= pos` left shifts converge to column 0 and any
/// further left shifts stay there.
pub proof fn lemma_shl_converges(pos: int, n: nat)
    requires
        0 <= pos,
        n >= pos,
    ensures
        shl_iter(pos, n) == 0,
    decreases n,
{
    if n > 0 {
        lemma_shl_converges(shl_step(pos), (n - 1) as nat);
    }
}

/// Law: from any start within bounds, `n >= max - pos` right shifts converge
/// to the last column `max` and any further right shifts stay there.
pub proof fn lemma_shr_converges(pos: int, max: int, n: nat)
    requires
        0 <= pos <= max,
        n >= max - pos,
    ensures
        shr_iter(pos, max, n) == max,
    decreases n,
{
    if n > 0 {
        lemma_shr_converges(shr_step(pos, max), max, (n - 1) as nat);
    }
}

/// The styled opening marker drawn left of the selected column's glyph.
pub open spec fn sel_open() -> Seq<char> {
    "\u{1b}[38;2;65;72;104m\u{2039}\u{1b}[m("@
}

/// The styled closing marker drawn right of the selected column's glyph.
pub open spec fn sel_close() -> Seq<char> {
    ")\u{1b}[38;2;65;72;104m\u{203a}\u{1b}[m"@
}

/// The blank padding drawn over an unselected column.
pub open spec fn sel_pad() -> Seq<char> {
    "    "@
}

/// What the selector row shows over column `j`: the marked glyph on the
/// selected column, blank padding elsewhere.
pub open spec fn sel_cell(pos: int, glyph: Seq<char>, j: int) -> Seq<char> {
    if j == pos {
        sel_open() + glyph + sel_close()
    } else {
        sel_pad()
    }
}

/// The selector row over the columns `0..j`.
pub open spec fn sel_cells(pos: int, glyph: Seq<char>, j: int) -> Seq<char>
    decreases j,
{
    if j <= 0 {
        Seq::empty()
    } else {
        sel_cells(pos, glyph, j - 1) + sel_cell(pos, glyph, j - 1)
    }
}

/// The selector row over the columns `0..=max`, with the current player's
/// glyph marked on column `pos`.
pub open spec fn selector_line(pos: int, max: int, glyph: Seq<char>) -> Seq<char> {
    sel_cells(pos, glyph, max + 1)
}

/// The cells of one bordered grid row over the columns `0..j`: each cell is
/// drawn as `"| "`, its glyph, `" "`.
pub open spec fn row_cells(row: Seq<Cell>, def: PieceDef, j: int) -> Seq<char>
    decreases j,
{
    if j <= 0 {
        Seq::empty()
    } else {
        row_cells(row, def, j - 1) + "| "@ + cell_glyph(row[j - 1], def) + " "@
    }
}

/// One bordered grid row: every cell drawn as `"| "` glyph `" "`, closed by
/// `"|"`.
pub open spec fn row_line(row: Seq<Cell>, def: PieceDef) -> Seq<char> {
    row_cells(row, def, row.len() as int) + "|"@
}

/// The bottom border over the columns `0..j`.
pub open spec fn bottom_cells(j: int) -> Seq<char>
    decreases j,
{
    if j <= 0 {
        Seq::empty()
    } else {
        bottom_cells(j - 1) + "+---"@
    }
}

/// The bottom border: one horizontal rule segment per column and a closing
/// corner.
pub open spec fn bottom_line(width: int) -> Seq<char> {
    bottom_cells(width) + "+"@
}

/// The character for the decimal digit `d`.
pub open spec fn digit_char(d: int) -> char {
    ((d + 48) as u8) as char
}

/// The decimal digits of `n`, for `n` of at most two digits.
pub open spec fn dec_rep(n: int) -> Seq<char> {
    if n < 10 {
        seq![digit_char(n)]
    } else {
        seq![digit_char(n / 10), digit_char(n % 10)]
    }
}

/// The one-character string for the decimal digit `d`.
fn digit_str(d: usize) -> (r: &'static str)
    requires
        d < 10,
    ensures
        r@ == seq![digit_char(d as int)],
{
    let r: &'static str = match d {
        0 => "0",
        1 => "1",
        2 => "2",
        3 => "3",
        4 => "4",
        5 => "5",
        6 => "6",
        7 => "7",
        8 => "8",
        _ => "9",
    };
    proof {
        reveal_strlit("0");
        reveal_strlit("1");
        reveal_strlit("2");
        reveal_strlit("3");
        reveal_strlit("4");
        reveal_strlit("5");
        reveal_strlit("6");
        reveal_strlit("7");
        reveal_strlit("8");
        reveal_strlit("9");
        assert(r@ =~= seq![digit_char(d as int)]);
    }
    r
}

/// `v` clamped into `[lo, hi]`.
pub open spec fn clamped(v: int, lo: int, hi: int) -> int {
    if v < lo {
        lo
    } else if v > hi {
        hi
    } else {
        v
    }
}

/// Whether the cell at row `i`, column `col` holds a piece.
pub open spec fn occ(cs: Seq<Vec<Cell>>, i: int, col: int) -> bool {
    !(cs[i]@[col] is Empty)
}

/// The number of pieces in column `col`.
pub open spec fn col_count(cs: Seq<Vec<Cell>>, col: int) -> nat
    decreases cs.len(),
{
    if cs.len() == 0 {
        0
    } else {
        col_count(cs.drop_last(), col) + if occ(cs, cs.len() - 1, col) {
            1nat
        } else {
            0nat
        }
    }
}

/// A settled column: its pieces form a contiguous block at the bottom, so a
/// cell holds a piece exactly when it lies in the bottom `col_count` rows.
pub open spec fn col_ok(cs: Seq<Vec<Cell>>, col: int) -> bool {
    forall|i: int|
        0 <= i < cs.len() ==> (#[trigger] occ(cs, i, col) <==> cs.len() - col_count(cs, col) <= i)
}

/// A column whose pieces fill exactly the bottom `m` rows holds `m` pieces.
proof fn lemma_col_count_of_block(cs: Seq<Vec<Cell>>, col: int, m: int)
    requires
        0 <= m <= cs.len(),
        forall|i: int| 0 <= i < cs.len() ==> (#[trigger] occ(cs, i, col) <==> cs.len() - m <= i),
    ensures
        col_count(cs, col) == m,
    decreases cs.len(),
{
    if cs.len() > 0 {
        let cs2 = cs.drop_last();
        assert(forall|i: int| 0 <= i < cs2.len() ==> occ(cs2, i, col) == occ(cs, i, col));
        if m == 0 {
            lemma_col_count_of_block(cs2, col, 0);
        } else {
            assert(forall|i: int|
                0 <= i < cs2.len() ==> (occ(cs2, i, col) <==> cs2.len() - (m - 1) <= i));
            lemma_col_count_of_block(cs2, col, m - 1);
            assert(occ(cs, cs.len() - 1, col));
        }
    }
}

/// Two grids whose column `col` agrees cell for cell hold the same number of
/// pieces there.
proof fn lemma_col_count_congruence(cs1: Seq<Vec<Cell>>, cs2: Seq<Vec<Cell>>, col: int)
    requires
        cs1.len() == cs2.len(),
        forall|i: int| 0 <= i < cs1.len() ==> (#[trigger] occ(cs1, i, col) <==> occ(cs2, i, col)),
    ensures
        col_count(cs1, col) == col_count(cs2, col),
    decreases cs1.len(),
{
    if cs1.len() > 0 {
        assert forall|i: int|
            0 <= i < cs1.len() - 1 implies (occ(cs1.drop_last(), i, col) <==> occ(
            cs2.drop_last(),
            i,
            col,
        )) by {
            assert(cs1.drop_last()[i] == cs1[i]);
            assert(cs2.drop_last()[i] == cs2[i]);
            assert(occ(cs1, i, col) <==> occ(cs2, i, col));
        }
        lemma_col_count_congruence(cs1.drop_last(), cs2.drop_last(), col);
    }
}

/// The error a gravity drop reports.
#[derive(Debug, Clone, Copy, PartialEq, Eq, Structural)]
pub enum DropError {
    /// The targeted column has no empty cell left.
    FullColumn,
}

/// The playing field: a fixed-size grid of cells together with the column
/// selector that a drop targets.
#[derive(Debug, Clone)]
pub struct Board {
    pub width: usize,
    pub height: usize,
    pub cells: Vec<Vec<Cell>>,
    pub selector: Selector,
}

impl Board {
    /// The cell at row `i` (0 at the top), column `j`.
    pub open spec fn cell_at(self, i: int, j: int) -> Cell {
        self.cells@[i]@[j]
    }

    /// The board's invariant: dimensions within `[1, 20]`, a rectangular
    /// `height` by `width` grid, the selector confined to the columns, and
    /// every column settled by gravity.
    pub open spec fn wf(self) -> bool {
        &&& 1 <= self.width <= 20
        &&& 1 <= self.height <= 20
        &&& self.cells@.len() == self.height
        &&& forall|i: int| 0 <= i < self.height ==> (#[trigger] self.cells@[i])@.len() == self.width
        &&& self.selector.max + 1 == self.width
        &&& self.selector.wf()
        &&& forall|col: int| 0 <= col < self.width ==> #[trigger] col_ok(self.cells@, col)
    }

    /// Creates a board of `height` rows by `width` columns, both clamped into
    /// `[1, 20]`, with every cell empty and the selector over the full width.
    pub fn new(width: usize, height: usize) -> (r: Self)
        ensures
            r.width == clamped(width as int, 1, 20),
            r.height == clamped(height as int, 1, 20),
            forall|i: int, j: int|
                0 <= i < r.height && 0 <= j < r.width ==> (#[trigger] r.cell_at(i, j)) is Empty,
            r.selector.max == r.width - 1,
            r.selector.pos == if r.width == 1 { 0int } else { 1int },
            r.wf(),
    {
        let w: usize = if width < 1 {
            1
        } else if width > 20 {
            20
        } else {
            width
        };
        let h: usize = if height < 1 {
            1
        } else if height > 20 {
            20
        } else {
            height
        };
        let mut cells: Vec<Vec<Cell>> = Vec::new();
        let mut i: usize = 0;
        while i < h
            invariant
                i <= h,
                cells@.len() == i,
                forall|a: int| 0 <= a < i ==> (#[trigger] cells@[a])@.len() == w,
                forall|a: int, b: int|
                    0 <= a < i && 0 <= b < w ==> (#[trigger] cells@[a]@[b]) is Empty,
            decreases h - i,
        {
            let mut row: Vec<Cell> = Vec::new();
            let mut j: usize = 0;
            while j < w
                invariant
                    j <= w,
                    row@.len() == j,
                    forall|b: int| 0 <= b < j ==> (#[trigger] row@[b]) is Empty,
                decreases w - j,
            {
                row.push(Cell::Empty);
                j += 1;
            }
            cells.push(row);
            i += 1;
        }
        let r = Self { width: w, height: h, cells, selector: Selector::new(1, w - 1) };
        proof {
            assert forall|col: int| 0 <= col < r.width implies #[trigger] col_ok(r.cells@, col) by {
                assert(forall|i2: int|
                    0 <= i2 < r.cells@.len() ==> (#[trigger] occ(r.cells@, i2, col) <==> r.cells@.len()
                        - 0 <= i2));
                lemma_col_count_of_block(r.cells@, col, 0);
            }
        }
        r
    }

    /// The number of columns.
    pub fn width(&self) -> (r: usize)
        ensures
            r == self.width,
    {
        self.width
    }

    /// The number of rows.
    pub fn height(&self) -> (r: usize)
        ensures
            r == self.height,
    {
        self.height
    }

    /// The number of display lines a full frame occupies: the selector row,
    /// the grid rows, the bottom border, and the blank spacing line.
    pub fn get_entire_height(&self) -> (r: usize)
        requires
            self.wf(),
        ensures
            r == self.height + 3,
    {
        self.height + 3
    }

    /// Shifts the selector one column left, saturating at column 0.
    pub fn selector_shl(&mut self)
        ensures
            final(self).selector.max == old(self).selector.max,
            final(self).selector.pos == shl_step(old(self).selector.pos as int),
            final(self).width == old(self).width,
            final(self).height == old(self).height,
            final(self).cells@ == old(self).cells@,
            old(self).wf() ==> final(self).wf(),
    {
        self.selector.shl();
    }

    /// Shifts the selector one column right, saturating at the last column.
    pub fn selector_shr(&mut self)
        requires
            old(self).wf(),
        ensures
            final(self).selector.max == old(self).selector.max,
            final(self).selector.pos == shr_step(
                old(self).selector.pos as int,
                old(self).selector.max as int,
            ),
            final(self).width == old(self).width,
            final(self).height == old(self).height,
            final(self).cells@ == old(self).cells@,
            final(self).wf(),
    {
        self.selector.shr();
    }

    /// The full frame, top to bottom: the selector row, one bordered row per
    /// grid row, the bottom border, and one blank spacing line.
    pub fn write(&self, player: Piece, def: PieceDef) -> (lines: Vec<String>)
        requires
            self.wf(),
        ensures
            lines@.len() == self.height + 3,
            lines@[0]@ == selector_line(
                self.selector.pos as int,
                self.selector.max as int,
                piece_glyph(player, def),
            ),
            forall|i: int|
                1 <= i <= self.height ==> (#[trigger] lines@[i])@ == row_line(
                    self.cells@[i - 1]@,
                    def,
                ),
            lines@[self.height + 1]@ == bottom_line(self.width as int),
            lines@[self.height + 2]@ == Seq::<char>::empty(),
    {
        let mut lines: Vec<String> = Vec::new();
        lines.push(self.selector.write(player, def));
        let mut i: usize = 0;
        while i < self.height
            invariant
                self.wf(),
                i <= self.height,
                lines@.len() == 1 + i,
                lines@[0]@ == selector_line(
                    self.selector.pos as int,
                    self.selector.max as int,
                    piece_glyph(player, def),
                ),
                forall|a: int|
                    1 <= a <= i ==> (#[trigger] lines@[a])@ == row_line(self.cells@[a - 1]@, def),
            decreases self.height - i,
        {
            let mut s = String::new();
            let mut j: usize = 0;
            while j < self.width
                invariant
                    self.wf(),
                    i < self.height,
                    j <= self.width,
                    s@ == row_cells(self.cells@[i as int]@, def, j as int),
                decreases self.width - j,
            {
                s.append("| ");
                let c: Cell = self.cells[i][j];
                let g = c.write(def);
                s.append(g.as_str());
                s.append(" ");
                proof {
                    assert(s@ =~= row_cells(self.cells@[i as int]@, def, j as int + 1));
                }
                j += 1;
            }
            s.append("|");
            proof {
                assert(self.cells@[i as int]@.len() == self.width);
                assert(s@ =~= row_line(self.cells@[i as int]@, def));
            }
            lines.push(s);
            i += 1;
        }
        let mut s = String::new();
        let mut j: usize = 0;
        while j < self.width
            invariant
                j <= self.width,
                s@ == bottom_cells(j as int),
            decreases self.width - j,
        {
            s.append("+---");
            j += 1;
        }
        s.append("+");
        lines.push(s);
        lines.push(String::new());
        lines
    }

    /// The escape sequence that moves the cursor up over one whole frame,
    /// letting the caller overwrite the previous frame in place.
    pub fn reset_board(&self) -> (r: String)
        requires
            self.wf(),
        ensures
            r@ == "\u{1b}["@ + dec_rep(self.height + 3) + "A"@,
    {
        let n: usize = self.height + 3;
        let mut s = String::new();
        s.append("\u{1b}[");
        if n < 10 {
            s.append(digit_str(n));
        } else {
            s.append(digit_str(n / 10));
            s.append(digit_str(n % 10));
        }
        s.append("A");
        proof {
            assert(s@ =~= "\u{1b}["@ + dec_rep(self.height as int + 3) + "A"@);
        }
        s
    }

    /// Gravity drop into the selected column: the piece settles in the lowest
    /// empty cell. With `k` pieces already in the column that is row
    /// `height - 1 - k`, and no other cell changes; a full column is rejected
    /// as `FullColumn` and mutates no cell.
    pub fn drop_piece(&mut self, piece: Piece) -> (r: Result<(), DropError>)
        requires
            old(self).wf(),
        ensures
            final(self).wf(),
            final(self).width == old(self).width,
            final(self).height == old(self).height,
            final(self).selector == old(self).selector,
            col_count(old(self).cells@, old(self).selector.pos as int) == old(self).height ==> {
                &&& r == Err::<(), DropError>(DropError::FullColumn)
                &&& final(self).cells@ == old(self).cells@
            },
            col_count(old(self).cells@, old(self).selector.pos as int) < old(self).height ==> {
                let col = old(self).selector.pos as int;
                let k = col_count(old(self).cells@, col) as int;
                let target = old(self).height - 1 - k;
                &&& r == Ok::<(), DropError>(())
                &&& final(self).cell_at(target, col) == cell_of(piece)
                &&& forall|i: int, j: int|
                    0 <= i < old(self).height && 0 <= j < old(self).width && !(i == target && j
                        == col) ==> #[trigger] final(self).cell_at(i, j) == old(self).cell_at(i, j)
                &&& col_count(final(self).cells@, col) == k + 1
            },
    {
        let col: usize = self.selector.pos;
        let mut r: usize = self.height;
        while r > 0
            invariant
                *self == *old(self),
                old(self).wf(),
                col == old(self).selector.pos,
                r <= old(self).height,
                forall|i: int|
                    r <= i < old(self).height ==> #[trigger] occ(self.cells@, i, col as int),
            decreases r,
        {
            r = r - 1;
            if self.cells[r][col].is_empty() {
                let p = match piece {
                    Piece::Reg(pl) => pl,
                };
                let ghost g0 = self.cells@;
                let ghost coli: int = col as int;
                let ghost k: int = col_count(g0, coli) as int;
                let ghost h: int = old(self).height as int;
                proof {
                    // row `r` is empty and every row below it is occupied, so
                    // the column's settled block puts `r` at `height - 1 - k`
                    assert(!occ(g0, r as int, coli));
                    if r as int + 1 < h {
                        assert(occ(g0, r as int + 1, coli));
                    }
                    assert(col_ok(g0, coli));
                    assert(k < h);
                    assert(r == h - 1 - k);
                }
                self.cells[r][col] = Cell::Occupied(p);
                proof {
                    let gn = self.cells@;
                    assert(gn[r as int]@ == g0[r as int]@.update(coli, Cell::Occupied(p)));
                    assert(forall|i: int| 0 <= i < h && i != r ==> gn[i] == g0[i]);
                    assert forall|i: int| 0 <= i < h implies (#[trigger] occ(gn, i, coli) <==> h
                        - (k + 1) <= i) by {
                        assert(occ(g0, i, coli) <==> h - k <= i);
                        if i != r {
                            assert(occ(gn, i, coli) == occ(g0, i, coli));
                        }
                    }
                    lemma_col_count_of_block(gn, coli, k + 1);
                    assert forall|j: int| 0 <= j < old(self).width implies #[trigger] col_ok(
                        gn,
                        j,
                    ) by {
                        if j == coli {
                            assert(col_count(gn, coli) == k + 1);
                        } else {
                            assert(col_ok(g0, j));
                            assert forall|i: int| 0 <= i < h implies (#[trigger] occ(gn, i, j)
                                <==> occ(g0, i, j)) by {
                                if i == r {
                                    assert(gn[i]@[j] == g0[i]@[j]);
                                }
                            }
                            lemma_col_count_congruence(gn, g0, j);
                        }
                    }
                }
                return Ok(());
            }
        }
        proof {
            // every row of the column is occupied
            assert forall|i: int| 0 <= i < self.cells@.len() implies (#[trigger] occ(
                self.cells@,
                i,
                col as int,
            ) <==> self.cells@.len() - old(self).height <= i) by {
                assert(occ(self.cells@, i, col as int));
            }
            lemma_col_count_of_block(self.cells@, col as int, old(self).height as int);
        }
        Err(DropError::FullColumn)
    }

    /// Moves the selector back to column 0, whatever its prior position.
    pub fn selector_reset(&mut self)
        ensures
            final(self).selector.max == old(self).selector.max,
            final(self).selector.pos == 0,
            final(self).width == old(self).width,
            final(self).height == old(self).height,
            final(self).cells@ == old(self).cells@,
            old(self).wf() ==> final(self).wf(),
    {
        self.selector.pos = 0;
    }
}

} // verus!
