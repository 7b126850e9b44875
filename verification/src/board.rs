//! The board: sides, cells, the 7-by-6 grid of columns, move generation,
//! and the mathematical model (`BoardModel`) that the contracts speak of.

use vstd::prelude::*;

verus! {

/// One of the two players. `Side1` moves first.
#[derive(Debug, Copy, Clone, Eq, PartialEq, Hash, Structural)]
pub enum Side {
    Side1,
    Side2,
}

/// One grid cell: empty, or holding a piece of the given side.
#[derive(Debug, Copy, Clone, Eq, PartialEq, Hash, Structural)]
pub enum Cell {
    Empty,
    Put(Side),
}

/// The classification of a position: still in play, won by a side, or drawn.
#[derive(Debug, Copy, Clone, Eq, PartialEq, Hash, Structural)]
pub enum BattleState {
    Doing,
    Winner(Side),
    Draw,
}

/// A position: the side to move next and the grid contents, stored as
/// 7 columns of 6 cells each. Row 0 is the bottom of a column; a dropped
/// piece lands in the lowest empty row. A `Board` is a plain value:
/// every move produces a new `Board` and leaves the original unchanged.
#[derive(Debug, Copy, Clone, Eq, PartialEq, Hash)]
pub struct Board {
    pub side: Side,
    pub columns: [[Cell; 6]; 7],
}

/// The mathematical model of a position, used in specifications:
/// the side to move and the grid as a sequence of 7 column sequences
/// of 6 cells each.
pub struct BoardModel {
    pub side: Side,
    pub grid: Seq<Seq<Cell>>,
}

impl View for Board {
    type V = BoardModel;

    open spec fn view(&self) -> BoardModel {
        BoardModel { side: self.side, grid: Seq::new(7, |c: int| self.columns@[c]@) }
    }
}

/// A model has 7 columns of 6 cells. The view of any `Board` is of this shape.
pub open spec fn wf(m: BoardModel) -> bool {
    &&& m.grid.len() == 7
    &&& forall|c: int| 0 <= c < 7 ==> (#[trigger] m.grid[c]).len() == 6
}

pub broadcast proof fn lemma_view_wf(b: Board)
    ensures
        #![trigger b.view()]
        wf(b.view()),
{
}

/// The cell of `m` at column `c`, row `r`.
pub open spec fn cell_at(m: BoardModel, c: int, r: int) -> Cell {
    m.grid[c][r]
}

/// The other side.
pub open spec fn spec_flip(s: Side) -> Side {
    match s {
        Side::Side1 => Side::Side2,
        Side::Side2 => Side::Side1,
    }
}

impl Side {
    /// The other side.
    pub fn flip(self) -> (r: Side)
        ensures
            r == spec_flip(self),
    {
        match self {
            Side::Side1 => Side::Side2,
            Side::Side2 => Side::Side1,
        }
    }
}

/// Flipping is an involution without a fixed point: flipping twice returns
/// the original side, and no side is its own flip.
pub proof fn lemma_flip_involutive(s: Side)
    ensures
        spec_flip(spec_flip(s)) == s,
        spec_flip(s) != s,
{
}

/// The model of the initial position: `Side1` to move, all cells empty.
pub open spec fn init_model() -> BoardModel {
    BoardModel { side: Side::Side1, grid: Seq::new(7, |c: int| Seq::new(6, |r: int| Cell::Empty)) }
}

impl Board {
    /// The initial empty board with `Side1` to move.
    pub fn new() -> (b: Board)
        ensures
            b@ == init_model(),
    {
        let b = Board { side: Side::Side1, columns: [[Cell::Empty; 6]; 7] };
        proof {
            assert forall|c: int, r: int| 0 <= c < 7 && 0 <= r < 6 implies b@.grid[c][r]
                == Cell::Empty by {}
            assert(b@.grid =~~= init_model().grid);
        }
        b
    }
}

/// The lowest row index at or above `r` whose cell in column `c` is empty,
/// or 6 when there is none.
pub open spec fn first_empty_from(m: BoardModel, c: int, r: int) -> int
    decreases 6 - r,
{
    if r < 0 || r >= 6 {
        6
    } else if cell_at(m, c, r) == Cell::Empty {
        r
    } else {
        first_empty_from(m, c, r + 1)
    }
}

/// Column `c` has no empty cell.
pub open spec fn col_full(m: BoardModel, c: int) -> bool {
    first_empty_from(m, c, 0) == 6
}

/// The position after the side to move drops a piece into column `c`:
/// the piece lands in the lowest empty row of `c` and the turn passes.
pub open spec fn spec_drop(m: BoardModel, c: int) -> BoardModel {
    let r = first_empty_from(m, c, 0);
    BoardModel {
        side: spec_flip(m.side),
        grid: m.grid.update(c, m.grid[c].update(r, Cell::Put(m.side))),
    }
}

/// The successors obtained by dropping into each non-full column at or
/// after `c`, in increasing column order.
pub open spec fn succ_from(m: BoardModel, c: int) -> Seq<BoardModel>
    decreases 7 - c,
{
    if c < 0 || c >= 7 {
        Seq::empty()
    } else if col_full(m, c) {
        succ_from(m, c + 1)
    } else {
        seq![spec_drop(m, c)] + succ_from(m, c + 1)
    }
}

/// The ordered sequence of all positions reachable by one legal move:
/// one successor per non-full column, in increasing column order.
pub open spec fn spec_list_next(m: BoardModel) -> Seq<BoardModel> {
    succ_from(m, 0)
}

/// Properties of the lowest empty row: it lies in `[r, 6]`, its cell (when
/// it exists) is empty, and every cell of the column below it is occupied.
pub proof fn lemma_first_empty_from(m: BoardModel, c: int, r: int)
    requires
        0 <= r <= 6,
    ensures
        r <= first_empty_from(m, c, r) <= 6,
        first_empty_from(m, c, r) < 6 ==> cell_at(m, c, first_empty_from(m, c, r)) == Cell::Empty,
        forall|r2: int|
            r <= r2 < first_empty_from(m, c, r) ==> cell_at(m, c, r2) != Cell::Empty,
    decreases 6 - r,
{
    if r < 6 && cell_at(m, c, r) != Cell::Empty {
        lemma_first_empty_from(m, c, r + 1);
    }
}

impl Board {
    /// All positions reachable from `self` by one legal move: for every
    /// column that is not full, in increasing column order, the board with
    /// the mover's piece in that column's lowest empty row and the turn
    /// passed to the other side. Empty exactly when the board is full.
    pub fn list_next(&self) -> (r: Vec<Board>)
        ensures
            r@.len() == spec_list_next(self@).len(),
            forall|i: int| 0 <= i < r@.len() ==> (#[trigger] r@[i])@ == spec_list_next(self@)[i],
    {
        let ghost m = self@;
        let mut ret: Vec<Board> = Vec::with_capacity(8);
        let mut c: usize = 0;
        proof {
            assert(spec_list_next(m) =~= ret@.map_values(|b: Board| b@) + succ_from(m, 0));
        }
        while c < 7
            invariant
                c <= 7,
                m == self@,
                spec_list_next(m) == ret@.map_values(|b: Board| b@) + succ_from(m, c as int),
            decreases 7 - c,
        {
            let mut r: usize = 0;
            while r < 6 && !matches!(self.columns[c][r], Cell::Empty)
                invariant
                    c < 7,
                    r <= 6,
                    m == self@,
                    first_empty_from(m, c as int, 0) == first_empty_from(m, c as int, r as int),
                decreases 6 - r,
            {
                r += 1;
            }
            if r < 6 {
                let mut board = *self;
                let mut col = board.columns[c];
                col[r] = Cell::Put(self.side);
                board.columns[c] = col;
                board.side = board.side.flip();
                proof {
                    assert(first_empty_from(m, c as int, 0) == r as int);
                    assert(!col_full(m, c as int));
                    assert(board@.grid =~~= spec_drop(m, c as int).grid);
                    assert(board@ == spec_drop(m, c as int));
                    assert(ret@.push(board).map_values(|b: Board| b@) =~= ret@.map_values(
                        |b: Board| b@,
                    ) + seq![board@]);
                    assert(ret@.map_values(|b: Board| b@) + succ_from(m, c as int) =~= (ret@.map_values(
                        |b: Board| b@,
                    ) + seq![spec_drop(m, c as int)]) + succ_from(m, c as int + 1));
                }
                ret.push(board);
            } else {
                proof {
                    assert(col_full(m, c as int));
                }
            }
            c += 1;
        }
        proof {
            assert(spec_list_next(m) =~= ret@.map_values(|b: Board| b@));
            assert forall|i: int| 0 <= i < ret@.len() implies (#[trigger] ret@[i])@
                == spec_list_next(m)[i] by {
                assert(ret@.map_values(|b: Board| b@)[i] == ret@[i]@);
            }
        }
        ret
    }
}

/// How many cells of `col` at rows `r` and above are empty.
pub open spec fn count_empty_col(col: Seq<Cell>, r: int) -> nat
    decreases 6 - r,
{
    if r < 0 || r >= 6 {
        0
    } else {
        (if col[r] == Cell::Empty {
            1nat
        } else {
            0nat
        }) + count_empty_col(col, r + 1)
    }
}

/// How many cells of columns `c` and beyond are empty.
pub open spec fn count_empty_cols(grid: Seq<Seq<Cell>>, c: int) -> nat
    decreases 7 - c,
{
    if c < 0 || c >= 7 {
        0
    } else {
        count_empty_col(grid[c], 0) + count_empty_cols(grid, c + 1)
    }
}

/// How many cells of `m` are empty. A move always decreases this by one,
/// so it bounds the number of moves left in a game.
pub open spec fn empties(m: BoardModel) -> nat {
    count_empty_cols(m.grid, 0)
}

proof fn lemma_count_empty_col_le(col: Seq<Cell>, r: int)
    requires
        0 <= r <= 6,
    ensures
        count_empty_col(col, r) <= 6 - r,
    decreases 6 - r,
{
    if r < 6 {
        lemma_count_empty_col_le(col, r + 1);
    }
}

proof fn lemma_count_empty_cols_le(grid: Seq<Seq<Cell>>, c: int)
    requires
        0 <= c <= 7,
    ensures
        count_empty_cols(grid, c) <= (7 - c) * 6,
    decreases 7 - c,
{
    if c < 7 {
        lemma_count_empty_cols_le(grid, c + 1);
        lemma_count_empty_col_le(grid[c], 0);
    }
}

/// No position has more than 42 empty cells.
pub proof fn lemma_empties_le(m: BoardModel)
    ensures
        empties(m) <= 42,
{
    lemma_count_empty_cols_le(m.grid, 0);
}

proof fn lemma_count_empty_col_update(col: Seq<Cell>, rr: int, s: Side, r: int)
    requires
        0 <= r <= 6,
        0 <= rr < 6,
        col.len() == 6,
        col[rr] == Cell::Empty,
    ensures
        count_empty_col(col.update(rr, Cell::Put(s)), r) + (if r <= rr {
            1nat
        } else {
            0nat
        }) == count_empty_col(col, r),
    decreases 6 - r,
{
    if r < 6 {
        lemma_count_empty_col_update(col, rr, s, r + 1);
    }
}

proof fn lemma_count_empty_cols_update(grid: Seq<Seq<Cell>>, cc: int, newcol: Seq<Cell>, c: int)
    requires
        0 <= c <= 7,
        0 <= cc < 7,
        grid.len() == 7,
        count_empty_col(newcol, 0) + 1 == count_empty_col(grid[cc], 0),
    ensures
        count_empty_cols(grid.update(cc, newcol), c) + (if c <= cc {
            1nat
        } else {
            0nat
        }) == count_empty_cols(grid, c),
    decreases 7 - c,
{
    if c < 7 {
        lemma_count_empty_cols_update(grid, cc, newcol, c + 1);
    }
}

/// Dropping into a non-full column keeps the board well-formed, fills
/// exactly one empty cell, and passes the turn.
pub proof fn lemma_drop_props(m: BoardModel, c: int)
    requires
        wf(m),
        0 <= c < 7,
        !col_full(m, c),
    ensures
        wf(spec_drop(m, c)),
        empties(spec_drop(m, c)) + 1 == empties(m),
        spec_drop(m, c).side == spec_flip(m.side),
{
    let r = first_empty_from(m, c, 0);
    lemma_first_empty_from(m, c, 0);
    let newcol = m.grid[c].update(r, Cell::Put(m.side));
    lemma_count_empty_col_update(m.grid[c], r, m.side, 0);
    lemma_count_empty_cols_update(m.grid, c, newcol, 0);
}

/// Every successor is well-formed and has exactly one empty cell fewer.
pub proof fn lemma_succ_from_props(m: BoardModel, c: int)
    requires
        wf(m),
        0 <= c <= 7,
    ensures
        forall|i: int|
            0 <= i < succ_from(m, c).len() ==> {
                &&& wf(#[trigger] succ_from(m, c)[i])
                &&& empties(succ_from(m, c)[i]) + 1 == empties(m)
                &&& succ_from(m, c)[i].side == spec_flip(m.side)
            },
    decreases 7 - c,
{
    if c < 7 {
        lemma_succ_from_props(m, c + 1);
        if !col_full(m, c) {
            lemma_drop_props(m, c);
        }
    }
}

/// How many columns at or after `c` still have room for a piece.
pub open spec fn open_cols_from(m: BoardModel, c: int) -> nat
    decreases 7 - c,
{
    if c < 0 || c >= 7 {
        0
    } else {
        (if col_full(m, c) {
            0nat
        } else {
            1nat
        }) + open_cols_from(m, c + 1)
    }
}

/// There is exactly one successor per non-full column.
pub proof fn lemma_succ_from_count(m: BoardModel, c: int)
    requires
        0 <= c <= 7,
    ensures
        succ_from(m, c).len() == open_cols_from(m, c),
    decreases 7 - c,
{
    if c < 7 {
        lemma_succ_from_count(m, c + 1);
    }
}

/// At most one successor arises per column.
pub proof fn lemma_succ_from_len(m: BoardModel, c: int)
    requires
        0 <= c <= 7,
    ensures
        succ_from(m, c).len() <= 7 - c,
    decreases 7 - c,
{
    if c < 7 {
        lemma_succ_from_len(m, c + 1);
    }
}

/// A column whose cell at row 5 is empty is not full, and contributes a
/// successor: the successor list of a board that is not full is non-empty.
pub proof fn lemma_succ_from_nonempty(m: BoardModel, c0: int, c: int)
    requires
        0 <= c0 <= c < 7,
        !col_full(m, c),
    ensures
        succ_from(m, c0).len() >= 1,
    decreases c - c0,
{
    if c0 < c && col_full(m, c0) {
        lemma_succ_from_nonempty(m, c0 + 1, c);
    }
}

} // verus!
