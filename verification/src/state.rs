//! Terminal-state classification: four-in-a-row detection and the
//! draw / still-playing decision.
//!
//! The detection scans, in order: vertical runs, then for each 4-column
//! window, horizontal runs, rising diagonals, and falling diagonals; the
//! first run found decides the winner, `Side1` being checked before
//! `Side2` at each window. The scan ranges are deliberately those of the
//! loops below: vertical windows start only at rows 0 and 1 (a run at
//! rows 2..=5 goes undetected) and column windows start only at columns
//! 0, 1 and 2 (a run touching column 6 goes undetected except the
//! vertical one). The specifications state these ranges exactly.

use crate::board::BattleState;
use crate::board::Board;
use crate::board::BoardModel;
use crate::board::Cell;
use crate::board::Side;
use crate::board::cell_at;
use vstd::prelude::*;

verus! {

/// Four pieces of side `s` stacked in column `c` at rows `r..=r+3`.
pub open spec fn vert_run_at(m: BoardModel, s: Side, c: int, r: int) -> bool {
    &&& cell_at(m, c, r) == Cell::Put(s)
    &&& cell_at(m, c, r + 1) == Cell::Put(s)
    &&& cell_at(m, c, r + 2) == Cell::Put(s)
    &&& cell_at(m, c, r + 3) == Cell::Put(s)
}

/// Four pieces of side `s` in row `r` at columns `c..=c+3`.
pub open spec fn horiz_run_at(m: BoardModel, s: Side, c: int, r: int) -> bool {
    &&& cell_at(m, c, r) == Cell::Put(s)
    &&& cell_at(m, c + 1, r) == Cell::Put(s)
    &&& cell_at(m, c + 2, r) == Cell::Put(s)
    &&& cell_at(m, c + 3, r) == Cell::Put(s)
}

/// Four pieces of side `s` on the rising diagonal from `(c, r)`.
pub open spec fn rise_run_at(m: BoardModel, s: Side, c: int, r: int) -> bool {
    &&& cell_at(m, c, r) == Cell::Put(s)
    &&& cell_at(m, c + 1, r + 1) == Cell::Put(s)
    &&& cell_at(m, c + 2, r + 2) == Cell::Put(s)
    &&& cell_at(m, c + 3, r + 3) == Cell::Put(s)
}

/// Four pieces of side `s` on the falling diagonal from `(c, r + 3)`.
pub open spec fn fall_run_at(m: BoardModel, s: Side, c: int, r: int) -> bool {
    &&& cell_at(m, c, r + 3) == Cell::Put(s)
    &&& cell_at(m, c + 1, r + 2) == Cell::Put(s)
    &&& cell_at(m, c + 2, r + 1) == Cell::Put(s)
    &&& cell_at(m, c + 3, r) == Cell::Put(s)
}

/// Side `s` has a four-in-a-row that the scan ranges cover: a vertical run
/// starting at row 0 or 1, or a horizontal, rising or falling run in a
/// column window starting at column 0, 1 or 2.
pub open spec fn has_win(m: BoardModel, s: Side) -> bool {
    ||| exists|c: int, r: int| 0 <= c < 7 && 0 <= r < 2 && #[trigger] vert_run_at(m, s, c, r)
    ||| exists|c: int, r: int| 0 <= c < 3 && 0 <= r < 6 && #[trigger] horiz_run_at(m, s, c, r)
    ||| exists|c: int, r: int| 0 <= c < 3 && 0 <= r < 2 && #[trigger] rise_run_at(m, s, c, r)
    ||| exists|c: int, r: int| 0 <= c < 3 && 0 <= r < 2 && #[trigger] fall_run_at(m, s, c, r)
}

/// The first vertical run found at or after window `(c, r)`, scanning rows
/// 0 and 1 of each column in increasing column order, `Side1` before
/// `Side2` at each window.
pub open spec fn scan_vert(m: BoardModel, c: int, r: int) -> Option<Side>
    decreases 7 - c, 2 - r,
{
    if c < 0 || c >= 7 {
        Option::None
    } else if r < 0 || r >= 2 {
        scan_vert(m, c + 1, 0)
    } else if vert_run_at(m, Side::Side1, c, r) {
        Option::Some(Side::Side1)
    } else if vert_run_at(m, Side::Side2, c, r) {
        Option::Some(Side::Side2)
    } else {
        scan_vert(m, c, r + 1)
    }
}

/// The first horizontal run of column window `c` at or after row `r`.
pub open spec fn scan_horiz(m: BoardModel, c: int, r: int) -> Option<Side>
    decreases 6 - r,
{
    if r < 0 || r >= 6 {
        Option::None
    } else if horiz_run_at(m, Side::Side1, c, r) {
        Option::Some(Side::Side1)
    } else if horiz_run_at(m, Side::Side2, c, r) {
        Option::Some(Side::Side2)
    } else {
        scan_horiz(m, c, r + 1)
    }
}

/// The first rising-diagonal run of column window `c` at or after row `r`.
pub open spec fn scan_rise(m: BoardModel, c: int, r: int) -> Option<Side>
    decreases 2 - r,
{
    if r < 0 || r >= 2 {
        Option::None
    } else if rise_run_at(m, Side::Side1, c, r) {
        Option::Some(Side::Side1)
    } else if rise_run_at(m, Side::Side2, c, r) {
        Option::Some(Side::Side2)
    } else {
        scan_rise(m, c, r + 1)
    }
}

/// The first falling-diagonal run of column window `c` at or after row `r`.
pub open spec fn scan_fall(m: BoardModel, c: int, r: int) -> Option<Side>
    decreases 2 - r,
{
    if r < 0 || r >= 2 {
        Option::None
    } else if fall_run_at(m, Side::Side1, c, r) {
        Option::Some(Side::Side1)
    } else if fall_run_at(m, Side::Side2, c, r) {
        Option::Some(Side::Side2)
    } else {
        scan_fall(m, c, r + 1)
    }
}

/// The first horizontal, rising or falling run in the column windows at or
/// after `c`, each window scanned horizontally first, then rising, then
/// falling.
pub open spec fn scan_windows(m: BoardModel, c: int) -> Option<Side>
    decreases 3 - c,
{
    if c < 0 || c >= 3 {
        Option::None
    } else if scan_horiz(m, c, 0) is Some {
        scan_horiz(m, c, 0)
    } else if scan_rise(m, c, 0) is Some {
        scan_rise(m, c, 0)
    } else if scan_fall(m, c, 0) is Some {
        scan_fall(m, c, 0)
    } else {
        scan_windows(m, c + 1)
    }
}

/// Every column's top cell (row 5) is occupied.
pub open spec fn full(m: BoardModel) -> bool {
    forall|c: int| 0 <= c < 7 ==> cell_at(m, c, 5) != Cell::Empty
}

/// The classification of a position: the winner found by the scans, in
/// scan order; otherwise `Draw` when every column is full, else `Doing`.
pub open spec fn spec_state(m: BoardModel) -> BattleState {
    match scan_vert(m, 0, 0) {
        Option::Some(s) => BattleState::Winner(s),
        Option::None => match scan_windows(m, 0) {
            Option::Some(s) => BattleState::Winner(s),
            Option::None => if full(m) {
                BattleState::Draw
            } else {
                BattleState::Doing
            },
        },
    }
}

impl Board {
    fn vert_hit(&self, c: usize, r: usize, s: Side) -> (hit: bool)
        requires
            c < 7,
            r < 3,
        ensures
            hit == vert_run_at(self@, s, c as int, r as int),
    {
        let col = self.columns[c];
        let p = Cell::Put(s);
        col[r] == p && col[r + 1] == p && col[r + 2] == p && col[r + 3] == p
    }

    fn horiz_hit(&self, c: usize, r: usize, s: Side) -> (hit: bool)
        requires
            c < 4,
            r < 6,
        ensures
            hit == horiz_run_at(self@, s, c as int, r as int),
    {
        let p = Cell::Put(s);
        self.columns[c][r] == p && self.columns[c + 1][r] == p && self.columns[c + 2][r] == p
            && self.columns[c + 3][r] == p
    }

    fn rise_hit(&self, c: usize, r: usize, s: Side) -> (hit: bool)
        requires
            c < 4,
            r < 3,
        ensures
            hit == rise_run_at(self@, s, c as int, r as int),
    {
        let p = Cell::Put(s);
        self.columns[c][r] == p && self.columns[c + 1][r + 1] == p && self.columns[c + 2][r + 2]
            == p && self.columns[c + 3][r + 3] == p
    }

    fn fall_hit(&self, c: usize, r: usize, s: Side) -> (hit: bool)
        requires
            c < 4,
            r < 3,
        ensures
            hit == fall_run_at(self@, s, c as int, r as int),
    {
        let p = Cell::Put(s);
        self.columns[c][r + 3] == p && self.columns[c + 1][r + 2] == p && self.columns[c + 2][r + 1]
            == p && self.columns[c + 3][r] == p
    }

    /// Classifies the position: the winner found by the scans described in
    /// `spec_state`, else `Draw` when every column is full, else `Doing`.
    pub fn state(&self) -> (st: BattleState)
        ensures
            st == spec_state(self@),
    {
        let ghost m = self@;
        let mut c: usize = 0;
        while c < 7
            invariant
                c <= 7,
                m == self@,
                scan_vert(m, 0, 0) == scan_vert(m, c as int, 0),
            decreases 7 - c,
        {
            let mut r: usize = 0;
            while r < 2
                invariant
                    c < 7,
                    r <= 2,
                    m == self@,
                    scan_vert(m, 0, 0) == scan_vert(m, c as int, r as int),
                decreases 2 - r,
            {
                if self.vert_hit(c, r, Side::Side1) {
                    return BattleState::Winner(Side::Side1);
                }
                if self.vert_hit(c, r, Side::Side2) {
                    return BattleState::Winner(Side::Side2);
                }
                r += 1;
            }
            c += 1;
        }
        assert(scan_vert(m, 0, 0) is None);
        let mut c: usize = 0;
        while c < 3
            invariant
                c <= 3,
                m == self@,
                scan_vert(m, 0, 0) is None,
                scan_windows(m, 0) == scan_windows(m, c as int),
            decreases 3 - c,
        {
            let mut r: usize = 0;
            while r < 6
                invariant
                    c < 3,
                    r <= 6,
                    m == self@,
                    scan_vert(m, 0, 0) is None,
                    scan_windows(m, 0) == scan_windows(m, c as int),
                    scan_horiz(m, c as int, 0) == scan_horiz(m, c as int, r as int),
                decreases 6 - r,
            {
                if self.horiz_hit(c, r, Side::Side1) {
                    return BattleState::Winner(Side::Side1);
                }
                if self.horiz_hit(c, r, Side::Side2) {
                    return BattleState::Winner(Side::Side2);
                }
                r += 1;
            }
            assert(scan_horiz(m, c as int, 0) is None);
            let mut r: usize = 0;
            while r < 2
                invariant
                    c < 3,
                    r <= 2,
                    m == self@,
                    scan_vert(m, 0, 0) is None,
                    scan_windows(m, 0) == scan_windows(m, c as int),
                    scan_horiz(m, c as int, 0) is None,
                    scan_rise(m, c as int, 0) == scan_rise(m, c as int, r as int),
                decreases 2 - r,
            {
                if self.rise_hit(c, r, Side::Side1) {
                    return BattleState::Winner(Side::Side1);
                }
                if self.rise_hit(c, r, Side::Side2) {
                    return BattleState::Winner(Side::Side2);
                }
                r += 1;
            }
            assert(scan_rise(m, c as int, 0) is None);
            let mut r: usize = 0;
            while r < 2
                invariant
                    c < 3,
                    r <= 2,
                    m == self@,
                    scan_vert(m, 0, 0) is None,
                    scan_windows(m, 0) == scan_windows(m, c as int),
                    scan_horiz(m, c as int, 0) is None,
                    scan_rise(m, c as int, 0) is None,
                    scan_fall(m, c as int, 0) == scan_fall(m, c as int, r as int),
                decreases 2 - r,
            {
                if self.fall_hit(c, r, Side::Side1) {
                    return BattleState::Winner(Side::Side1);
                }
                if self.fall_hit(c, r, Side::Side2) {
                    return BattleState::Winner(Side::Side2);
                }
                r += 1;
            }
            assert(scan_fall(m, c as int, 0) is None);
            c += 1;
        }
        assert(scan_windows(m, 0) is None);
        let mut c: usize = 0;
        while c < 7
            invariant
                c <= 7,
                m == self@,
                scan_vert(m, 0, 0) is None,
                scan_windows(m, 0) is None,
                forall|c2: int| 0 <= c2 < c as int ==> cell_at(m, c2, 5) != Cell::Empty,
            decreases 7 - c,
        {
            if matches!(self.columns[c][5], Cell::Empty) {
                assert(cell_at(m, c as int, 5) == Cell::Empty);
                assert(!full(m));
                return BattleState::Doing;
            }
            c += 1;
        }
        assert(full(m));
        BattleState::Draw
    }
}

proof fn lemma_scan_vert_finds(m: BoardModel, c: int, r: int, s: Side)
    requires
        0 <= c,
        0 <= r,
        scan_vert(m, c, r) == Option::Some(s),
    ensures
        exists|c2: int, r2: int| 0 <= c2 < 7 && 0 <= r2 < 2 && #[trigger] vert_run_at(m, s, c2, r2),
    decreases 7 - c, 2 - r,
{
    if c < 7 {
        if r >= 2 {
            lemma_scan_vert_finds(m, c + 1, 0, s);
        } else if !vert_run_at(m, Side::Side1, c, r) && !vert_run_at(m, Side::Side2, c, r) {
            lemma_scan_vert_finds(m, c, r + 1, s);
        }
    }
}

proof fn lemma_scan_horiz_finds(m: BoardModel, c: int, r: int, s: Side)
    requires
        0 <= c < 3,
        0 <= r,
        scan_horiz(m, c, r) == Option::Some(s),
    ensures
        exists|c2: int, r2: int|
            0 <= c2 < 3 && 0 <= r2 < 6 && #[trigger] horiz_run_at(m, s, c2, r2),
    decreases 6 - r,
{
    if r < 6 && !horiz_run_at(m, Side::Side1, c, r) && !horiz_run_at(m, Side::Side2, c, r) {
        lemma_scan_horiz_finds(m, c, r + 1, s);
    }
}

proof fn lemma_scan_rise_finds(m: BoardModel, c: int, r: int, s: Side)
    requires
        0 <= c < 3,
        0 <= r,
        scan_rise(m, c, r) == Option::Some(s),
    ensures
        exists|c2: int, r2: int| 0 <= c2 < 3 && 0 <= r2 < 2 && #[trigger] rise_run_at(m, s, c2, r2),
    decreases 2 - r,
{
    if r < 2 && !rise_run_at(m, Side::Side1, c, r) && !rise_run_at(m, Side::Side2, c, r) {
        lemma_scan_rise_finds(m, c, r + 1, s);
    }
}

proof fn lemma_scan_fall_finds(m: BoardModel, c: int, r: int, s: Side)
    requires
        0 <= c < 3,
        0 <= r,
        scan_fall(m, c, r) == Option::Some(s),
    ensures
        exists|c2: int, r2: int| 0 <= c2 < 3 && 0 <= r2 < 2 && #[trigger] fall_run_at(m, s, c2, r2),
    decreases 2 - r,
{
    if r < 2 && !fall_run_at(m, Side::Side1, c, r) && !fall_run_at(m, Side::Side2, c, r) {
        lemma_scan_fall_finds(m, c, r + 1, s);
    }
}

proof fn lemma_scan_windows_finds(m: BoardModel, c: int, s: Side)
    requires
        0 <= c,
        scan_windows(m, c) == Option::Some(s),
    ensures
        has_win(m, s),
    decreases 3 - c,
{
    if c < 3 {
        if scan_horiz(m, c, 0) is Some {
            lemma_scan_horiz_finds(m, c, 0, s);
        } else if scan_rise(m, c, 0) is Some {
            lemma_scan_rise_finds(m, c, 0, s);
        } else if scan_fall(m, c, 0) is Some {
            lemma_scan_fall_finds(m, c, 0, s);
        } else {
            lemma_scan_windows_finds(m, c + 1, s);
        }
    }
}

proof fn lemma_scan_vert_none(m: BoardModel, c: int, r: int)
    requires
        0 <= c,
        0 <= r,
        scan_vert(m, c, r) is None,
    ensures
        forall|s: Side, c2: int, r2: int|
            0 <= c2 < 7 && 0 <= r2 < 2 && (c2 > c || (c2 == c && r2 >= r)) ==> !(
            #[trigger] vert_run_at(m, s, c2, r2)),
    decreases 7 - c, 2 - r,
{
    if c < 7 {
        if r >= 2 {
            lemma_scan_vert_none(m, c + 1, 0);
        } else {
            lemma_scan_vert_none(m, c, r + 1);
        }
    }
}

proof fn lemma_scan_horiz_none(m: BoardModel, c: int, r: int)
    requires
        0 <= r,
        scan_horiz(m, c, r) is None,
    ensures
        forall|s: Side, r2: int| r <= r2 < 6 ==> !(#[trigger] horiz_run_at(m, s, c, r2)),
    decreases 6 - r,
{
    if r < 6 {
        lemma_scan_horiz_none(m, c, r + 1);
    }
}

proof fn lemma_scan_rise_none(m: BoardModel, c: int, r: int)
    requires
        0 <= r,
        scan_rise(m, c, r) is None,
    ensures
        forall|s: Side, r2: int| r <= r2 < 2 ==> !(#[trigger] rise_run_at(m, s, c, r2)),
    decreases 2 - r,
{
    if r < 2 {
        lemma_scan_rise_none(m, c, r + 1);
    }
}

proof fn lemma_scan_fall_none(m: BoardModel, c: int, r: int)
    requires
        0 <= r,
        scan_fall(m, c, r) is None,
    ensures
        forall|s: Side, r2: int| r <= r2 < 2 ==> !(#[trigger] fall_run_at(m, s, c, r2)),
    decreases 2 - r,
{
    if r < 2 {
        lemma_scan_fall_none(m, c, r + 1);
    }
}

proof fn lemma_scan_windows_none(m: BoardModel, c: int)
    requires
        0 <= c,
        scan_windows(m, c) is None,
    ensures
        forall|s: Side, c2: int, r2: int|
            c <= c2 < 3 && 0 <= r2 < 6 ==> !(#[trigger] horiz_run_at(m, s, c2, r2)),
        forall|s: Side, c2: int, r2: int|
            c <= c2 < 3 && 0 <= r2 < 2 ==> !(#[trigger] rise_run_at(m, s, c2, r2)),
        forall|s: Side, c2: int, r2: int|
            c <= c2 < 3 && 0 <= r2 < 2 ==> !(#[trigger] fall_run_at(m, s, c2, r2)),
    decreases 3 - c,
{
    if c < 3 {
        lemma_scan_windows_none(m, c + 1);
        lemma_scan_horiz_none(m, c, 0);
        lemma_scan_rise_none(m, c, 0);
        lemma_scan_fall_none(m, c, 0);
    }
}

/// How the classification relates to the covered four-in-a-row runs:
/// a returned winner always holds such a run; when no side holds one, the
/// position is `Draw` exactly when every column's top cell is occupied,
/// and `Doing` otherwise. In particular a position is classified `Draw`
/// if and only if it is full and neither side holds a covered run, it
/// is never a win for a side without a run, and it is never a win for
/// both sides at once.
pub proof fn lemma_state_classifies(m: BoardModel)
    ensures
        forall|s: Side| spec_state(m) == BattleState::Winner(s) ==> has_win(m, s),
        forall|s1: Side, s2: Side|
            spec_state(m) == BattleState::Winner(s1) && spec_state(m) == BattleState::Winner(s2)
                ==> s1 == s2,
        (!has_win(m, Side::Side1) && !has_win(m, Side::Side2)) ==> spec_state(m) == (if full(m) {
            BattleState::Draw
        } else {
            BattleState::Doing
        }),
        spec_state(m) == BattleState::Draw <==> (full(m) && !has_win(m, Side::Side1) && !has_win(
            m,
            Side::Side2,
        )),
        spec_state(m) == BattleState::Doing <==> (!full(m) && !has_win(m, Side::Side1) && !has_win(
            m,
            Side::Side2,
        )),
{
    match scan_vert(m, 0, 0) {
        Option::Some(s) => lemma_scan_vert_finds(m, 0, 0, s),
        Option::None => {
            lemma_scan_vert_none(m, 0, 0);
            match scan_windows(m, 0) {
                Option::Some(s) => lemma_scan_windows_finds(m, 0, s),
                Option::None => lemma_scan_windows_none(m, 0),
            }
        },
    }
}

} // verus!
