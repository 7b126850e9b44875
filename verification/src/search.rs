//! The search engine: the exact game value of a position under optimal
//! play (`minimax`), and its computation by depth-first negamax search
//! with alpha-beta pruning (`full_search`), proved to return exactly the
//! unpruned minimax value.
//!
//! Scores are signed: a position already won against the side to move at
//! depth `d` scores `d - 100` (losing later is better), a drawn position
//! scores 0, and otherwise the value is the best negated value over all
//! successors. Pruning never changes the returned value, only the number
//! of positions visited.

use crate::board::BattleState;
use crate::board::Board;
use crate::board::BoardModel;
use crate::board::Cell;
use crate::board::Side;
use crate::board::cell_at;
use crate::board::empties;
use crate::board::lemma_empties_le;
use crate::board::lemma_first_empty_from;
use crate::board::lemma_succ_from_len;
use crate::board::lemma_succ_from_nonempty;
use crate::board::lemma_succ_from_props;
use crate::board::spec_list_next;
use crate::board::wf;
use crate::state::full;
use crate::state::lemma_state_classifies;
use crate::state::spec_state;
use vstd::prelude::*;

verus! {

broadcast use crate::board::lemma_view_wf;

/// The larger of two integers.
pub open spec fn max_i(a: int, b: int) -> int {
    if a >= b {
        a
    } else {
        b
    }
}

/// The smaller of two integers.
pub open spec fn min_i(a: int, b: int) -> int {
    if a <= b {
        a
    } else {
        b
    }
}

/// The exact game value of `m` for the side to move, `d` plies below the
/// root: `d - 100` when the position is already won (the side to move is
/// the side that has just lost), 0 when drawn, and otherwise the largest
/// negated value of a successor, one ply deeper. This is the unpruned
/// minimax value: no pruning appears in its definition.
pub open spec fn minimax(m: BoardModel, d: int) -> int
    decreases empties(m), 9int when wf(m)
{
    match spec_state(m) {
        BattleState::Winner(_) => d - 100,
        BattleState::Draw => 0,
        BattleState::Doing => best_from(m, d, 0),
    }
}

/// The largest negated successor value among the successors of `m` from
/// index `k` on, or -101 (below every reachable score) when none remain.
pub open spec fn best_from(m: BoardModel, d: int, k: int) -> int
    decreases empties(m), 8 - k when wf(m) && 0 <= k via best_from_decreases
{
    if k >= spec_list_next(m).len() {
        -101
    } else {
        max_i(-minimax(spec_list_next(m)[k], d + 1), best_from(m, d, k + 1))
    }
}

#[via_fn]
proof fn best_from_decreases(m: BoardModel, d: int, k: int) {
    if wf(m) && 0 <= k && k < spec_list_next(m).len() {
        lemma_succ_from_len(m, 0);
        lemma_succ_from_props(m, 0);
    }
}

/// The largest negated successor value among the first `k` successors of
/// `m`, or -101 when `k` is 0: what a left-to-right traversal has seen
/// after `k` successors.
pub open spec fn best_prefix(m: BoardModel, d: int, k: int) -> int
    decreases k,
{
    if k <= 0 {
        -101
    } else {
        max_i(best_prefix(m, d, k - 1), -minimax(spec_list_next(m)[k - 1], d + 1))
    }
}

proof fn lemma_best_from_floor(m: BoardModel, d: int, k: int)
    requires
        wf(m),
        0 <= k,
    ensures
        best_from(m, d, k) >= -101,
    decreases spec_list_next(m).len() - k,
{
    if k < spec_list_next(m).len() {
        lemma_best_from_floor(m, d, k + 1);
    }
}

/// The whole maximum splits at any point of the traversal: it is the
/// larger of the best seen so far and the best still to come.
proof fn lemma_split(m: BoardModel, d: int, k: int)
    requires
        wf(m),
        0 <= k <= spec_list_next(m).len(),
    ensures
        best_from(m, d, 0) == max_i(best_prefix(m, d, k), best_from(m, d, k)),
    decreases k,
{
    if k == 0 {
        lemma_best_from_floor(m, d, 0);
    } else {
        lemma_split(m, d, k - 1);
        lemma_succ_from_props(m, 0);
        let w = -minimax(spec_list_next(m)[k - 1], d + 1);
        assert(best_from(m, d, k - 1) == max_i(w, best_from(m, d, k)));
        assert(best_prefix(m, d, k) == max_i(best_prefix(m, d, k - 1), w));
    }
}

/// Every game value lies between `d - 100` and `99 - d`: a win cannot be
/// announced before it is played, and scores shrink in magnitude with
/// depth. In particular every value fits the search window [-100, 100].
pub proof fn lemma_minimax_bounds(m: BoardModel, d: int)
    requires
        wf(m),
        0 <= d,
        d + empties(m) <= 98,
    ensures
        d - 100 <= minimax(m, d) <= 99 - d,
    decreases empties(m), 9int,
{
    if spec_state(m) == BattleState::Doing {
        lemma_state_classifies(m);
        assert(!full(m));
        let c = choose|c: int| 0 <= c < 7 && cell_at(m, c, 5) == Cell::Empty;
        lemma_first_empty_from(m, c, 0);
        lemma_succ_from_nonempty(m, 0, c);
        lemma_best_from_bounds(m, d, 0);
    }
}

proof fn lemma_best_from_bounds(m: BoardModel, d: int, k: int)
    requires
        wf(m),
        0 <= d,
        d + empties(m) <= 98,
        0 <= k,
    ensures
        k < spec_list_next(m).len() ==> d - 98 <= best_from(m, d, k),
        best_from(m, d, k) <= 99 - d,
    decreases empties(m), 8 - k,
{
    if k < spec_list_next(m).len() {
        lemma_succ_from_len(m, 0);
        lemma_succ_from_props(m, 0);
        lemma_minimax_bounds(spec_list_next(m)[k], d + 1);
        lemma_best_from_bounds(m, d, k + 1);
    }
}

/// Depth-first negamax search with alpha-beta pruning over the window
/// `(alpha, beta)`. The score `r` relates to the exact game value `v` of
/// the position as pruning allows: inside the window the value is
/// returned exactly; a value at or below `alpha` yields a score in
/// `[v, alpha]`, a value at or above `beta` a score in `[beta, v]`.
fn ab_search(board: &Board, depth: i8, alpha: i8, beta: i8) -> (r: i8)
    requires
        -100 <= alpha as int,
        (alpha as int) < beta as int,
        beta as int <= 100,
        0 <= depth as int,
        depth as int + empties(board@) <= 98,
    ensures
        -100 <= r as int <= 100,
        minimax(board@, depth as int) <= alpha as int ==> minimax(board@, depth as int)
            <= r as int <= alpha as int,
        (alpha as int) < minimax(board@, depth as int) && minimax(board@, depth as int)
            < beta as int ==> r as int == minimax(board@, depth as int),
        minimax(board@, depth as int) >= beta as int ==> beta as int <= r as int <= minimax(
            board@,
            depth as int,
        ),
    decreases empties(board@),
{
    let ghost m = board@;
    let ghost d = depth as int;
    match board.state() {
        BattleState::Winner(_) => {
            return depth - 100;
        },
        BattleState::Draw => {
            return 0;
        },
        BattleState::Doing => {},
    }
    let ghost v = minimax(m, d);
    proof {
        lemma_minimax_bounds(m, d);
        lemma_succ_from_len(m, 0);
        lemma_succ_from_props(m, 0);
        lemma_split(m, d, 0);
    }
    let nexts = board.list_next();
    let n = nexts.len();
    let mut a = alpha;
    let mut k: usize = 0;
    while k < n
        invariant_except_break
            (a as int) < beta as int,
            a as int <= max_i(alpha as int, best_prefix(m, d, k as int)),
            min_i(best_prefix(m, d, k as int), beta as int) <= a as int,
        invariant
            wf(m),
            m == board@,
            d == depth as int,
            -100 <= alpha as int,
            (alpha as int) < beta as int,
            beta as int <= 100,
            0 <= d,
            d + empties(m) <= 98,
            spec_state(m) == BattleState::Doing,
            v == minimax(m, d),
            v == best_from(m, d, 0),
            -100 <= v,
            v == max_i(best_prefix(m, d, k as int), best_from(m, d, k as int)),
            nexts@.len() == spec_list_next(m).len(),
            spec_list_next(m).len() <= 7,
            forall|i: int|
                0 <= i < nexts@.len() ==> (#[trigger] nexts@[i])@ == spec_list_next(m)[i],
            n as int == nexts@.len() as int,
            k <= n,
            alpha as int <= a as int <= 100,
        ensures
            alpha as int <= a as int <= 100,
            a as int <= max_i(alpha as int, v),
            min_i(v, beta as int) <= a as int,
        decreases n - k,
    {
        proof {
            lemma_succ_from_props(m, 0);
            lemma_minimax_bounds(spec_list_next(m)[k as int], d + 1);
        }
        let s0 = ab_search(&nexts[k], depth + 1, -beta, -a);
        let s = -s0;
        proof {
            let w = minimax(spec_list_next(m)[k as int], d + 1);
            assert(best_prefix(m, d, k as int + 1) == max_i(best_prefix(m, d, k as int), -w));
            lemma_split(m, d, k as int + 1);
        }
        if s > a {
            a = s;
        }
        if a >= beta {
            break ;
        }
        k += 1;
    }
    a
}

/// The exact game value of `board` for its side to move, computed by
/// alpha-beta search over the window `(-100, 100)`, which brackets every
/// reachable score: pruning never changes the result, so the score equals
/// the unpruned minimax value of the position.
pub fn full_search(board: &Board) -> (score: i8)
    ensures
        score as int == minimax(board@, 0),
{
    proof {
        lemma_empties_le(board@);
        lemma_minimax_bounds(board@, 0);
    }
    ab_search(board, 0, -100, 100)
}

} // verus!
