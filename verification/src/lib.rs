//! A solver for a two-player vertical-stacking connection game on a 7-wide,
//! 6-tall grid. Pieces drop into columns; a side wins by lining up four
//! pieces in a row. The library models positions as immutable values,
//! enumerates legal successor positions, classifies terminal states, and
//! computes the exact game-theoretic score of a position by exhaustive
//! negamax search with alpha-beta pruning, proved equal to the unpruned
//! minimax value.

pub mod board;
pub mod search;
pub mod state;

pub use board::BattleState;
pub use board::Board;
pub use board::Cell;
pub use board::Side;
pub use search::full_search;
