use connect_four::BattleState;
use connect_four::Board;
use connect_four::Cell;
use connect_four::Side;
use connect_four::full_search;

/// A column filled from the bottom with the given pieces.
fn col(cells: &[Side]) -> [Cell; 6] {
    let mut c = [Cell::Empty; 6];
    let mut i: usize = 0;
    while i < cells.len() {
        c[i] = Cell::Put(cells[i]);
        i += 1;
    }
    c
}

/// A full column of alternating pieces in pairs, starting with `s` at the
/// bottom: s, s, other, other, s, s. Stacking these with alternating
/// phases fills the board without any four-in-a-row.
fn paired(s: Side) -> [Cell; 6] {
    let o = s.flip();
    col(&[s, s, o, o, s, s])
}

/// A full board with no four-in-a-row anywhere: columns alternate between
/// the two phases of `paired`, so every line of four mixes both sides.
fn draw_board(side: Side) -> Board {
    let a = paired(Side::Side1);
    let b = paired(Side::Side2);
    Board { side, columns: [a, b, a, b, a, b, a] }
}

#[test]
fn flip_is_involutive_and_has_no_fixed_point() {
    assert_eq!(Side::Side1.flip(), Side::Side2);
    assert_eq!(Side::Side2.flip(), Side::Side1);
    assert_eq!(Side::Side1.flip().flip(), Side::Side1);
    assert_eq!(Side::Side2.flip().flip(), Side::Side2);
    assert_ne!(Side::Side1.flip(), Side::Side1);
    assert_ne!(Side::Side2.flip(), Side::Side2);
}

#[test]
fn new_board_is_empty_and_in_play() {
    let b = Board::new();
    assert_eq!(b.side, Side::Side1);
    for c in 0..7 {
        for r in 0..6 {
            assert_eq!(b.columns[c][r], Cell::Empty);
        }
    }
    assert_eq!(b.state(), BattleState::Doing);
}

#[test]
fn initial_board_has_seven_successors() {
    let b = Board::new();
    let nexts = b.list_next();
    assert_eq!(nexts.len(), 7);
    for c in 0..7 {
        let mut expected = Board::new();
        expected.columns[c][0] = Cell::Put(Side::Side1);
        expected.side = Side::Side2;
        assert_eq!(nexts[c], expected);
    }
}

#[test]
fn full_columns_are_skipped() {
    let stack = col(&[
        Side::Side1,
        Side::Side2,
        Side::Side1,
        Side::Side2,
        Side::Side1,
        Side::Side2,
    ]);
    let mut b = Board::new();
    b.columns[0] = stack;
    b.columns[1] = stack;
    let nexts = b.list_next();
    assert_eq!(nexts.len(), 5);
    for i in 0..5 {
        assert_eq!(nexts[i].columns[i + 2][0], Cell::Put(Side::Side1));
        assert_eq!(nexts[i].side, Side::Side2);
    }
}

#[test]
fn full_board_has_no_successors() {
    let b = draw_board(Side::Side1);
    assert_eq!(b.list_next().len(), 0);
}

#[test]
fn full_board_without_a_run_is_a_draw() {
    let b = draw_board(Side::Side1);
    assert_eq!(b.state(), BattleState::Draw);
}

#[test]
fn horizontal_run_wins() {
    let mut b = Board::new();
    b.side = Side::Side2;
    for c in 0..4 {
        b.columns[c][0] = Cell::Put(Side::Side1);
    }
    assert_eq!(b.state(), BattleState::Winner(Side::Side1));
}

#[test]
fn vertical_run_at_the_bottom_wins() {
    let mut b = Board::new();
    b.side = Side::Side2;
    for r in 0..4 {
        b.columns[0][r] = Cell::Put(Side::Side1);
    }
    assert_eq!(b.state(), BattleState::Winner(Side::Side1));
}

#[test]
fn vertical_run_at_the_top_goes_undetected() {
    // The vertical scan checks windows starting at rows 0 and 1 only, so a
    // run at rows 2..=5 is not found: the board still counts as in play.
    let mut b = Board::new();
    b.side = Side::Side2;
    for r in 2..6 {
        b.columns[0][r] = Cell::Put(Side::Side1);
    }
    assert_eq!(b.state(), BattleState::Doing);
}

#[test]
fn rising_diagonal_run_wins() {
    let mut b = Board::new();
    b.side = Side::Side2;
    for i in 0..4 {
        b.columns[i][i] = Cell::Put(Side::Side1);
    }
    assert_eq!(b.state(), BattleState::Winner(Side::Side1));
}

#[test]
fn falling_diagonal_run_wins() {
    let mut b = Board::new();
    b.side = Side::Side2;
    for i in 0..4 {
        b.columns[i][3 - i] = Cell::Put(Side::Side2);
    }
    assert_eq!(b.state(), BattleState::Winner(Side::Side2));
}

#[test]
fn run_in_the_last_column_window_goes_undetected() {
    // Column windows start at columns 0, 1 and 2 only, so a horizontal run
    // across columns 3..=6 is not found.
    let mut b = Board::new();
    b.side = Side::Side2;
    for c in 3..7 {
        b.columns[c][0] = Cell::Put(Side::Side1);
    }
    assert_eq!(b.state(), BattleState::Doing);
}

/// Five columns filled without a run, and two columns holding three
/// `Side2` pieces each: whoever moves decides the game at once.
fn twin_threats(side: Side) -> Board {
    let a = paired(Side::Side1);
    let b = paired(Side::Side2);
    let threat = col(&[Side::Side2, Side::Side2, Side::Side2]);
    Board { side, columns: [a, b, a, b, a, threat, threat] }
}

#[test]
fn search_scores_a_win_in_one_move() {
    let b = twin_threats(Side::Side2);
    assert_eq!(full_search(&b), 99);
}

#[test]
fn search_scores_a_forced_loss() {
    // Side1 can block one threat but not both; the loss lands two plies in.
    let b = twin_threats(Side::Side1);
    assert_eq!(full_search(&b), -98);
}

#[test]
fn search_scores_a_forced_draw() {
    let mut b = draw_board(Side::Side1);
    b.columns[6][5] = Cell::Empty;
    assert_eq!(full_search(&b), 0);
}
