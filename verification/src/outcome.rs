use vstd::prelude::*;
use crate::board::{Board, Cell, board_full, count_cells, mark_of};
use crate::models::player::{Player, other_spec};

verus! {

/// What a board amounts to: still being played, won by one side, or drawn.
#[derive(Clone, Copy, PartialEq, Eq, Structural, Debug)]
pub enum Outcome {
    InProgress,
    Won(Player),
    Draw,
}

/// The cell indices of winning line `k`: three rows, three columns, then the
/// two diagonals.
pub open spec fn line(k: int) -> (int, int, int) {
    if k == 0 {
        (0, 1, 2)
    } else if k == 1 {
        (3, 4, 5)
    } else if k == 2 {
        (6, 7, 8)
    } else if k == 3 {
        (0, 3, 6)
    } else if k == 4 {
        (1, 4, 7)
    } else if k == 5 {
        (2, 5, 8)
    } else if k == 6 {
        (0, 4, 8)
    } else {
        (2, 4, 6)
    }
}

/// Whether all three cells of line `k` carry `p`'s mark.
pub open spec fn line_won(b: Seq<Cell>, k: int, p: Player) -> bool {
    &&& b[line(k).0] == mark_of(p)
    &&& b[line(k).1] == mark_of(p)
    &&& b[line(k).2] == mark_of(p)
}

/// Whether `p` has completed any of the 8 winning lines.
pub open spec fn wins(b: Seq<Cell>, p: Player) -> bool {
    exists|k: int| 0 <= k < 8 && line_won(b, k, p)
}

/// The outcome of a board: a completed line wins for its owner (with `X`
/// examined first, which matters only on boards no legal game reaches), a
/// full board without one is a draw, and otherwise play continues.
pub open spec fn evaluate_spec(b: Seq<Cell>) -> Outcome {
    if wins(b, Player::X) {
        Outcome::Won(Player::X)
    } else if wins(b, Player::O) {
        Outcome::Won(Player::O)
    } else if board_full(b) {
        Outcome::Draw
    } else {
        Outcome::InProgress
    }
}

/// Whether `p` has completed a winning line on `board`.
pub fn wins_on(board: &Board, p: Player) -> (r: bool)
    ensures
        r == wins(board@, p),
{
    proof {
        use_type_invariant(board);
    }
    let m = match p {
        Player::X => Cell::X,
        Player::O => Cell::O,
    };
    let c0 = board.cell(0);
    let c1 = board.cell(1);
    let c2 = board.cell(2);
    let c3 = board.cell(3);
    let c4 = board.cell(4);
    let c5 = board.cell(5);
    let c6 = board.cell(6);
    let c7 = board.cell(7);
    let c8 = board.cell(8);
    let r = (c0 == m && c1 == m && c2 == m) || (c3 == m && c4 == m && c5 == m) || (c6 == m && c7
        == m && c8 == m) || (c0 == m && c3 == m && c6 == m) || (c1 == m && c4 == m && c7 == m) || (
    c2 == m && c5 == m && c8 == m) || (c0 == m && c4 == m && c8 == m) || (c2 == m && c4 == m && c6
        == m);
    proof {
        if r {
            if c0 == m && c1 == m && c2 == m {
                assert(line_won(board@, 0, p));
            } else if c3 == m && c4 == m && c5 == m {
                assert(line_won(board@, 1, p));
            } else if c6 == m && c7 == m && c8 == m {
                assert(line_won(board@, 2, p));
            } else if c0 == m && c3 == m && c6 == m {
                assert(line_won(board@, 3, p));
            } else if c1 == m && c4 == m && c7 == m {
                assert(line_won(board@, 4, p));
            } else if c2 == m && c5 == m && c8 == m {
                assert(line_won(board@, 5, p));
            } else if c0 == m && c4 == m && c8 == m {
                assert(line_won(board@, 6, p));
            } else {
                assert(line_won(board@, 7, p));
            }
        } else {
            assert forall|k: int| 0 <= k < 8 implies !line_won(board@, k, p) by {}
        }
    }
    r
}

/// The outcome of `board`: win, draw, or still in progress.
pub fn evaluate(board: &Board) -> (o: Outcome)
    ensures
        o == evaluate_spec(board@),
{
    if wins_on(board, Player::X) {
        return Outcome::Won(Player::X);
    }
    if wins_on(board, Player::O) {
        return Outcome::Won(Player::O);
    }
    if board.is_full() {
        Outcome::Draw
    } else {
        Outcome::InProgress
    }
}

/// A board whose cells are all empty is still in progress.
pub proof fn lemma_empty_board_in_progress(b: Seq<Cell>)
    requires
        b.len() == 9,
        forall|i: int| 0 <= i < 9 ==> b[i] == Cell::Empty,
    ensures
        evaluate_spec(b) == Outcome::InProgress,
{
    assert(b[0] == Cell::Empty);
    assert(!board_full(b));
    assert forall|k: int, p: Player| 0 <= k < 8 implies !line_won(b, k, p) by {
        assert(b[line(k).0] == Cell::Empty);
    }
}

/// On a board with no completed line, the outcome is `Draw` exactly when the
/// board is full and `InProgress` otherwise — stated here for the boards a
/// legal game can reach with five or more marks placed.
pub proof fn lemma_no_line_progress_or_draw(b: Seq<Cell>)
    requires
        b.len() == 9,
        count_cells(b, Cell::X) + count_cells(b, Cell::O) >= 5,
        count_cells(b, Cell::O) <= count_cells(b, Cell::X) <= count_cells(b, Cell::O) + 1,
        !wins(b, Player::X),
        !wins(b, Player::O),
    ensures
        evaluate_spec(b) == if board_full(b) {
            Outcome::Draw
        } else {
            Outcome::InProgress
        },
{
}

/// Completing any one of the 8 winning lines with `p`'s mark makes `p` the
/// winner of the board: `evaluate` reports `Won(p)` whenever the other side
/// has no line of its own (no board a legal game reaches gives both sides
/// one).
pub proof fn lemma_completed_line_wins(b: Seq<Cell>, k: int, p: Player)
    requires
        0 <= k < 8,
        b[line(k).0] == mark_of(p),
        b[line(k).1] == mark_of(p),
        b[line(k).2] == mark_of(p),
    ensures
        wins(b, p),
        !wins(b, other_spec(p)) ==> evaluate_spec(b) == Outcome::Won(p),
{
    assert(line_won(b, k, p));
}

} // verus!
