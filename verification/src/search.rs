use vstd::prelude::*;
use crate::board::{Board, Cell, board_full, count_empty, lemma_count_update, mark_of};
use crate::models::player::{Player, other_spec};
use crate::outcome::{Outcome, evaluate, evaluate_spec};

verus! {

/// The game-tree value of `b` with `mover` to play, seen from `computer`'s
/// side: `1` if the game ends won for `computer` under best play by both,
/// `-1` if it ends lost, `0` for a draw.
pub open spec fn minimax_value(b: Seq<Cell>, mover: Player, computer: Player) -> int
    decreases count_empty(b), 10int,
        when b.len() == 9
{
    match evaluate_spec(b) {
        Outcome::Won(p) => if p == computer {
            1int
        } else {
            -1int
        },
        Outcome::Draw => 0int,
        Outcome::InProgress => best_value_to(b, mover, computer, 9),
    }
}

/// The best value `mover` can reach by playing on one of the empty cells
/// among the first `n`: the maximum child value when `mover` is the
/// computer, the minimum otherwise. With no empty cell among them it is a
/// sentinel (`-100` or `100`) that any real move beats.
pub open spec fn best_value_to(b: Seq<Cell>, mover: Player, computer: Player, n: int) -> int
    decreases count_empty(b), n,
        when b.len() == 9 && 0 <= n <= 9
{
    if n <= 0 {
        if mover == computer {
            -100int
        } else {
            100int
        }
    } else {
        let rest = best_value_to(b, mover, computer, n - 1);
        if b[n - 1] == Cell::Empty {
            proof {
                lemma_count_update(b, Cell::Empty, n - 1, mark_of(mover), 9);
            }
            let child = minimax_value(b.update(n - 1, mark_of(mover)), other_spec(mover), computer);
            if mover == computer {
                if child >= rest {
                    child
                } else {
                    rest
                }
            } else {
                if child <= rest {
                    child
                } else {
                    rest
                }
            }
        } else {
            rest
        }
    }
}

/// Every game-tree value is a leaf score, so lies between a loss and a win.
pub proof fn lemma_value_bounds(b: Seq<Cell>, mover: Player, computer: Player)
    requires
        b.len() == 9,
    ensures
        -1 <= minimax_value(b, mover, computer) <= 1,
    decreases count_empty(b), 10int,
{
    if evaluate_spec(b) == Outcome::InProgress {
        assert(!board_full(b));
        lemma_best_value_bounds(b, mover, computer, 9);
    }
}

/// Bounds for the best-over-a-prefix value: it stays between the sentinel
/// and the best leaf score, and once some empty cell lies in the prefix it
/// is a real child's value, between `-1` and `1`.
pub proof fn lemma_best_value_bounds(b: Seq<Cell>, mover: Player, computer: Player, n: int)
    requires
        b.len() == 9,
        0 <= n <= 9,
    ensures
        mover == computer ==> -100 <= best_value_to(b, mover, computer, n) <= 1,
        mover != computer ==> -1 <= best_value_to(b, mover, computer, n) <= 100,
        (exists|j: int| 0 <= j < n && b[j] == Cell::Empty) ==> -1 <= best_value_to(
            b,
            mover,
            computer,
            n,
        ) <= 1,
    decreases count_empty(b), n,
{
    if n > 0 {
        lemma_best_value_bounds(b, mover, computer, n - 1);
        if b[n - 1] == Cell::Empty {
            lemma_count_update(b, Cell::Empty, n - 1, mark_of(mover), 9);
            lemma_value_bounds(b.update(n - 1, mark_of(mover)), other_spec(mover), computer);
        } else {
            if exists|j: int| 0 <= j < n && b[j] == Cell::Empty {
                let j = choose|j: int| 0 <= j < n && b[j] == Cell::Empty;
                assert(0 <= j < n - 1 && b[j] == Cell::Empty);
            }
        }
    }
}

/// The best-over-a-prefix value never beats any single child in it: for the
/// maximizing side it is at least each child's value, for the minimizing
/// side at most.
pub proof fn lemma_best_value_vs_child(b: Seq<Cell>, mover: Player, computer: Player, n: int, j: int)
    requires
        b.len() == 9,
        0 <= n <= 9,
        0 <= j < n,
        b[j] == Cell::Empty,
    ensures
        mover == computer ==> best_value_to(b, mover, computer, n) >= minimax_value(
            b.update(j, mark_of(mover)),
            other_spec(mover),
            computer,
        ),
        mover != computer ==> best_value_to(b, mover, computer, n) <= minimax_value(
            b.update(j, mark_of(mover)),
            other_spec(mover),
            computer,
        ),
    decreases n,
{
    if j < n - 1 {
        lemma_best_value_vs_child(b, mover, computer, n - 1, j);
    }
}

/// On a finished board the game-tree value is the leaf score itself, so a
/// board whose value is not a loss for `computer` is not won by its
/// opponent.
pub proof fn lemma_terminal_value(b: Seq<Cell>, mover: Player, computer: Player)
    requires
        b.len() == 9,
        evaluate_spec(b) != Outcome::InProgress,
    ensures
        evaluate_spec(b) == Outcome::Won(computer) ==> minimax_value(b, mover, computer) == 1,
        evaluate_spec(b) == Outcome::Won(other_spec(computer)) ==> minimax_value(b, mover, computer)
            == -1,
        evaluate_spec(b) == Outcome::Draw ==> minimax_value(b, mover, computer) == 0,
        minimax_value(b, mover, computer) >= 0 ==> evaluate_spec(b) != Outcome::Won(
            other_spec(computer),
        ),
{
}

/// No opponent reply can lower `computer`'s standing: whichever empty cell
/// the opposing side plays, the resulting board's value is at least the
/// value the opponent-to-move board already had. Together with `best_move`
/// reaching the board's full value, this is why the computer never loses a
/// position whose value is not already a loss.
pub proof fn lemma_opponent_cannot_lower_value(b: Seq<Cell>, computer: Player, j: int)
    requires
        b.len() == 9,
        evaluate_spec(b) == Outcome::InProgress,
        0 <= j < 9,
        b[j] == Cell::Empty,
    ensures
        minimax_value(b.update(j, mark_of(other_spec(computer))), computer, computer) >=
            minimax_value(b, other_spec(computer), computer),
{
    lemma_best_value_vs_child(b, other_spec(computer), computer, 9, j);
}

/// One full round cannot turn the computer's standing into a loss: after
/// the computer plays a best move and its opponent answers on any empty
/// cell, the board's value for the computer is at least what it was before
/// the round. Since a lost finished board has value `-1` and the empty
/// board's value is not a loss, the computer never loses a round it plays
/// optimally.
pub proof fn lemma_round_preserves_value(b: Seq<Cell>, computer: Player, i: int, j: int)
    requires
        b.len() == 9,
        evaluate_spec(b) == Outcome::InProgress,
        is_best_move(b, computer, i),
        evaluate_spec(b.update(i, mark_of(computer))) == Outcome::InProgress,
        0 <= j < 9,
        b.update(i, mark_of(computer))[j] == Cell::Empty,
    ensures
        minimax_value(
            b.update(i, mark_of(computer)).update(j, mark_of(other_spec(computer))),
            computer,
            computer,
        ) >= minimax_value(b, computer, computer),
{
    lemma_opponent_cannot_lower_value(b.update(i, mark_of(computer)), computer, j);
}

/// The minimax score of `board` with `mover` to play, from `computer`'s
/// standpoint.
fn minimax(board: &Board, mover: Player, computer: Player) -> (v: i32)
    ensures
        v as int == minimax_value(board@, mover, computer),
    decreases count_empty(board@),
{
    proof {
        use_type_invariant(board);
    }
    let o = evaluate(board);
    match o {
        Outcome::Won(p) => if p == computer {
            1
        } else {
            -1
        },
        Outcome::Draw => 0,
        Outcome::InProgress => {
            let maximizing = mover == computer;
            let mut acc: i32 = if maximizing {
                -100
            } else {
                100
            };
            let mut i: usize = 0;
            while i < 9
                invariant
                    i <= 9,
                    board@.len() == 9,
                    evaluate_spec(board@) == Outcome::InProgress,
                    maximizing == (mover == computer),
                    acc as int == best_value_to(board@, mover, computer, i as int),
                    -100 <= acc <= 100,
                decreases 9 - i,
            {
                if board.cell(i) == Cell::Empty {
                    let mut child = board.duplicate();
                    child.place(i, mover);
                    proof {
                        lemma_count_update(board@, Cell::Empty, i as int, mark_of(mover), 9);
                        lemma_value_bounds(child@, other_spec(mover), computer);
                    }
                    let v = minimax(&child, mover.others(), computer);
                    if maximizing {
                        if v > acc {
                            acc = v;
                        }
                    } else {
                        if v < acc {
                            acc = v;
                        }
                    }
                }
                i += 1;
            }
            acc
        },
    }
}

/// Whether `i` is the cell `best_move` must pick on `b`: the first empty
/// cell, in ascending order, whose child value equals the board's own
/// minimax value for the side to move.
pub open spec fn is_best_move(b: Seq<Cell>, computer: Player, i: int) -> bool {
    &&& 0 <= i < 9
    &&& b[i] == Cell::Empty
    &&& minimax_value(b.update(i, mark_of(computer)), other_spec(computer), computer)
        == minimax_value(b, computer, computer)
    &&& forall|j: int|
        0 <= j < i && b[j] == Cell::Empty ==> minimax_value(
            b.update(j, mark_of(computer)),
            other_spec(computer),
            computer,
        ) < minimax_value(b, computer, computer)
}

/// The optimal cell for `computer` to play on `board`: the move reaching
/// the board's full minimax value, ties broken by the lowest cell index.
/// `computer` never loses from the returned move if it keeps playing
/// optimally: it wins whenever a forced win exists and draws otherwise.
pub fn best_move(board: &Board, computer: Player) -> (r: usize)
    requires
        evaluate_spec(board@) == Outcome::InProgress,
    ensures
        is_best_move(board@, computer, r as int),
{
    proof {
        use_type_invariant(board);
    }
    let mut acc: i32 = -100;
    let mut best: usize = 0;
    let mut found = false;
    let mut i: usize = 0;
    while i < 9
        invariant
            i <= 9,
            board@.len() == 9,
            evaluate_spec(board@) == Outcome::InProgress,
            acc as int == best_value_to(board@, computer, computer, i as int),
            -100 <= acc <= 100,
            found ==> best < i && board@[best as int] == Cell::Empty && minimax_value(
                board@.update(best as int, mark_of(computer)),
                other_spec(computer),
                computer,
            ) == acc as int,
            found ==> forall|j: int|
                0 <= j < best && board@[j] == Cell::Empty ==> minimax_value(
                    board@.update(j, mark_of(computer)),
                    other_spec(computer),
                    computer,
                ) < acc as int,
            found ==> forall|j: int|
                best < j < i && board@[j] == Cell::Empty ==> minimax_value(
                    board@.update(j, mark_of(computer)),
                    other_spec(computer),
                    computer,
                ) <= acc as int,
            !found ==> forall|j: int| 0 <= j < i ==> board@[j] != Cell::Empty,
            !found ==> acc == -100,
        decreases 9 - i,
    {
        if board.cell(i) == Cell::Empty {
            let mut child = board.duplicate();
            child.place(i, computer);
            proof {
                lemma_count_update(board@, Cell::Empty, i as int, mark_of(computer), 9);
                lemma_value_bounds(child@, other_spec(computer), computer);
            }
            let v = minimax(&child, computer.others(), computer);
            if !found || v > acc {
                acc = v;
                best = i;
                found = true;
            }
        }
        i += 1;
    }
    proof {
        assert(!board_full(board@));
        assert(found);
    }
    best
}

} // verus!
