use vstd::prelude::*;
use crate::board::{
    Board,
    Cell,
    count_cells,
    lemma_count_empty_board,
    lemma_count_update,
    mark_of,
};
use crate::models::player::{Player, other_spec};
use crate::outcome::{Outcome, evaluate, evaluate_spec, lemma_empty_board_in_progress};
use crate::search::{best_move, is_best_move};

verus! {

/// The phase of one round of play.
#[derive(Clone, Copy, PartialEq, Eq, Structural, Debug)]
pub enum GameState {
    AwaitingHumanMove,
    ComputerMoving,
    Won(Player),
    Draw,
    Quit,
}

/// Ghost image of a session: the board, whose turn it is, which side the
/// human plays, and the phase the round is in.
pub struct SessionView {
    pub board: Seq<Cell>,
    pub turn: Player,
    pub human: Player,
    pub state: GameState,
}

/// A phase in which a mark is still to be placed.
pub open spec fn playing(s: GameState) -> bool {
    s == GameState::AwaitingHumanMove || s == GameState::ComputerMoving
}

/// The phase after a placement: terminal outcomes end the round, otherwise
/// the other side is up next.
pub open spec fn state_after(o: Outcome, next: GameState) -> GameState {
    match o {
        Outcome::InProgress => next,
        Outcome::Won(p) => GameState::Won(p),
        Outcome::Draw => GameState::Draw,
    }
}

/// `X` has placed one mark more than `O` exactly when `O` is to move.
pub open spec fn marks_balanced(b: Seq<Cell>, turn: Player) -> bool {
    match turn {
        Player::X => count_cells(b, Cell::X) == count_cells(b, Cell::O),
        Player::O => count_cells(b, Cell::X) == count_cells(b, Cell::O) + 1,
    }
}

/// One round of human-versus-computer play: it owns the board, alternates
/// the two sides' plies, and ends on a win, a draw, or a quit request.
pub struct GameSession {
    board: Board,
    turn: Player,
    human: Player,
    state: GameState,
}

impl View for GameSession {
    type V = SessionView;

    closed spec fn view(&self) -> SessionView {
        SessionView { board: self.board@, turn: self.turn, human: self.human, state: self.state }
    }
}

impl GameSession {
    /// While a mark is still to be placed, the board is in progress, the
    /// turn agrees with the phase, and the mark counts agree with the turn.
    #[verifier::type_invariant]
    pub open spec fn wf(self) -> bool {
        &&& self@.board.len() == 9
        &&& (playing(self@.state) ==> evaluate_spec(self@.board) == Outcome::InProgress)
        &&& (self@.state == GameState::AwaitingHumanMove ==> self@.turn == self@.human)
        &&& (self@.state == GameState::ComputerMoving ==> self@.turn == other_spec(self@.human))
        &&& (playing(self@.state) ==> marks_balanced(self@.board, self@.turn))
    }

    /// Start a round: an empty board, `X` to move, and the side that is not
    /// `human` played by the computer.
    pub fn new(human: Player) -> (s: GameSession)
        ensures
            s@.board.len() == 9,
            forall|i: int| 0 <= i < 9 ==> s@.board[i] == Cell::Empty,
            s@.turn == Player::X,
            s@.human == human,
            s@.state == (if human == Player::X {
                GameState::AwaitingHumanMove
            } else {
                GameState::ComputerMoving
            }),
    {
        let board = Board::new();
        let state = if human == Player::X {
            GameState::AwaitingHumanMove
        } else {
            GameState::ComputerMoving
        };
        proof {
            lemma_empty_board_in_progress(board@);
            lemma_count_empty_board(board@, Cell::X, 9);
            lemma_count_empty_board(board@, Cell::O, 9);
        }
        GameSession { board, turn: Player::X, human, state }
    }

    /// The phase the round is in.
    pub fn state(&self) -> (s: GameState)
        ensures
            s == self@.state,
    {
        self.state
    }

    /// The board as played so far.
    pub fn board(&self) -> (b: &Board)
        ensures
            b@ == self@.board,
    {
        &self.board
    }

    /// The side whose turn it is.
    pub fn turn(&self) -> (p: Player)
        ensures
            p == self@.turn,
    {
        self.turn
    }

    /// The side the human plays.
    pub fn human_player(&self) -> (p: Player)
        ensures
            p == self@.human,
    {
        self.human
    }

    /// The outcome of the board as played so far.
    pub fn outcome(&self) -> (o: Outcome)
        ensures
            o == evaluate_spec(self@.board),
    {
        evaluate(&self.board)
    }

    /// A human selection. While the session awaits a human move and `index`
    /// names an empty cell, the human's mark is placed there and the round
    /// advances: to the computer's turn, or to the terminal phase the
    /// placement produced. Any other selection — out of range, on an
    /// occupied cell, or in any other phase — changes nothing.
    pub fn select_cell(&mut self, index: usize)
        ensures
            (old(self)@.state == GameState::AwaitingHumanMove && index < 9 && old(
                self,
            )@.board[index as int] == Cell::Empty) ==> ({
                let nb = old(self)@.board.update(index as int, mark_of(old(self)@.human));
                &&& final(self)@.board == nb
                &&& final(self)@.turn == other_spec(old(self)@.human)
                &&& final(self)@.human == old(self)@.human
                &&& final(self)@.state == state_after(
                    evaluate_spec(nb),
                    GameState::ComputerMoving,
                )
            }),
            !(old(self)@.state == GameState::AwaitingHumanMove && index < 9 && old(
                self,
            )@.board[index as int] == Cell::Empty) ==> final(self)@ == old(self)@,
    {
        proof {
            use_type_invariant(&*self);
        }
        match self.state {
            GameState::AwaitingHumanMove => {},
            _ => {
                return ;
            },
        }
        if index >= 9 {
            return ;
        }
        if self.board.cell(index) != Cell::Empty {
            return ;
        }
        let human = self.human;
        let mut board = self.board.duplicate();
        board.place(index, human);
        let o = evaluate(&board);
        let state = match o {
            Outcome::InProgress => GameState::ComputerMoving,
            Outcome::Won(p) => GameState::Won(p),
            Outcome::Draw => GameState::Draw,
        };
        proof {
            lemma_count_update(old(self)@.board, Cell::X, index as int, mark_of(human), 9);
            lemma_count_update(old(self)@.board, Cell::O, index as int, mark_of(human), 9);
        }
        *self = GameSession { board, turn: human.others(), human, state };
    }

    /// The computer's turn: it places its optimal move and the round
    /// advances, back to the human or to the terminal phase the placement
    /// produced. In any other phase nothing changes.
    pub fn computer_move(&mut self)
        ensures
            old(self)@.state == GameState::ComputerMoving ==> ({
                let computer = other_spec(old(self)@.human);
                exists|i: int|
                    is_best_move(old(self)@.board, computer, i) && final(self)@.board == old(
                        self,
                    )@.board.update(i, mark_of(computer)) && final(self)@.state == state_after(
                        evaluate_spec(final(self)@.board),
                        GameState::AwaitingHumanMove,
                    )
            }),
            old(self)@.state == GameState::ComputerMoving ==> final(self)@.turn == old(self)@.human
                && final(self)@.human == old(self)@.human,
            old(self)@.state != GameState::ComputerMoving ==> final(self)@ == old(self)@,
    {
        proof {
            use_type_invariant(&*self);
        }
        match self.state {
            GameState::ComputerMoving => {},
            _ => {
                return ;
            },
        }
        let human = self.human;
        let computer = human.others();
        let mv = best_move(&self.board, computer);
        let mut board = self.board.duplicate();
        board.place(mv, computer);
        let o = evaluate(&board);
        let state = match o {
            Outcome::InProgress => GameState::AwaitingHumanMove,
            Outcome::Won(p) => GameState::Won(p),
            Outcome::Draw => GameState::Draw,
        };
        proof {
            lemma_count_update(old(self)@.board, Cell::X, mv as int, mark_of(computer), 9);
            lemma_count_update(old(self)@.board, Cell::O, mv as int, mark_of(computer), 9);
        }
        *self = GameSession { board, turn: human, human, state };
        proof {
            assert(is_best_move(old(self)@.board, computer, mv as int));
        }
    }

    /// An external quit: from either playing phase the round goes straight
    /// to `Quit`, leaving the board, the turn and the sides untouched; in a
    /// terminal phase nothing changes.
    pub fn request_quit(&mut self)
        ensures
            final(self)@.board == old(self)@.board,
            final(self)@.turn == old(self)@.turn,
            final(self)@.human == old(self)@.human,
            final(self)@.state == (if playing(old(self)@.state) {
                GameState::Quit
            } else {
                old(self)@.state
            }),
    {
        proof {
            use_type_invariant(&*self);
        }
        match self.state {
            GameState::AwaitingHumanMove | GameState::ComputerMoving => {
                self.state = GameState::Quit;
            },
            _ => {},
        }
    }
}

} // verus!
