use vstd::prelude::*;

verus! {

/// One of the two sides of the game. `X` always moves first.
#[derive(Clone, Copy, PartialEq, Eq, Structural, Debug)]
pub enum Player {
    X,
    O,
}

/// The opposing side of `p`.
pub open spec fn other_spec(p: Player) -> Player {
    match p {
        Player::X => Player::O,
        Player::O => Player::X,
    }
}

impl Player {
    /// The character this side marks cells with.
    pub fn char(&self) -> (c: char)
        ensures
            c == (match *self {
                Player::X => 'X',
                Player::O => 'O',
            }),
    {
        match self {
            Player::X => 'X',
            Player::O => 'O',
        }
    }

    /// The opposing side.
    pub fn others(&self) -> (p: Player)
        ensures
            p == other_spec(*self),
    {
        match self {
            Player::X => Player::O,
            Player::O => Player::X,
        }
    }
}

} // verus!
