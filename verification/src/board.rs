use vstd::prelude::*;
use crate::models::player::Player;

verus! {

/// One cell of the 3x3 grid.
#[derive(Clone, Copy, PartialEq, Eq, Structural, Debug)]
pub enum Cell {
    Empty,
    X,
    O,
}

/// The mark that `p` places when it plays.
pub open spec fn mark_of(p: Player) -> Cell {
    match p {
        Player::X => Cell::X,
        Player::O => Cell::O,
    }
}

/// How many of the first `n` cells of `b` equal `c`.
pub open spec fn count_to(b: Seq<Cell>, c: Cell, n: int) -> nat
    decreases n,
{
    if n <= 0 {
        0
    } else {
        count_to(b, c, n - 1) + (if b[n - 1] == c {
            1nat
        } else {
            0nat
        })
    }
}

/// How many cells of a board equal `c`.
pub open spec fn count_cells(b: Seq<Cell>, c: Cell) -> nat {
    count_to(b, c, 9)
}

/// How many cells of a board are still empty.
pub open spec fn count_empty(b: Seq<Cell>) -> nat {
    count_cells(b, Cell::Empty)
}

/// A board with no empty cell left.
pub open spec fn board_full(b: Seq<Cell>) -> bool {
    forall|i: int| 0 <= i < 9 ==> b[i] != Cell::Empty
}

/// How one update changes each cell count: the count of the new mark gains
/// one, the count of the overwritten mark loses one, all others keep.
pub proof fn lemma_count_update(b: Seq<Cell>, d: Cell, i: int, c: Cell, n: int)
    requires
        0 <= i < b.len(),
        n <= b.len(),
    ensures
        n <= i ==> count_to(b.update(i, c), d, n) == count_to(b, d, n),
        i < n ==> count_to(b.update(i, c), d, n) as int == count_to(b, d, n) as int + (if c == d {
            1int
        } else {
            0int
        }) - (if b[i] == d {
            1int
        } else {
            0int
        }),
    decreases n,
{
    if n > 0 {
        lemma_count_update(b, d, i, c, n - 1);
    }
}

/// On a board whose cells are all empty, every mark count is zero.
pub proof fn lemma_count_empty_board(b: Seq<Cell>, d: Cell, n: int)
    requires
        0 <= n <= 9,
        forall|i: int| 0 <= i < 9 ==> b[i] == Cell::Empty,
    ensures
        count_to(b, d, n) == if d == Cell::Empty {
            n as nat
        } else {
            0nat
        },
    decreases n,
{
    if n > 0 {
        lemma_count_empty_board(b, d, n - 1);
    }
}

/// The 3x3 grid in row-major order: cells 0-2 are the top row, 3-5 the
/// middle row, 6-8 the bottom row.
pub struct Board {
    cells: Vec<Cell>,
}

impl View for Board {
    type V = Seq<Cell>;

    closed spec fn view(&self) -> Seq<Cell> {
        self.cells@
    }
}

impl Board {
    /// Every board has exactly 9 cells; `use_type_invariant` recovers this.
    #[verifier::type_invariant]
    pub open spec fn wf(self) -> bool {
        self@.len() == 9
    }

    /// An empty board.
    pub fn new() -> (b: Board)
        ensures
            b@.len() == 9,
            forall|i: int| 0 <= i < 9 ==> b@[i] == Cell::Empty,
    {
        let mut cells: Vec<Cell> = Vec::new();
        let mut i: usize = 0;
        while i < 9
            invariant
                i <= 9,
                cells@.len() == i,
                forall|j: int| 0 <= j < i ==> cells@[j] == Cell::Empty,
            decreases 9 - i,
        {
            cells.push(Cell::Empty);
            i += 1;
        }
        Board { cells }
    }

    /// The cell at `i`.
    pub fn cell(&self, i: usize) -> (c: Cell)
        requires
            i < 9,
        ensures
            c == self@[i as int],
    {
        proof {
            use_type_invariant(self);
        }
        self.cells[i]
    }

    /// Write `p`'s mark on the empty cell `i`.
    pub fn place(&mut self, i: usize, p: Player)
        requires
            i < 9,
            old(self)@[i as int] == Cell::Empty,
        ensures
            final(self)@ == old(self)@.update(i as int, mark_of(p)),
    {
        proof {
            use_type_invariant(&*self);
        }
        let m = match p {
            Player::X => Cell::X,
            Player::O => Cell::O,
        };
        self.cells[i] = m;
    }

    /// An identical copy of the board.
    pub fn duplicate(&self) -> (b: Board)
        ensures
            b@ == self@,
    {
        proof {
            use_type_invariant(self);
        }
        let mut cells: Vec<Cell> = Vec::new();
        let mut i: usize = 0;
        while i < 9
            invariant
                i <= 9,
                self@.len() == 9,
                cells@.len() == i,
                forall|j: int| 0 <= j < i ==> cells@[j] == self@[j],
            decreases 9 - i,
        {
            cells.push(self.cell(i));
            i += 1;
        }
        proof {
            assert(cells@ =~= self@);
        }
        Board { cells }
    }

    /// Whether no empty cell remains.
    pub fn is_full(&self) -> (r: bool)
        ensures
            r == board_full(self@),
    {
        proof {
            use_type_invariant(self);
        }
        let mut i: usize = 0;
        while i < 9
            invariant
                i <= 9,
                self@.len() == 9,
                forall|j: int| 0 <= j < i ==> self@[j] != Cell::Empty,
            decreases 9 - i,
        {
            if self.cell(i) == Cell::Empty {
                return false;
            }
            i += 1;
        }
        true
    }
}

} // verus!
