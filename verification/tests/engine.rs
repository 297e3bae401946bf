use tic_tac_toe_advanced::board::{Board, Cell};
use tic_tac_toe_advanced::models::Player;
use tic_tac_toe_advanced::outcome::{evaluate, Outcome};

fn board_of(cells: [char; 9]) -> Board {
    let mut b = Board::new();
    for (i, c) in cells.iter().enumerate() {
        match c {
            'X' => b.place(i, Player::X),
            'O' => b.place(i, Player::O),
            _ => {}
        }
    }
    b
}

#[test]
fn new_board_is_empty() {
    let b = Board::new();
    for i in 0..9 {
        assert_eq!(b.cell(i), Cell::Empty);
    }
    assert!(!b.is_full());
}

#[test]
fn place_writes_the_mark() {
    let mut b = Board::new();
    b.place(4, Player::X);
    b.place(0, Player::O);
    assert_eq!(b.cell(4), Cell::X);
    assert_eq!(b.cell(0), Cell::O);
    assert_eq!(b.cell(1), Cell::Empty);
}

#[test]
fn empty_board_in_progress() {
    let b = Board::new();
    assert_eq!(evaluate(&b), Outcome::InProgress);
}

#[test]
fn each_completed_line_wins_for_its_owner() {
    let lines: [[usize; 3]; 8] = [
        [0, 1, 2],
        [3, 4, 5],
        [6, 7, 8],
        [0, 3, 6],
        [1, 4, 7],
        [2, 5, 8],
        [0, 4, 8],
        [2, 4, 6],
    ];
    for cells in lines.iter() {
        for p in [Player::X, Player::O] {
            let mut b = Board::new();
            for &i in cells.iter() {
                b.place(i, p);
            }
            assert!(matches!(evaluate(&b), Outcome::Won(q) if q == p));
        }
    }
}

#[test]
fn five_marks_no_line_in_progress() {
    let b = board_of(['X', 'X', ' ', 'O', 'O', ' ', ' ', ' ', 'X']);
    assert_eq!(evaluate(&b), Outcome::InProgress);
}

#[test]
fn full_board_no_line_is_draw() {
    let b = board_of(['X', 'X', 'O', 'O', 'O', 'X', 'X', 'O', 'X']);
    assert!(b.is_full());
    assert_eq!(evaluate(&b), Outcome::Draw);
}

#[test]
fn won_row_with_other_marks_detected() {
    let b = board_of(['O', 'O', ' ', 'X', 'X', 'X', 'O', ' ', ' ']);
    assert_eq!(evaluate(&b), Outcome::Won(Player::X));
}
