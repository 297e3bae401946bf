use tic_tac_toe_advanced::board::Cell;
use tic_tac_toe_advanced::models::Player;
use tic_tac_toe_advanced::session::{GameSession, GameState};

fn snapshot(s: &GameSession) -> Vec<Cell> {
    let mut cells = Vec::new();
    for i in 0..9 {
        cells.push(s.board().cell(i));
    }
    cells
}

fn first_empty_cell(s: &GameSession) -> usize {
    for i in 0..9 {
        if s.board().cell(i) == Cell::Empty {
            return i;
        }
    }
    panic!("board is full");
}

#[test]
fn round_starts_awaiting_human_when_human_is_x() {
    let s = GameSession::new(Player::X);
    assert_eq!(s.state(), GameState::AwaitingHumanMove);
    assert_eq!(s.turn(), Player::X);
    assert_eq!(s.human_player(), Player::X);
    assert_eq!(snapshot(&s), vec![Cell::Empty; 9]);
}

#[test]
fn round_starts_with_computer_when_human_is_o() {
    let s = GameSession::new(Player::O);
    assert_eq!(s.state(), GameState::ComputerMoving);
    assert_eq!(s.turn(), Player::X);
    assert_eq!(s.human_player(), Player::O);
}

#[test]
fn valid_selection_places_mark_and_passes_turn() {
    let mut s = GameSession::new(Player::X);
    s.select_cell(4);
    assert_eq!(s.board().cell(4), Cell::X);
    assert_eq!(s.state(), GameState::ComputerMoving);
    assert_eq!(s.turn(), Player::O);
}

#[test]
fn occupied_selection_changes_nothing() {
    let mut s = GameSession::new(Player::X);
    s.select_cell(4);
    s.computer_move();
    assert_eq!(s.state(), GameState::AwaitingHumanMove);
    let before = snapshot(&s);
    s.select_cell(4);
    assert_eq!(s.state(), GameState::AwaitingHumanMove);
    assert_eq!(snapshot(&s), before);
    assert_eq!(s.turn(), Player::X);
}

#[test]
fn out_of_range_selection_changes_nothing() {
    let mut s = GameSession::new(Player::X);
    let before = snapshot(&s);
    s.select_cell(9);
    assert_eq!(s.state(), GameState::AwaitingHumanMove);
    assert_eq!(snapshot(&s), before);
}

#[test]
fn selection_in_computer_phase_changes_nothing() {
    let mut s = GameSession::new(Player::O);
    let before = snapshot(&s);
    s.select_cell(0);
    assert_eq!(s.state(), GameState::ComputerMoving);
    assert_eq!(snapshot(&s), before);
}

#[test]
fn quit_while_awaiting_human_keeps_board() {
    let mut s = GameSession::new(Player::X);
    s.select_cell(0);
    s.computer_move();
    let before = snapshot(&s);
    s.request_quit();
    assert_eq!(s.state(), GameState::Quit);
    assert_eq!(snapshot(&s), before);
}

#[test]
fn quit_while_computer_moving_keeps_board() {
    let mut s = GameSession::new(Player::O);
    let before = snapshot(&s);
    s.request_quit();
    assert_eq!(s.state(), GameState::Quit);
    assert_eq!(snapshot(&s), before);
}

#[test]
fn quit_in_terminal_phase_changes_nothing() {
    let mut s = GameSession::new(Player::X);
    loop {
        match s.state() {
            GameState::AwaitingHumanMove => {
                let i = first_empty_cell(&s);
                s.select_cell(i);
            }
            GameState::ComputerMoving => s.computer_move(),
            _ => break,
        }
    }
    let terminal = s.state();
    let before = snapshot(&s);
    s.request_quit();
    assert_eq!(s.state(), terminal);
    assert_eq!(snapshot(&s), before);
}

#[test]
fn computer_never_loses_a_round_to_first_empty_play() {
    let mut s = GameSession::new(Player::X);
    loop {
        match s.state() {
            GameState::AwaitingHumanMove => {
                let i = first_empty_cell(&s);
                s.select_cell(i);
            }
            GameState::ComputerMoving => s.computer_move(),
            GameState::Won(p) => {
                assert_eq!(p, Player::O);
                break;
            }
            GameState::Draw => break,
            GameState::Quit => panic!("round quit unexpectedly"),
        }
    }
}
