use tic_tac_toe_advanced::models::{Player, Tabs};

#[test]
fn player_char_marks() {
    assert_eq!(Player::X.char(), 'X');
    assert_eq!(Player::O.char(), 'O');
}

#[test]
fn player_others_swaps_sides() {
    assert_eq!(Player::X.others(), Player::O);
    assert_eq!(Player::O.others(), Player::X);
    assert_eq!(Player::X.others().others(), Player::X);
}

#[test]
fn tabs_starts_on_first_entry() {
    let tabs = Tabs::new(vec![(17u16, 13u16, Player::X), (22u16, 13u16, Player::O)]);
    assert_eq!(tabs.positions(), (17, 13));
    assert_eq!(*tabs.value(), Player::X);
}

#[test]
fn tabs_next_cycles_forward() {
    let mut tabs = Tabs::new(vec![(17u16, 13u16, Player::X), (22u16, 13u16, Player::O)]);
    tabs.next();
    assert_eq!(tabs.positions(), (22, 13));
    assert_eq!(*tabs.value(), Player::O);
    tabs.next();
    assert_eq!(*tabs.value(), Player::X);
}

#[test]
fn tabs_prev_wraps_to_last() {
    let mut tabs = Tabs::new(vec![(15u16, 9u16, 0usize), (19u16, 9u16, 1usize), (23u16, 9u16, 2usize)]);
    tabs.prev();
    assert_eq!(*tabs.value(), 2);
    assert_eq!(tabs.positions(), (23, 9));
    tabs.prev();
    assert_eq!(*tabs.value(), 1);
}

#[test]
fn tabs_full_cycle_returns_home() {
    let mut tabs = Tabs::new(vec![
        (15u16, 9u16, 0usize),
        (19u16, 9u16, 1usize),
        (23u16, 9u16, 2usize),
        (15u16, 11u16, 3usize),
    ]);
    for _ in 0..4 {
        tabs.next();
    }
    assert_eq!(*tabs.value(), 0);
    tabs.next();
    tabs.prev();
    assert_eq!(*tabs.value(), 0);
}
