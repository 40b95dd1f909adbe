use blobwars::game::Board;
use blobwars::game::CellState;
use blobwars::game::CellState::Free;
use blobwars::game::CellState::Player;
use blobwars::game::CellState::Restricted;
use blobwars::game::Player::Blue;
use blobwars::game::Player::Red;

fn check(row: usize, column: usize, expected: Vec<CellState>) {
    let board = vec![Free; 25];
    let tested = Board::new(5, 5, board);

    let mut cells = vec![Free; 25];
    for (i, j) in tested.neighbors(row, column, 1) {
        cells[i * 5 + j] = Restricted;
    }

    let tested = Board::new(5, 5, cells);
    let expected = Board::new(5, 5, expected);
    assert_eq!(tested, expected);
}

#[test]
fn mid() {
    let expected = vec![
        Free, Free,       Free,       Free,       Free,
        Free, Restricted, Restricted, Restricted, Free,
        Free, Restricted, Restricted, Restricted, Free,
        Free, Restricted, Restricted, Restricted, Free,
        Free, Free,       Free,       Free,       Free,
    ];

    check(2, 2, expected);
}

#[test]
fn top() {
    let expected = vec![
        Free, Restricted, Restricted, Restricted, Free,
        Free, Restricted, Restricted, Restricted, Free,
        Free, Free,       Free,       Free,       Free,
        Free, Free,       Free,       Free,       Free,
        Free, Free,       Free,       Free,       Free,
    ];

    check(0, 2, expected);
}

#[test]
fn bottom() {
    let expected = vec![
        Free, Free,       Free,       Free,       Free,
        Free, Free,       Free,       Free,       Free,
        Free, Free,       Free,       Free,       Free,
        Free, Restricted, Restricted, Restricted, Free,
        Free, Restricted, Restricted, Restricted, Free,
    ];

    check(4, 2, expected);
}

#[test]
fn game_left() {
    let expected = vec![
        Free,       Free,       Free, Free, Free,
        Restricted, Restricted, Free, Free, Free,
        Restricted, Restricted, Free, Free, Free,
        Restricted, Restricted, Free, Free, Free,
        Free,       Free,       Free, Free, Free,
    ];

    check(2, 0, expected);
}

#[test]
fn game_right() {
    let expected = vec![
        Free, Free, Free, Free,       Free,
        Free, Free, Free, Restricted, Restricted,
        Free, Free, Free, Restricted, Restricted,
        Free, Free, Free, Restricted, Restricted,
        Free, Free, Free, Free,       Free,
    ];

    check(2, 4, expected);
}

#[test]
fn top_left() {
    let expected = vec![
        Restricted, Restricted, Free, Free, Free,
        Restricted, Restricted, Free, Free, Free,
        Free,       Free,       Free, Free, Free,
        Free,       Free,       Free, Free, Free,
        Free,       Free,       Free, Free, Free,
    ];

    check(0, 0, expected);
}

#[test]
fn bottom_left() {
    let expected = vec![
        Free,       Free,       Free, Free, Free,
        Free,       Free,       Free, Free, Free,
        Free,       Free,       Free, Free, Free,
        Restricted, Restricted, Free, Free, Free,
        Restricted, Restricted, Free, Free, Free,
    ];

    check(4, 0, expected);
}

#[test]
fn top_right() {
    let expected = vec![
        Free, Free, Free, Restricted, Restricted,
        Free, Free, Free, Restricted, Restricted,
        Free, Free, Free, Free,       Free,
        Free, Free, Free, Free,       Free,
        Free, Free, Free, Free,       Free,
    ];

    check(0, 4, expected);
}

#[test]
fn bottom_right() {
    let expected = vec![
        Free, Free, Free, Free,       Free,
        Free, Free, Free, Free,       Free,
        Free, Free, Free, Free,       Free,
        Free, Free, Free, Restricted, Restricted,
        Free, Free, Free, Restricted, Restricted,
    ];

    check(4, 4, expected);
}

#[test]
fn out_of_bound_column() {
    let expected = vec![
        Free, Free, Free, Free, Free,
        Free, Free, Free, Free, Free,
        Free, Free, Free, Free, Free,
        Free, Free, Free, Free, Free,
        Free, Free, Free, Free, Free,
    ];

    check(0, 5, expected);
}

#[test]
fn out_of_bound_row() {
    let expected = vec![
        Free, Free, Free, Free, Free,
        Free, Free, Free, Free, Free,
        Free, Free, Free, Free, Free,
        Free, Free, Free, Free, Free,
        Free, Free, Free, Free, Free,
    ];

    check(5, 0, expected);
}

fn check_jump(
    from: (usize, usize),
    to: (usize, usize),
    tested: Vec<CellState>,
    expected: Vec<CellState>,
    expected_status: bool,
) {
    let mut tested = Board::new(5, 5, tested);
    let tested_status = tested.jump(from, to);
    assert_eq!(tested_status, expected_status);
    let expected = Board::new(5, 5, expected);
    assert_eq!(tested, expected);
}

#[test]
fn game_jump() {
    let tested = vec![
        Player(Red), Player(Red),  Free,       Free,       Free,
        Player(Red), Player(Red),  Restricted, Free,       Free,
        Free,        Player(Blue), Free,       Restricted, Free,
        Free,        Free,         Free,       Free,       Player(Blue),
        Free,        Free,         Free,       Free,       Player(Blue),
    ];

    let expected = vec![
        Player(Red), Player(Red),  Free,        Free,        Free,
        Player(Red), Free,         Restricted,  Free,        Free,
        Free,        Player(Blue), Free,        Restricted,  Free,
        Free,        Free,         Free,        Player(Red), Player(Red),
        Free,        Free,         Free,        Free,        Player(Red),
    ];

    check_jump((1, 1), (3, 3), tested, expected, true);
}

#[test]
fn game_spread() {
    let tested = vec![
        Player(Red), Player(Red),  Free,       Free,       Free,
        Player(Red), Player(Red),  Restricted, Free,       Free,
        Free,        Player(Blue), Free,       Restricted, Free,
        Free,        Free,         Free,       Free,       Player(Blue),
        Free,        Free,         Free,       Free,       Player(Blue),
    ];

    let expected = vec![
        Player(Red), Player(Red), Free,        Free,       Free,
        Player(Red), Player(Red), Restricted,  Free,       Free,
        Free,        Player(Red), Player(Red), Restricted, Free,
        Free,        Free,        Free,        Free,       Player(Blue),
        Free,        Free,        Free,        Free,       Player(Blue),
    ];

    check_jump((1, 1), (2, 2), tested, expected, true);
}

fn check_illegal(from: (usize, usize), to: (usize, usize)) {
    let tested = vec![
        Player(Red), Player(Red),  Free,       Free,       Free,
        Player(Red), Player(Red),  Restricted, Free,       Free,
        Free,        Player(Blue), Free,       Restricted, Free,
        Free,        Free,         Free,       Free,       Player(Blue),
        Free,        Free,         Free,       Free,       Player(Blue),
    ];

    let expected = tested.clone();

    check_jump(from, to, tested, expected, false);
}

#[test]
fn bad_distance() {
    check_illegal((1, 1), (4, 4));
}

#[test]
fn no_move() {
    check_illegal((1, 1), (1, 1));
}

#[test]
fn not_playable() {
    check_illegal((2, 2), (2, 3));
}

#[test]
fn occupied() {
    check_illegal((1, 1), (0, 1));
}

#[test]
fn outside() {
    check_illegal((4, 4), (5, 5));
    check_illegal((5, 5), (4, 4));
    check_illegal((5, 5), (5, 5));
}

#[test]
fn restricted() {
    check_illegal((1, 1), (2, 1));
}
