use blobwars::game::Board;
use blobwars::game::CellState;
use blobwars::game::Player;
use blobwars::game::Score;
use blobwars::ApplicationState;
use blobwars::Command;
use blobwars::CommandManaged;
use blobwars::control::BoardState;

/// A small game: the red player in the top-left corner, the blue player
/// in the bottom-right corner and one restricted cell in the middle of a
/// 5 by 5 grid.
fn scenario_board() -> Board {
    let mut cells = vec![CellState::Free; 25];
    cells[0] = CellState::Player(Player::Red);
    cells[2 * 5 + 2] = CellState::Restricted;
    cells[4 * 5 + 4] = CellState::Player(Player::Blue);
    Board::new(5, 5, cells)
}

#[test]
fn cursor_starts_at_origin() {
    let state = BoardState::new(scenario_board(), Player::Red);
    assert_eq!(state.selected(), (0, 0));
    assert_eq!(state.from(), None);
    assert_eq!(state.to(), None);
    assert_eq!(state.current_player(), Player::Red);
    assert_eq!(state.height(), 5);
    assert_eq!(state.width(), 5);
}

#[test]
fn cursor_left_stops_at_edge() {
    let mut state = BoardState::new(scenario_board(), Player::Red);
    state.right();
    state.left();
    assert_eq!(state.selected(), (0, 0));
    state.left();
    assert_eq!(state.selected(), (0, 0));
}

#[test]
fn cursor_right() {
    let mut state = BoardState::new(scenario_board(), Player::Red);
    state.right();
    assert_eq!(state.selected(), (0, 1));
}

#[test]
fn cursor_up_stops_at_edge() {
    let mut state = BoardState::new(scenario_board(), Player::Red);
    state.down();
    state.up();
    assert_eq!(state.selected(), (0, 0));
    state.up();
    assert_eq!(state.selected(), (0, 0));
}

#[test]
fn cursor_down() {
    let mut state = BoardState::new(scenario_board(), Player::Red);
    state.down();
    assert_eq!(state.selected(), (1, 0));
}

#[test]
fn cursor_stops_at_far_edges() {
    let mut state = BoardState::new(scenario_board(), Player::Red);
    for _ in 0..6 {
        state.right();
        state.down();
    }
    assert_eq!(state.selected(), (4, 4));
}

#[test]
fn select_cycle() {
    let mut state = BoardState::new(scenario_board(), Player::Red);

    // No selection yet: the first confirmation picks the origin.
    state.select();
    assert_eq!(state.from(), Some((0, 0)));
    assert_eq!(state.to(), None);

    // Origin pending: the second confirmation picks the destination.
    state.down();
    state.select();
    assert_eq!(state.from(), Some((0, 0)));
    assert_eq!(state.to(), Some((1, 0)));

    // Both pending: the third confirmation attempts the move and clears
    // both selections.
    state.select();
    assert_eq!(state.from(), None);
    assert_eq!(state.to(), None);
    assert_eq!(state.board().get(0, 0), Some(CellState::Player(Player::Red)));
    assert_eq!(state.board().get(1, 0), Some(CellState::Player(Player::Red)));
    assert_eq!(state.board().score(), Score { red: 2, blue: 1 });
}

#[test]
fn select_needs_own_piece() {
    let mut state = BoardState::new(scenario_board(), Player::Blue);
    // The cursor sits on the red piece, but blue is to move: no-op.
    state.select();
    assert_eq!(state.from(), None);

    // A free cell is no origin either.
    state.down();
    state.select();
    assert_eq!(state.from(), None);
}

#[test]
fn select_needs_free_destination() {
    let mut state = BoardState::new(scenario_board(), Player::Red);
    state.select();
    assert_eq!(state.from(), Some((0, 0)));

    // The origin cell itself is occupied: not a destination.
    state.select();
    assert_eq!(state.to(), None);

    // A restricted cell is not a destination.
    state.down();
    state.down();
    state.right();
    state.right();
    state.select();
    assert_eq!(state.to(), None);
}

#[test]
fn controller_jump_relocates() {
    let mut state = BoardState::new(scenario_board(), Player::Red);
    state.select();
    state.down();
    state.down();
    state.select();
    state.select();
    assert_eq!(state.board().get(0, 0), Some(CellState::Free));
    assert_eq!(state.board().get(2, 0), Some(CellState::Player(Player::Red)));
    assert_eq!(state.board().score(), Score { red: 1, blue: 1 });
}

#[test]
fn controller_spread_clones() {
    let mut state = BoardState::new(scenario_board(), Player::Red);
    state.select();
    state.down();
    state.select();
    state.select();
    assert_eq!(state.board().get(0, 0), Some(CellState::Player(Player::Red)));
    assert_eq!(state.board().get(1, 0), Some(CellState::Player(Player::Red)));
    assert_eq!(state.board().score(), Score { red: 2, blue: 1 });
}

#[test]
fn controller_blob_captures() {
    let mut state = BoardState::new(scenario_board(), Player::Red);
    state.select();
    state.down();
    state.right();
    state.select();
    state.select();

    state.select();
    state.down();
    state.right();
    state.down();
    state.right();
    state.select();
    state.select();

    assert_eq!(state.board().get(1, 1), Some(CellState::Free));
    assert_eq!(state.board().get(3, 3), Some(CellState::Player(Player::Red)));
    assert_eq!(state.board().get(4, 4), Some(CellState::Player(Player::Red)));
    assert_eq!(state.board().score(), Score { red: 3, blue: 0 });
}

#[test]
fn reset_unwinds_selections() {
    let mut state = BoardState::new(scenario_board(), Player::Red);
    state.select();
    state.down();
    state.select();
    assert_eq!(state.from(), Some((0, 0)));
    assert_eq!(state.to(), Some((1, 0)));

    state.reset();
    assert_eq!(state.from(), Some((0, 0)));
    assert_eq!(state.to(), None);

    state.reset();
    assert_eq!(state.from(), None);
    assert_eq!(state.to(), None);

    state.reset();
    assert_eq!(state.from(), None);
    assert_eq!(state.to(), None);
    assert_eq!(state.selected(), (1, 0));
}

#[test]
fn pass_to_next_player_toggles() {
    let mut state = BoardState::new(scenario_board(), Player::Red);
    state.pass_to_next_player();
    assert_eq!(state.current_player(), Player::Blue);
    state.pass_to_next_player();
    assert_eq!(state.current_player(), Player::Red);
}

#[test]
fn commands_drive_the_controller() {
    let mut state = BoardState::new(scenario_board(), Player::Red);
    state.handle_command(Command::Down);
    assert_eq!(state.selected(), (1, 0));
    state.handle_command(Command::Up);
    state.handle_command(Command::Select);
    assert_eq!(state.from(), Some((0, 0)));
    // A confirmation hands the turn over even when it selects nothing.
    assert_eq!(state.current_player(), Player::Blue);
    state.handle_command(Command::Reset);
    assert_eq!(state.from(), None);
    state.handle_command(Command::Back);
    assert_eq!(state.selected(), (0, 0));
    assert_eq!(state.current_player(), Player::Blue);
}

#[test]
fn select_advances_turn_even_on_noop() {
    let mut state = BoardState::new(scenario_board(), Player::Blue);
    // The cursor sits on the red piece: the confirmation is a no-op, yet
    // the turn passes to the opponent.
    state.handle_command(Command::Select);
    assert_eq!(state.from(), None);
    assert_eq!(state.current_player(), Player::Red);
}

fn drive(managed: &mut impl CommandManaged, command: Command) {
    managed.handle_command(command);
}

#[test]
fn command_managed_dispatch() {
    let mut state = BoardState::new(scenario_board(), Player::Red);
    drive(&mut state, Command::Down);
    assert_eq!(state.selected(), (1, 0));

    let mut application = ApplicationState::default();
    drive(&mut application, Command::Exit);
    assert!(application.has_exited());
}

#[test]
fn application_starts_on_logo() {
    let application = ApplicationState::default();
    assert!(!application.has_exited());
    assert!(matches!(application, ApplicationState::Logo));
}

#[test]
fn application_select_starts_a_game() {
    let mut application = ApplicationState::default();
    application.handle_command(Command::Select);
    match &application {
        ApplicationState::Board(state) => {
            assert_eq!(state.height(), 8);
            assert_eq!(state.width(), 8);
            assert_eq!(state.current_player(), Player::Blue);
            assert_eq!(state.selected(), (0, 0));
            assert_eq!(
                state.board().get(0, 0),
                Some(CellState::Player(Player::Red)),
            );
            assert_eq!(
                state.board().get(7, 7),
                Some(CellState::Player(Player::Blue)),
            );
            assert_eq!(state.board().get(3, 3), Some(CellState::Free));
            assert_eq!(state.board().score(), Score { red: 1, blue: 1 });
        },
        _ => panic!("selecting on the logo screen must start a game"),
    }
}

#[test]
fn application_back_walks_screens() {
    let mut application = ApplicationState::default();
    application.handle_command(Command::Select);
    application.handle_command(Command::Back);
    assert!(matches!(application, ApplicationState::Logo));
    application.handle_command(Command::Back);
    assert!(application.has_exited());
    application.handle_command(Command::Back);
    assert!(application.has_exited());
}

#[test]
fn application_exit_exits_anywhere() {
    let mut application = ApplicationState::default();
    application.handle_command(Command::Exit);
    assert!(application.has_exited());

    let mut application = ApplicationState::default();
    application.handle_command(Command::Select);
    application.handle_command(Command::Exit);
    assert!(application.has_exited());
}

#[test]
fn application_routes_game_commands() {
    let mut application = ApplicationState::default();
    application.handle_command(Command::Select);
    application.handle_command(Command::Down);
    application.handle_command(Command::Right);
    match &application {
        ApplicationState::Board(state) => {
            assert_eq!(state.selected(), (1, 1));
        },
        _ => panic!("the game must still be running"),
    }
}
