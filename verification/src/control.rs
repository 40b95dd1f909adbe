//! The turn controller: cursor-driven selection of a move, the command
//! surface that drives it and the application state around it.

use crate::game::Board;
use crate::game::CellState;
use crate::game::GridView;
use crate::game::count_cells;
use crate::game::Index;
use crate::game::Player;
use crate::game::Score;
use vstd::prelude::*;

verus! {

/// Commands used to perform actions based on user inputs.
#[derive(Clone, Copy, Debug, PartialEq, Eq, Hash, Structural)]
pub enum Command {
    /// Go back.
    Back,

    /// Exit.
    Exit,

    /// Reset current progress.
    Reset,

    /// Select the item under the cursor.
    Select,

    /// Go left.
    Left,

    /// Go right.
    Right,

    /// Go up.
    Up,

    /// Go down.
    Down,
}

/// The mathematical contents of a [`BoardState`].
#[verifier::ext_equal]
pub ghost struct BoardStateView {
    /// The grid and its score.
    pub board: GridView,
    /// The player whose turn it is.
    pub current_player: Player,
    /// The cursor position.
    pub selected: Index,
    /// The pending departure position, if one was confirmed.
    pub from: Option<Index>,
    /// The pending destination position, if one was confirmed.
    pub to: Option<Index>,
}

impl BoardStateView {
    /// Well-formedness: the grid is well-formed and the cursor sits on the
    /// board, or at the origin of an unenterable board.
    pub open spec fn wf(self) -> bool {
        &&& self.board.wf()
        &&& self.board.contains(self.selected.0 as int, self.selected.1 as int) || self.selected
            == (0usize, 0usize)
    }

    /// The view with the cursor moved to `target` when that position lies
    /// on the board, unchanged otherwise: the cursor never leaves the grid
    /// and never wraps around.
    pub open spec fn cursor_moved(self, target: Index) -> BoardStateView {
        if self.board.contains(target.0 as int, target.1 as int) {
            BoardStateView { selected: target, ..self }
        } else {
            self
        }
    }

    /// Where a step to the left points: one column down, stopping at zero.
    pub open spec fn left_target(self) -> Index {
        (
            self.selected.0,
            if self.selected.1 == 0 {
                0usize
            } else {
                (self.selected.1 - 1) as usize
            },
        )
    }

    /// Where a step to the right points.
    pub open spec fn right_target(self) -> Index {
        (self.selected.0, (self.selected.1 + 1) as usize)
    }

    /// Where a step up points: one row down, stopping at zero.
    pub open spec fn up_target(self) -> Index {
        (
            if self.selected.0 == 0 {
                0usize
            } else {
                (self.selected.0 - 1) as usize
            },
            self.selected.1,
        )
    }

    /// Where a step down points.
    pub open spec fn down_target(self) -> Index {
        ((self.selected.0 + 1) as usize, self.selected.1)
    }

    /// The view after a cancellation: the destination is cleared if one is
    /// pending, else the origin; with nothing pending nothing happens.
    pub open spec fn after_reset(self) -> BoardStateView {
        if self.to is Some {
            BoardStateView { to: None, ..self }
        } else {
            BoardStateView { from: None, ..self }
        }
    }

    /// The cell under the cursor, if the cursor lies on the board.
    pub open spec fn cursor_cell(self) -> Option<CellState> {
        if self.board.contains(self.selected.0 as int, self.selected.1 as int) {
            Some(self.board.at(self.selected.0 as int, self.selected.1 as int))
        } else {
            None
        }
    }

    /// The view after a confirmation.
    ///
    /// With no origin pending, the cell under the cursor becomes the origin
    /// when the current player occupies it. With an origin but no
    /// destination, the cell under the cursor becomes the destination when
    /// it is free. With both pending, the jump is attempted and both
    /// selections are cleared whether or not the move was legal.
    pub open spec fn after_select(self) -> BoardStateView {
        match self.from {
            Some(f) => match self.to {
                Some(t) => BoardStateView {
                    board: self.board.after_jump(f, t),
                    from: None,
                    to: None,
                    ..self
                },
                None => if self.cursor_cell() == Some(CellState::Free) {
                    BoardStateView { to: Some(self.selected), ..self }
                } else {
                    self
                },
            },
            None => if self.cursor_cell() == Some(CellState::Player(self.current_player)) {
                BoardStateView { from: Some(self.selected), ..self }
            } else {
                self
            },
        }
    }

    /// The view with the turn handed to the opponent.
    pub open spec fn after_pass(self) -> BoardStateView {
        BoardStateView { current_player: self.current_player.spec_opponent(), ..self }
    }

    /// The view after one command is handled.
    ///
    /// A selection also hands the turn to the opponent, whether or not the
    /// confirmation changed anything. Back and exit concern the screens
    /// above the controller and leave it unchanged.
    pub open spec fn after_command(self, command: Command) -> BoardStateView {
        match command {
            Command::Reset => self.after_reset(),
            Command::Select => self.after_select().after_pass(),
            Command::Left => self.cursor_moved(self.left_target()),
            Command::Right => self.cursor_moved(self.right_target()),
            Command::Up => self.cursor_moved(self.up_target()),
            Command::Down => self.cursor_moved(self.down_target()),
            _ => self,
        }
    }
}

/// State of the turn controller.
///
/// The state owns one [`Board`], tracks whose turn it is, and sequences two
/// cursor-driven confirmations (departure, destination) into one
/// [`jump`](Board::jump).
#[derive(Debug)]
pub struct BoardState {
    board: Board,
    current_player: Player,
    selected: Index,
    from: Option<Index>,
    to: Option<Index>,
}

impl View for BoardState {
    type V = BoardStateView;

    closed spec fn view(&self) -> BoardStateView {
        BoardStateView {
            board: self.board@,
            current_player: self.current_player,
            selected: self.selected,
            from: self.from,
            to: self.to,
        }
    }
}

impl BoardState {
    /// Create a new controller around the given board, with the cursor at
    /// the origin, nothing selected and the given player to move first.
    pub fn new(board: Board, current_player: Player) -> (r: BoardState)
        requires
            board@.wf(),
        ensures
            r@.wf(),
            r@ == (BoardStateView {
                board: board@,
                current_player,
                selected: (0usize, 0usize),
                from: None,
                to: None,
            }),
    {
        BoardState { board, current_player, selected: (0, 0), from: None, to: None }
    }

    /// Get the height of the board.
    pub fn height(&self) -> (r: usize)
        ensures
            r == self@.board.height,
    {
        self.board.height()
    }

    /// Get the width of the board.
    pub fn width(&self) -> (r: usize)
        ensures
            r == self@.board.width,
    {
        self.board.width()
    }

    /// Get the board.
    pub fn board(&self) -> (r: &Board)
        ensures
            r@ == self@.board,
    {
        &self.board
    }

    /// Get the cursor position.
    pub fn selected(&self) -> (r: Index)
        ensures
            r == self@.selected,
    {
        self.selected
    }

    /// Get the pending departure position.
    pub fn from(&self) -> (r: Option<Index>)
        ensures
            r == self@.from,
    {
        self.from
    }

    /// Get the pending destination position.
    pub fn to(&self) -> (r: Option<Index>)
        ensures
            r == self@.to,
    {
        self.to
    }

    /// Get the player whose turn it is.
    pub fn current_player(&self) -> (r: Player)
        ensures
            r == self@.current_player,
    {
        self.current_player
    }

    /// Move the cursor to `target` when that position lies on the board;
    /// leave it unchanged otherwise.
    fn move_cursor(&mut self, target: Index)
        requires
            old(self)@.wf(),
        ensures
            final(self)@.wf(),
            final(self)@ == old(self)@.cursor_moved(target),
    {
        if self.board.contains(target.0, target.1) {
            self.selected = target;
        }
    }

    /// Move the cursor one cell to the left.
    pub fn left(&mut self)
        requires
            old(self)@.wf(),
        ensures
            final(self)@.wf(),
            final(self)@ == old(self)@.cursor_moved(old(self)@.left_target()),
    {
        let target = (
            self.selected.0,
            if self.selected.1 == 0 {
                0
            } else {
                self.selected.1 - 1
            },
        );
        self.move_cursor(target);
    }

    /// Move the cursor one cell to the right.
    pub fn right(&mut self)
        requires
            old(self)@.wf(),
        ensures
            final(self)@.wf(),
            final(self)@ == old(self)@.cursor_moved(old(self)@.right_target()),
    {
        let target = (self.selected.0, self.selected.1 + 1);
        self.move_cursor(target);
    }

    /// Move the cursor one cell up.
    pub fn up(&mut self)
        requires
            old(self)@.wf(),
        ensures
            final(self)@.wf(),
            final(self)@ == old(self)@.cursor_moved(old(self)@.up_target()),
    {
        let target = (
            if self.selected.0 == 0 {
                0
            } else {
                self.selected.0 - 1
            },
            self.selected.1,
        );
        self.move_cursor(target);
    }

    /// Move the cursor one cell down.
    pub fn down(&mut self)
        requires
            old(self)@.wf(),
        ensures
            final(self)@.wf(),
            final(self)@ == old(self)@.cursor_moved(old(self)@.down_target()),
    {
        let target = (self.selected.0 + 1, self.selected.1);
        self.move_cursor(target);
    }

    /// Remove the last confirmed position: the destination if one is
    /// pending, else the origin. The cursor is untouched.
    pub fn reset(&mut self)
        requires
            old(self)@.wf(),
        ensures
            final(self)@.wf(),
            final(self)@ == old(self)@.after_reset(),
    {
        if self.to.is_some() {
            self.to = None;
        } else {
            self.from = None;
        }
    }

    /// Pass the turn to the next player: the opponent.
    pub fn pass_to_next_player(&mut self)
        requires
            old(self)@.wf(),
        ensures
            final(self)@.wf(),
            final(self)@ == old(self)@.after_pass(),
    {
        self.current_player = self.current_player.opponent();
    }

    /// Confirm the cell under the cursor.
    ///
    /// The first confirmation picks the departure cell, which must be
    /// occupied by the current player; the second picks the destination,
    /// which must be free; the third attempts the
    /// [jump](Board::jump) and clears both selections whether or not the
    /// move was legal. A confirmation whose cell does not qualify changes
    /// nothing.
    pub fn select(&mut self)
        requires
            old(self)@.wf(),
        ensures
            final(self)@.wf(),
            final(self)@ == old(self)@.after_select(),
    {
        let current_cell = self.board.get(self.selected.0, self.selected.1);
        match (self.from, self.to) {
            (Some(from), Some(to)) => {
                self.board.jump(from, to);
                self.from = None;
                self.to = None;
            },
            (Some(_), None) => {
                let destination_free = match current_cell {
                    Some(cell) => cell.is_free(),
                    None => false,
                };
                if destination_free {
                    self.to = Some(self.selected);
                }
            },
            (None, _) => {
                let origin_owned = match current_cell {
                    Some(CellState::Player(p)) => p == self.current_player,
                    _ => false,
                };
                if origin_owned {
                    self.from = Some(self.selected);
                }
            },
        }
    }

    /// Handle the given command: move the cursor, cancel, or confirm; a
    /// confirmation also hands the turn to the opponent, whether or not it
    /// changed anything.
    pub fn handle_command(&mut self, command: Command)
        requires
            old(self)@.wf(),
        ensures
            final(self)@.wf(),
            final(self)@ == old(self)@.after_command(command),
    {
        match command {
            Command::Reset => self.reset(),
            Command::Select => {
                self.select();
                self.pass_to_next_player();
            },
            Command::Left => self.left(),
            Command::Right => self.right(),
            Command::Up => self.up(),
            Command::Down => self.down(),
            _ => (),
        }
    }
}

/// Trait allowing to manage states with [commands](Command).
pub trait CommandManaged {
    /// The invariant that command handling preserves.
    spec fn inv(&self) -> bool;

    /// Handle the given command.
    fn handle_command(&mut self, command: Command)
        requires
            old(self).inv(),
        ensures
            final(self).inv(),
    ;
}

impl CommandManaged for BoardState {
    open spec fn inv(&self) -> bool {
        self@.wf()
    }

    fn handle_command(&mut self, command: Command) {
        BoardState::handle_command(self, command)
    }
}

/// The cells of the board a new game starts on: the red player in the
/// top-left corner and the blue player in the bottom-right corner of an
/// 8 by 8 grid, every other cell free.
pub open spec fn starting_cells() -> Seq<CellState> {
    Seq::new(
        64,
        |k: int|
            if k == 0 {
                CellState::Player(Player::Red)
            } else if k == 63 {
                CellState::Player(Player::Blue)
            } else {
                CellState::Free
            },
    )
}

/// The board a new game starts on.
pub open spec fn starting_grid() -> GridView {
    GridView {
        cells: starting_cells(),
        height: 8,
        width: 8,
        score: Score {
            red: count_cells(starting_cells(), Player::Red) as usize,
            blue: count_cells(starting_cells(), Player::Blue) as usize,
        },
    }
}

/// Create the board a new game starts on.
fn starting_board() -> (r: Board)
    ensures
        r@ == starting_grid(),
        r@.wf(),
{
    let mut cells: Vec<CellState> = Vec::new();
    cells.push(CellState::Player(Player::Red));
    let mut k: usize = 1;
    while k < 63
        invariant
            1 <= k <= 63,
            cells@.len() == k,
            cells@[0] == CellState::Player(Player::Red),
            forall|m: int| 1 <= m < k ==> cells@[m] == CellState::Free,
        decreases 63 - k,
    {
        cells.push(CellState::Free);
        k = k + 1;
    }
    cells.push(CellState::Player(Player::Blue));
    proof {
        assert(cells@ =~= starting_cells());
    }
    let board = Board::new(8, 8, cells);
    proof {
        assert(board@ =~= starting_grid());
    }
    board
}

/// The mathematical contents of an [`ApplicationState`].
#[verifier::ext_equal]
pub ghost enum ApplicationStateView {
    /// A game is running.
    Board(BoardStateView),
    /// The application has exited.
    Exit,
    /// The start screen.
    Logo,
}

impl ApplicationStateView {
    /// Well-formedness: a running game is well-formed.
    pub open spec fn wf(self) -> bool {
        match self {
            ApplicationStateView::Board(s) => s.wf(),
            _ => true,
        }
    }

    /// The view after one command is handled.
    ///
    /// Back moves one screen up: from the game to the logo, from the logo
    /// out. Exit exits from anywhere. A selection on the logo screen starts
    /// a game on the starting board with the blue player to move; every
    /// other command on the game screen is handed to the controller.
    pub open spec fn after_command(self, command: Command) -> ApplicationStateView {
        match command {
            Command::Back => match self {
                ApplicationStateView::Board(_) => ApplicationStateView::Logo,
                ApplicationStateView::Exit => ApplicationStateView::Exit,
                ApplicationStateView::Logo => ApplicationStateView::Exit,
            },
            Command::Exit => ApplicationStateView::Exit,
            _ => match self {
                ApplicationStateView::Board(s) => ApplicationStateView::Board(
                    s.after_command(command),
                ),
                ApplicationStateView::Exit => ApplicationStateView::Exit,
                ApplicationStateView::Logo => if command == Command::Select {
                    ApplicationStateView::Board(
                        BoardStateView {
                            board: starting_grid(),
                            current_player: Player::Blue,
                            selected: (0usize, 0usize),
                            from: None,
                            to: None,
                        },
                    )
                } else {
                    ApplicationStateView::Logo
                },
            },
        }
    }
}

/// Main state of the application.
#[derive(Debug)]
pub enum ApplicationState {
    /// A game is running on the contained controller.
    Board(BoardState),

    /// The application has exited.
    Exit,

    /// Default state showing the application logo.
    Logo,
}

impl View for ApplicationState {
    type V = ApplicationStateView;

    closed spec fn view(&self) -> ApplicationStateView {
        match self {
            ApplicationState::Board(s) => ApplicationStateView::Board(s@),
            ApplicationState::Exit => ApplicationStateView::Exit,
            ApplicationState::Logo => ApplicationStateView::Logo,
        }
    }
}

impl Default for ApplicationState {
    /// The application starts on the logo screen.
    fn default() -> (r: ApplicationState)
        ensures
            r@ == ApplicationStateView::Logo,
    {
        ApplicationState::Logo
    }
}

impl ApplicationState {
    /// Check if the application has exited.
    pub fn has_exited(&self) -> (r: bool)
        ensures
            r == (self@ is Exit),
    {
        matches!(self, ApplicationState::Exit)
    }

    /// Handle the given command: switch screens, or hand the command to
    /// the running game.
    pub fn handle_command(&mut self, command: Command)
        requires
            old(self)@.wf(),
        ensures
            final(self)@.wf(),
            final(self)@ == old(self)@.after_command(command),
    {
        match command {
            Command::Back => match self {
                ApplicationState::Board(_) => {
                    *self = ApplicationState::Logo;
                },
                ApplicationState::Exit => (),
                ApplicationState::Logo => {
                    *self = ApplicationState::Exit;
                },
            },
            Command::Exit => {
                *self = ApplicationState::Exit;
            },
            _ => match self {
                ApplicationState::Board(board_state) => board_state.handle_command(command),
                ApplicationState::Exit => (),
                ApplicationState::Logo => {
                    if matches!(command, Command::Select) {
                        let board = starting_board();
                        let board_state = BoardState::new(board, Player::Blue);
                        *self = ApplicationState::Board(board_state);
                    }
                },
            },
        }
    }
}

impl CommandManaged for ApplicationState {
    open spec fn inv(&self) -> bool {
        self@.wf()
    }

    fn handle_command(&mut self, command: Command) {
        ApplicationState::handle_command(self, command)
    }
}

} // verus!
