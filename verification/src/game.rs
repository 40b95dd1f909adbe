//! The board, its cells and the rules of the game.

use vstd::prelude::*;

verus! {

/// One of the two players.
#[derive(Clone, Copy, Debug, PartialEq, Eq, Hash, Structural)]
pub enum Player {
    /// The blue player.
    Blue,

    /// The red player.
    Red,
}

impl Player {
    /// The opposing player.
    pub open spec fn spec_opponent(self) -> Player {
        match self {
            Player::Blue => Player::Red,
            Player::Red => Player::Blue,
        }
    }

    /// Get the opposing player.
    #[verifier::when_used_as_spec(spec_opponent)]
    pub fn opponent(self) -> (r: Player)
        ensures
            r == self.spec_opponent(),
    {
        match self {
            Player::Blue => Player::Red,
            Player::Red => Player::Blue,
        }
    }
}

/// Taking the opponent twice leads back to the same player.
pub proof fn lemma_opponent_involutive(player: Player)
    ensures
        player.spec_opponent().spec_opponent() == player,
{
}

/// The contents of one cell of the board.
#[derive(Clone, Copy, Debug, PartialEq, Eq, Hash, Structural)]
pub enum CellState {
    /// The cell is occupied by a player.
    Player(Player),

    /// The cell is free.
    Free,

    /// The cell is restricted.
    ///
    /// A restricted cell cannot be occupied by any player.
    Restricted,
}

impl CellState {
    /// Whether the two cells are occupied by opposing players.
    pub open spec fn spec_is_opponent_of(self, other: CellState) -> bool {
        match self {
            CellState::Player(a) => match other {
                CellState::Player(b) => a == b.spec_opponent(),
                _ => false,
            },
            _ => false,
        }
    }

    /// Check if the current cell is occupied by a player.
    pub fn is_playable(self) -> (r: bool)
        ensures
            r == (self is Player),
    {
        matches!(self, CellState::Player(_))
    }

    /// Check if the current cell is [`CellState::Free`].
    pub fn is_free(self) -> (r: bool)
        ensures
            r == (self is Free),
    {
        matches!(self, CellState::Free)
    }

    /// Check if the current cell is [`CellState::Restricted`].
    pub fn is_restricted(self) -> (r: bool)
        ensures
            r == (self is Restricted),
    {
        matches!(self, CellState::Restricted)
    }

    /// Check if the current cell is occupied.
    ///
    /// An occupied cell is not [free](CellState::Free).
    pub fn is_occupied(self) -> (r: bool)
        ensures
            r == !(self is Free),
    {
        !self.is_free()
    }

    /// Check if the current cell and `other` are occupied by opposing players.
    ///
    /// This is false whenever either side is free or restricted; it is the
    /// sole predicate driving capture.
    #[verifier::when_used_as_spec(spec_is_opponent_of)]
    pub fn is_opponent_of(self, other: CellState) -> (r: bool)
        ensures
            r == self.spec_is_opponent_of(other),
    {
        match self {
            CellState::Player(a) => match other {
                CellState::Player(b) => a == b.opponent(),
                _ => false,
            },
            _ => false,
        }
    }
}

/// An index of the [`Board`]: a `(row, column)` pair, zero-based.
pub type Index = (usize, usize);

/// The score of a game: how many cells each player occupies.
#[derive(Clone, Copy, Debug, PartialEq, Eq, Hash, Structural)]
pub struct Score {
    /// The score of the [red player](Player::Red).
    pub red: usize,

    /// The score of the [blue player](Player::Blue).
    pub blue: usize,
}

impl Score {
    /// The count held for the given player.
    pub open spec fn spec_get(self, player: Player) -> usize {
        match player {
            Player::Blue => self.blue,
            Player::Red => self.red,
        }
    }

    /// Get the score of the corresponding player.
    pub fn get_mut(&mut self, player: Player) -> (r: &mut usize)
        ensures
            *r == old(self).spec_get(player),
            *final(self) == (match player {
                Player::Blue => (Score { red: old(self).red, blue: *final(r) }),
                Player::Red => (Score { red: *final(r), blue: old(self).blue }),
            }),
    {
        match player {
            Player::Blue => &mut self.blue,
            Player::Red => &mut self.red,
        }
    }
}

/// How much one cell contributes to the given player's score.
pub open spec fn cell_weight(cell: CellState, player: Player) -> nat {
    if cell == CellState::Player(player) {
        1nat
    } else {
        0nat
    }
}

/// The number of cells of the sequence occupied by the given player.
pub open spec fn count_cells(cells: Seq<CellState>, player: Player) -> nat
    decreases cells.len(),
{
    if cells.len() == 0 {
        0nat
    } else {
        count_cells(cells.drop_last(), player) + cell_weight(cells.last(), player)
    }
}

/// A player never occupies more cells than the board holds.
pub proof fn lemma_count_le_len(cells: Seq<CellState>, player: Player)
    ensures
        count_cells(cells, player) <= cells.len(),
    decreases cells.len(),
{
    if cells.len() > 0 {
        lemma_count_le_len(cells.drop_last(), player);
    }
}

/// Appending a cell adds exactly that cell's weight to the count.
pub proof fn lemma_count_push(cells: Seq<CellState>, cell: CellState, player: Player)
    ensures
        count_cells(cells.push(cell), player) == count_cells(cells, player) + cell_weight(
            cell,
            player,
        ),
{
    assert(cells.push(cell).drop_last() =~= cells);
}

/// Overwriting one cell swaps its old weight for the new one in the count.
pub proof fn lemma_count_update(cells: Seq<CellState>, i: int, cell: CellState, player: Player)
    requires
        0 <= i < cells.len(),
    ensures
        count_cells(cells.update(i, cell), player) == count_cells(cells, player) - cell_weight(
            cells[i],
            player,
        ) + cell_weight(cell, player),
    decreases cells.len(),
{
    let updated = cells.update(i, cell);
    if i == cells.len() - 1 {
        assert(updated.drop_last() =~= cells.drop_last());
        assert(updated.last() == cell);
    } else {
        assert(updated.drop_last() =~= cells.drop_last().update(i, cell));
        assert(updated.last() == cells.last());
        lemma_count_update(cells.drop_last(), i, cell, player);
    }
}

/// Counting a prefix one cell longer adds exactly that cell's weight.
pub proof fn lemma_count_take_succ(cells: Seq<CellState>, i: int, player: Player)
    requires
        0 <= i < cells.len(),
    ensures
        count_cells(cells.take(i + 1), player) == count_cells(cells.take(i), player) + cell_weight(
            cells[i],
            player,
        ),
{
    assert(cells.take(i + 1).drop_last() =~= cells.take(i));
    assert(cells.take(i + 1).last() == cells[i]);
}

/// A cell held by the player makes the count positive; one held otherwise
/// keeps the count below the length.
pub proof fn lemma_count_bounds(cells: Seq<CellState>, i: int, player: Player)
    requires
        0 <= i < cells.len(),
    ensures
        cells[i] == CellState::Player(player) ==> count_cells(cells, player) >= 1,
        cells[i] != CellState::Player(player) ==> count_cells(cells, player) <= cells.len() - 1,
{
    if cells[i] == CellState::Player(player) {
        lemma_count_update(cells, i, CellState::Free, player);
        lemma_count_le_len(cells.update(i, CellState::Free), player);
    } else {
        lemma_count_update(cells, i, CellState::Player(player), player);
        lemma_count_le_len(cells.update(i, CellState::Player(player)), player);
    }
}

/// The absolute difference of two integers.
pub open spec fn abs_diff(a: int, b: int) -> int {
    if a >= b {
        a - b
    } else {
        b - a
    }
}

/// The Chebyshev distance of two positions: the king-move distance.
pub open spec fn chebyshev(from: Index, to: Index) -> int {
    let dr = abs_diff(from.0 as int, to.0 as int);
    let dc = abs_diff(from.1 as int, to.1 as int);
    if dr >= dc {
        dr
    } else {
        dc
    }
}

/// The mathematical contents of a [`Board`]: its cells in row-major order,
/// its dimensions and its running score.
#[verifier::ext_equal]
pub ghost struct GridView {
    /// The cells, row-major.
    pub cells: Seq<CellState>,
    /// The number of rows.
    pub height: nat,
    /// The number of columns.
    pub width: nat,
    /// The running score.
    pub score: Score,
}

impl GridView {
    /// The cell sequence covers exactly the declared rectangle.
    pub open spec fn grid_sized(self) -> bool {
        self.cells.len() == self.height * self.width
    }

    /// The running score equals the count obtained by scanning every cell.
    pub open spec fn score_exact(self) -> bool {
        &&& self.score.red == count_cells(self.cells, Player::Red)
        &&& self.score.blue == count_cells(self.cells, Player::Blue)
    }

    /// Well-formedness: the grid is rectangular, its dimensions fit the
    /// machine and the score is exact.
    pub open spec fn wf(self) -> bool {
        &&& self.grid_sized()
        &&& self.height <= usize::MAX
        &&& self.width <= usize::MAX
        &&& self.score_exact()
    }

    /// Whether the position lies on the board.
    pub open spec fn contains(self, row: int, column: int) -> bool {
        0 <= row < self.height && 0 <= column < self.width
    }

    /// The row-major index of a position.
    pub open spec fn idx(self, row: int, column: int) -> int {
        row * self.width + column
    }

    /// The cell at a position.
    pub open spec fn at(self, row: int, column: int) -> CellState {
        self.cells[self.idx(row, column)]
    }

    /// Whether `(i, j)` belongs to the in-bounds neighborhood of
    /// `(row, column)` with the given Chebyshev radius.
    ///
    /// The neighborhood is empty whenever the center itself is off the board.
    pub open spec fn neighborhood_member(
        self,
        row: int,
        column: int,
        i: int,
        j: int,
        radius: int,
    ) -> bool {
        &&& self.contains(row, column)
        &&& self.contains(i, j)
        &&& abs_diff(i, row) <= radius
        &&& abs_diff(j, column) <= radius
    }
}

/// A position inside the rectangle has a row-major index inside the array.
pub proof fn lemma_row_major_index(height: int, width: int, row: int, column: int)
    by (nonlinear_arith)
    requires
        0 <= row < height,
        0 <= column < width,
    ensures
        0 <= row * width + column < height * width,
        row * width + column <= height * width - 1,
{
}

/// Row-major indexing is injective over the rectangle.
pub proof fn lemma_row_major_injective(width: int, r1: int, c1: int, r2: int, c2: int)
    by (nonlinear_arith)
    requires
        0 <= c1 < width,
        0 <= c2 < width,
        0 <= r1,
        0 <= r2,
        r1 * width + c1 == r2 * width + c2,
    ensures
        r1 == r2 && c1 == c2,
{
}

/// Every index inside the rectangle decomposes into a unique position.
pub proof fn lemma_index_decompose(height: int, width: int, k: int)
    by (nonlinear_arith)
    requires
        0 < width,
        0 <= k < height * width,
    ensures
        0 <= k / width < height,
        0 <= k % width < width,
        (k / width) * width + k % width == k,
{
}

/// A game board: a rectangular grid of cells and the running score.
#[derive(Debug)]
pub struct Board {
    board: Vec<CellState>,
    score: Score,
    height: usize,
    width: usize,
}

impl View for Board {
    type V = GridView;

    closed spec fn view(&self) -> GridView {
        GridView {
            cells: self.board@,
            height: self.height as nat,
            width: self.width as nat,
            score: self.score,
        }
    }
}

impl Board {
    /// Create a board whose cells are all [free](CellState::Free).
    ///
    /// # Parameters
    ///
    /// - `height` - The height of the grid
    /// - `width` - The width of the grid
    pub fn free(height: usize, width: usize) -> (r: Board)
        requires
            height * width <= usize::MAX,
        ensures
            r@.wf(),
            r@.height == height,
            r@.width == width,
            r@.score == (Score { red: 0, blue: 0 }),
            forall|k: int| 0 <= k < r@.cells.len() ==> r@.cells[k] == CellState::Free,
    {
        let total = height * width;
        let mut board: Vec<CellState> = Vec::new();
        let mut k: usize = 0;
        while k < total
            invariant
                k <= total,
                board@.len() == k,
                forall|m: int| 0 <= m < k ==> board@[m] == CellState::Free,
                count_cells(board@, Player::Red) == 0,
                count_cells(board@, Player::Blue) == 0,
            decreases total - k,
        {
            proof {
                lemma_count_push(board@, CellState::Free, Player::Red);
                lemma_count_push(board@, CellState::Free, Player::Blue);
            }
            board.push(CellState::Free);
            k = k + 1;
        }
        Board { board, score: Score { red: 0, blue: 0 }, height, width }
    }

    /// Create a board from its cells.
    ///
    /// The initial score is obtained by counting the cells each player
    /// occupies exactly once over the input.
    ///
    /// # Parameters
    ///
    /// - `height` - The height of the grid
    /// - `width` - The width of the grid
    /// - `board` - The underlying cells (their number must match the
    ///   dimensions)
    pub fn new(height: usize, width: usize, board: Vec<CellState>) -> (r: Board)
        requires
            board@.len() == height * width,
        ensures
            r@.wf(),
            r@.cells == board@,
            r@.height == height,
            r@.width == width,
    {
        let mut red: usize = 0;
        let mut blue: usize = 0;
        let mut k: usize = 0;
        while k < board.len()
            invariant
                k <= board@.len(),
                red == count_cells(board@.take(k as int), Player::Red),
                blue == count_cells(board@.take(k as int), Player::Blue),
            decreases board@.len() - k,
        {
            proof {
                lemma_count_take_succ(board@, k as int, Player::Red);
                lemma_count_take_succ(board@, k as int, Player::Blue);
                lemma_count_le_len(board@.take(k as int + 1), Player::Red);
                lemma_count_le_len(board@.take(k as int + 1), Player::Blue);
            }
            match board[k] {
                CellState::Player(Player::Red) => red = red + 1,
                CellState::Player(Player::Blue) => blue = blue + 1,
                _ => (),
            }
            k = k + 1;
        }
        proof {
            assert(board@.take(board@.len() as int) =~= board@);
        }
        Board { board, score: Score { red, blue }, height, width }
    }

    /// Get the current [score](Score).
    pub fn score(&self) -> (r: Score)
        ensures
            r == self@.score,
    {
        self.score
    }

    /// Get the height of the grid.
    pub fn height(&self) -> (r: usize)
        ensures
            r == self@.height,
    {
        self.height
    }

    /// Get the width of the grid.
    pub fn width(&self) -> (r: usize)
        ensures
            r == self@.width,
    {
        self.width
    }

    /// Get the number of cells of the grid.
    pub fn len(&self) -> (r: usize)
        ensures
            r == self@.cells.len(),
    {
        self.board.len()
    }

    /// Check if the grid has no cells.
    pub fn is_empty(&self) -> (r: bool)
        ensures
            r == (self@.cells.len() == 0),
    {
        self.board.len() == 0
    }

    /// Check if the given position is on the board.
    ///
    /// # Parameters
    ///
    /// - `row` - The row index
    /// - `column` - The column index
    pub fn contains(&self, row: usize, column: usize) -> (r: bool)
        ensures
            r == self@.contains(row as int, column as int),
    {
        row < self.height && column < self.width
    }

    /// The row-major index of an in-bounds position.
    fn cell_index(&self, row: usize, column: usize) -> (idx: usize)
        requires
            self@.grid_sized(),
            self@.contains(row as int, column as int),
        ensures
            idx == self@.idx(row as int, column as int),
            idx < self@.cells.len(),
    {
        // reading the length puts its machine bound in scope for the proof
        let _n = self.board.len();
        proof {
            lemma_row_major_index(
                self@.height as int,
                self@.width as int,
                row as int,
                column as int,
            );
        }
        row * self.width + column
    }

    /// Get the state of the corresponding cell.
    ///
    /// # Parameters
    ///
    /// - `row` - The row index
    /// - `column` - The column index
    ///
    /// # Return
    ///
    /// If the given position is not on the board, `None` is returned:
    /// out-of-bounds is a normal query outcome, not an error.
    pub fn get(&self, row: usize, column: usize) -> (r: Option<CellState>)
        requires
            self@.grid_sized(),
        ensures
            r == (if self@.contains(row as int, column as int) {
                Some(self@.at(row as int, column as int))
            } else {
                None::<CellState>
            }),
    {
        if self.contains(row, column) {
            let idx = self.cell_index(row, column);
            Some(self.board[idx])
        } else {
            None
        }
    }

    /// Get the cells in row-major order.
    pub fn iter(&self) -> (r: Vec<CellState>)
        ensures
            r@ == self@.cells,
    {
        let mut cells: Vec<CellState> = Vec::new();
        let mut k: usize = 0;
        while k < self.board.len()
            invariant
                k <= self.board@.len(),
                cells@ =~= self.board@.take(k as int),
            decreases self.board@.len() - k,
        {
            cells.push(self.board[k]);
            k = k + 1;
        }
        proof {
            assert(self.board@.take(self.board@.len() as int) =~= self.board@);
        }
        cells
    }

    /// Get the distance between two positions.
    ///
    /// # Parameters
    ///
    /// - `from` - The departure position
    /// - `to` - The destination position
    ///
    /// # Return
    ///
    /// The Chebyshev distance of the two positions, if both lie on the board
    /// and the distance is a legal move shape (1 or 2); `None` otherwise.
    pub fn jump_distance(&self, from: Index, to: Index) -> (r: Option<usize>)
        ensures
            r == self@.spec_jump_distance(from, to),
    {
        if self.contains(from.0, from.1) && self.contains(to.0, to.1) {
            let dr = if from.0 >= to.0 {
                from.0 - to.0
            } else {
                to.0 - from.0
            };
            let dc = if from.1 >= to.1 {
                from.1 - to.1
            } else {
                to.1 - from.1
            };
            let distance = if dr >= dc {
                dr
            } else {
                dc
            };
            if 1 <= distance && distance <= 2 {
                Some(distance)
            } else {
                None
            }
        } else {
            None
        }
    }
}

impl GridView {
    /// The jump distance of two positions: their Chebyshev distance, if both
    /// lie on the board and the distance is 1 or 2.
    pub open spec fn spec_jump_distance(self, from: Index, to: Index) -> Option<usize> {
        let distance = chebyshev(from, to);
        if self.contains(from.0 as int, from.1 as int) && self.contains(to.0 as int, to.1 as int)
            && 1 <= distance <= 2 {
            Some(distance as usize)
        } else {
            None
        }
    }

    /// The view with the given cells and the score recomputed by scanning
    /// them.
    pub open spec fn with_cells_rescored(self, cells: Seq<CellState>) -> GridView {
        GridView {
            cells,
            score: Score {
                red: count_cells(cells, Player::Red) as usize,
                blue: count_cells(cells, Player::Blue) as usize,
            },
            ..self
        }
    }

    /// The cell at `(i, j)` after the capture step centered on
    /// `(row, column)`: flipped to the center's colour exactly when it lies
    /// in the radius-1 neighborhood and opposes the center.
    pub open spec fn cell_after_capture(self, row: int, column: int, i: int, j: int) -> CellState {
        let center = self.at(row, column);
        if self.neighborhood_member(row, column, i, j, 1) && self.at(i, j).spec_is_opponent_of(
            center,
        ) {
            center
        } else {
            self.at(i, j)
        }
    }

    /// The grid after the capture step centered on `(row, column)`:
    /// unchanged unless an in-bounds occupied cell sits there.
    pub open spec fn after_capture(self, row: int, column: int) -> GridView {
        if self.contains(row, column) && self.at(row, column) is Player {
            let cells = Seq::new(
                self.cells.len(),
                |k: int|
                    self.cell_after_capture(
                        row,
                        column,
                        k / self.width as int,
                        k % self.width as int,
                    ),
            );
            self.with_cells_rescored(cells)
        } else {
            self
        }
    }

    /// Whether a move from `from` to `to` is legal: a legal move shape, an
    /// occupied departure cell and a free destination cell.
    pub open spec fn spec_jump_legal(self, from: Index, to: Index) -> bool {
        &&& self.spec_jump_distance(from, to) is Some
        &&& self.at(from.0 as int, from.1 as int) is Player
        &&& self.at(to.0 as int, to.1 as int) is Free
    }

    /// The grid after the mover's piece is placed on `to` and, on a
    /// distance-2 move, removed from `from`; the capture step has not run
    /// yet.
    pub open spec fn after_move(self, from: Index, to: Index) -> GridView
        recommends
            self.spec_jump_legal(from, to),
    {
        let placed = self.cells.update(
            self.idx(to.0 as int, to.1 as int),
            self.at(from.0 as int, from.1 as int),
        );
        let cells = if chebyshev(from, to) == 2 {
            placed.update(self.idx(from.0 as int, from.1 as int), CellState::Free)
        } else {
            placed
        };
        self.with_cells_rescored(cells)
    }

    /// The grid after a jump: the move and its capture when the move is
    /// legal, the grid untouched otherwise.
    pub open spec fn after_jump(self, from: Index, to: Index) -> GridView {
        if self.spec_jump_legal(from, to) {
            self.after_move(from, to).after_capture(to.0 as int, to.1 as int)
        } else {
            self
        }
    }
}

/// Row-major order on positions.
pub open spec fn index_lt(a: Index, b: Index) -> bool {
    a.0 < b.0 || (a.0 == b.0 && a.1 < b.1)
}

/// Clamp the window of the given radius around `center` to `[0, limit)`,
/// returning its lowest and highest member.
fn clamp_window(center: usize, radius: usize, limit: usize) -> (r: (usize, usize))
    requires
        center < limit,
    ensures
        r.0 == (if center >= radius {
            (center - radius) as usize
        } else {
            0usize
        }),
        r.1 as int == (if center + radius < limit {
            center + radius
        } else {
            limit - 1
        }),
        r.0 <= center <= r.1 < limit,
{
    let lo = if center >= radius {
        center - radius
    } else {
        0
    };
    let hi = if radius < limit - center {
        center + radius
    } else {
        limit - 1
    };
    (lo, hi)
}

impl Board {
    /// The in-bounds positions within the given Chebyshev radius of
    /// `(row, column)`, in row-major order.
    ///
    /// The window is clamped at the grid edges: it never wraps around, and
    /// it is empty whenever the center itself is off the board.
    #[verifier::loop_isolation(false)]
    pub fn neighbors(&self, row: usize, column: usize, radius: usize) -> (r: Vec<Index>)
        ensures
            forall|k: int|
                0 <= k < r@.len() ==> self@.neighborhood_member(
                    row as int,
                    column as int,
                    (#[trigger] r@[k]).0 as int,
                    r@[k].1 as int,
                    radius as int,
                ),
            forall|i: usize, j: usize|
                #[trigger] self@.neighborhood_member(
                    row as int,
                    column as int,
                    i as int,
                    j as int,
                    radius as int,
                ) ==> r@.contains((i, j)),
            forall|k1: int, k2: int|
                0 <= k1 < k2 < r@.len() ==> index_lt(#[trigger] r@[k1], #[trigger] r@[k2]),
    {
        let mut result: Vec<Index> = Vec::new();
        if !self.contains(row, column) {
            return result;
        }
        let (row_lo, row_hi) = clamp_window(row, radius, self.height);
        let (col_lo, col_hi) = clamp_window(column, radius, self.width);
        let mut i = row_lo;
        while i <= row_hi
            invariant
                row_lo <= i <= row_hi + 1,
                forall|k: int|
                    0 <= k < result@.len() ==> self@.neighborhood_member(
                        row as int,
                        column as int,
                        (#[trigger] result@[k]).0 as int,
                        result@[k].1 as int,
                        radius as int,
                    ),
                forall|k: int| 0 <= k < result@.len() ==> (#[trigger] result@[k]).0 < i,
                forall|i2: usize, j2: usize|
                    #[trigger] self@.neighborhood_member(
                        row as int,
                        column as int,
                        i2 as int,
                        j2 as int,
                        radius as int,
                    ) && i2 < i ==> result@.contains((i2, j2)),
                forall|k1: int, k2: int|
                    0 <= k1 < k2 < result@.len() ==> index_lt(
                        #[trigger] result@[k1],
                        #[trigger] result@[k2],
                    ),
            decreases row_hi + 1 - i,
        {
            let mut j = col_lo;
            while j <= col_hi
                invariant
                    col_lo <= j <= col_hi + 1,
                    forall|k: int|
                        0 <= k < result@.len() ==> self@.neighborhood_member(
                            row as int,
                            column as int,
                            (#[trigger] result@[k]).0 as int,
                            result@[k].1 as int,
                            radius as int,
                        ),
                    forall|k: int|
                        0 <= k < result@.len() ==> (#[trigger] result@[k]).0 < i || (
                        result@[k].0 == i && result@[k].1 < j),
                    forall|i2: usize, j2: usize|
                        #[trigger] self@.neighborhood_member(
                            row as int,
                            column as int,
                            i2 as int,
                            j2 as int,
                            radius as int,
                        ) && (i2 < i || (i2 == i && j2 < j)) ==> result@.contains((i2, j2)),
                    forall|k1: int, k2: int|
                        0 <= k1 < k2 < result@.len() ==> index_lt(
                            #[trigger] result@[k1],
                            #[trigger] result@[k2],
                        ),
                decreases col_hi + 1 - j,
            {
                let ghost before = result@;
                result.push((i, j));
                proof {
                    assert(result@[before.len() as int] == (i, j));
                    assert(forall|i2: usize, j2: usize|
                        before.contains((i2, j2)) ==> result@.contains((i2, j2))) by {
                        assert(forall|k: int|
                            0 <= k < before.len() ==> result@[k] == #[trigger] before[k]);
                    }
                }
                j = j + 1;
            }
            i = i + 1;
        }
        result
    }

    /// Flip every in-bounds neighbor of `(row, column)` that opposes the
    /// cell sitting there, adjusting the score for every flip.
    ///
    /// The capture is single-layer: only the radius-1 neighborhood is
    /// examined, and flipped cells trigger no further capture.
    #[verifier::loop_isolation(false)]
    fn blob(&mut self, row: usize, column: usize) -> (r: bool)
        requires
            old(self)@.wf(),
        ensures
            final(self)@.wf(),
            r == (old(self)@.contains(row as int, column as int) && old(self)@.at(
                row as int,
                column as int,
            ) is Player),
            final(self)@ == old(self)@.after_capture(row as int, column as int),
    {
        let player = match self.get(row, column) {
            Some(CellState::Player(p)) => p,
            _ => {
                return false;
            },
        };
        let ghost g = self@;
        // reading the length puts its machine bound in scope for the proof
        let _n = self.board.len();
        let (row_lo, row_hi) = clamp_window(row, 1, self.height);
        let (col_lo, col_hi) = clamp_window(column, 1, self.width);
        let mut i = row_lo;
        while i <= row_hi
            invariant
                row_lo <= i <= row_hi + 1,
                self@.wf(),
                self@.height == g.height,
                self@.width == g.width,
                self@.score == (Score {
                    red: count_cells(self@.cells, Player::Red) as usize,
                    blue: count_cells(self@.cells, Player::Blue) as usize,
                }),
                self@.cells.len() == g.cells.len(),
                forall|i2: int, j2: int|
                    g.contains(i2, j2) ==> #[trigger] self@.at(i2, j2) == (if i2 < i {
                        g.cell_after_capture(row as int, column as int, i2, j2)
                    } else {
                        g.at(i2, j2)
                    }),
            decreases row_hi + 1 - i,
        {
            let mut j = col_lo;
            while j <= col_hi
                invariant
                    col_lo <= j <= col_hi + 1,
                    self@.wf(),
                    self@.height == g.height,
                    self@.width == g.width,
                    self@.score == (Score {
                        red: count_cells(self@.cells, Player::Red) as usize,
                        blue: count_cells(self@.cells, Player::Blue) as usize,
                    }),
                    self@.cells.len() == g.cells.len(),
                    forall|i2: int, j2: int|
                        g.contains(i2, j2) ==> #[trigger] self@.at(i2, j2) == (if i2 < i || (i2
                            == i && j2 < j) {
                            g.cell_after_capture(row as int, column as int, i2, j2)
                        } else {
                            g.at(i2, j2)
                        }),
                decreases col_hi + 1 - j,
            {
                let ghost pre = self@;
                let idx = self.cell_index(i, j);
                let current = self.board[idx];
                if current.is_opponent_of(CellState::Player(player)) {
                    proof {
                        lemma_count_update(
                            pre.cells,
                            idx as int,
                            CellState::Player(player),
                            Player::Red,
                        );
                        lemma_count_update(
                            pre.cells,
                            idx as int,
                            CellState::Player(player),
                            Player::Blue,
                        );
                        lemma_count_bounds(pre.cells, idx as int, player);
                        lemma_count_bounds(pre.cells, idx as int, player.spec_opponent());
                    }
                    self.board.set(idx, CellState::Player(player));
                    match player {
                        Player::Blue => {
                            self.score.blue = self.score.blue + 1;
                            self.score.red = self.score.red - 1;
                        },
                        Player::Red => {
                            self.score.red = self.score.red + 1;
                            self.score.blue = self.score.blue - 1;
                        },
                    }
                }
                proof {
                    assert forall|i2: int, j2: int| g.contains(i2, j2) implies #[trigger] self@.at(
                        i2,
                        j2,
                    ) == (if i2 < i || (i2 == i && j2 < j + 1) {
                        g.cell_after_capture(row as int, column as int, i2, j2)
                    } else {
                        g.at(i2, j2)
                    }) by {
                        lemma_row_major_index(g.height as int, g.width as int, i2, j2);
                        assert(pre.at(i2, j2) == (if i2 < i || (i2 == i && j2 < j) {
                            g.cell_after_capture(row as int, column as int, i2, j2)
                        } else {
                            g.at(i2, j2)
                        }));
                        if i2 == i as int && j2 == j as int {
                            assert(g.neighborhood_member(row as int, column as int, i2, j2, 1));
                            assert(pre.at(i2, j2) == g.at(i2, j2));
                        } else {
                            if pre.idx(i2, j2) == idx as int {
                                lemma_row_major_injective(
                                    g.width as int,
                                    i2,
                                    j2,
                                    i as int,
                                    j as int,
                                );
                            }
                            assert(self@.at(i2, j2) == pre.at(i2, j2));
                        }
                    }
                }
                j = j + 1;
            }
            i = i + 1;
        }
        proof {
            let after = g.after_capture(row as int, column as int);
            assert forall|k: int| 0 <= k < self@.cells.len() implies self@.cells[k]
                == after.cells[k] by {
                lemma_index_decompose(g.height as int, g.width as int, k);
                let i2 = k / g.width as int;
                let j2 = k % g.width as int;
                assert(g.contains(i2, j2));
                assert(self@.at(i2, j2) == g.cell_after_capture(row as int, column as int, i2, j2));
                assert(self@.idx(i2, j2) == k);
            }
            assert(self@.cells =~= after.cells);
            assert(self@ =~= after);
        }
        true
    }

    /// Jump a piece from one position to another.
    ///
    /// A legal move needs a legal shape (Chebyshev distance 1 or 2, both
    /// endpoints on the board), an occupied departure cell and a free
    /// destination cell. A distance-1 move clones the piece; a distance-2
    /// move relocates it. Every legal move ends with the capture step
    /// around the destination. On an illegal move nothing changes at all.
    ///
    /// # Return
    ///
    /// Whether the move was legal and therefore applied.
    pub fn jump(&mut self, from: Index, to: Index) -> (r: bool)
        requires
            old(self)@.wf(),
        ensures
            final(self)@.wf(),
            r == old(self)@.spec_jump_legal(from, to),
            final(self)@ == old(self)@.after_jump(from, to),
            !r ==> *final(self) == *old(self),
    {
        let distance = match self.jump_distance(from, to) {
            Some(d) => d,
            None => {
                return false;
            },
        };
        let player = match self.get(from.0, from.1) {
            Some(CellState::Player(p)) => p,
            _ => {
                return false;
            },
        };
        match self.get(to.0, to.1) {
            Some(CellState::Free) => {},
            _ => {
                return false;
            },
        }
        let ghost g = self@;
        // reading the length puts its machine bound in scope for the proof
        let _n = self.board.len();
        let idx_to = self.cell_index(to.0, to.1);
        proof {
            lemma_count_update(g.cells, idx_to as int, CellState::Player(player), Player::Red);
            lemma_count_update(g.cells, idx_to as int, CellState::Player(player), Player::Blue);
            lemma_count_bounds(g.cells, idx_to as int, player);
        }
        self.board.set(idx_to, CellState::Player(player));
        if distance == 2 {
            let idx_from = self.cell_index(from.0, from.1);
            proof {
                if idx_from == idx_to {
                    lemma_row_major_injective(
                        g.width as int,
                        from.0 as int,
                        from.1 as int,
                        to.0 as int,
                        to.1 as int,
                    );
                }
                lemma_count_update(self@.cells, idx_from as int, CellState::Free, Player::Red);
                lemma_count_update(self@.cells, idx_from as int, CellState::Free, Player::Blue);
            }
            self.board.set(idx_from, CellState::Free);
        } else {
            *self.score.get_mut(player) += 1;
        }
        proof {
            assert(self@ =~= g.after_move(from, to));
        }
        self.blob(to.0, to.1);
        proof {
            assert(self@ =~= g.after_jump(from, to));
        }
        true
    }
}

/// Capture is single-layer: a cell farther than the capture radius from
/// the center is never changed by one capture step.
pub proof fn lemma_capture_single_layer(grid: GridView, row: int, column: int, i: int, j: int)
    requires
        grid.grid_sized(),
        grid.contains(i, j),
        abs_diff(i, row) > 1 || abs_diff(j, column) > 1,
    ensures
        grid.after_capture(row, column).at(i, j) == grid.at(i, j),
{
    if grid.contains(row, column) && grid.at(row, column) is Player {
        lemma_row_major_index(grid.height as int, grid.width as int, i, j);
        let k = grid.idx(i, j);
        lemma_index_decompose(grid.height as int, grid.width as int, k);
        lemma_row_major_injective(
            grid.width as int,
            i,
            j,
            k / grid.width as int,
            k % grid.width as int,
        );
    }
}

impl PartialEq for Board {
    /// Two boards are equal when their dimensions, cells and score agree.
    fn eq(&self, other: &Board) -> (r: bool) {
        if self.height != other.height || self.width != other.width || self.score.red
            != other.score.red || self.score.blue != other.score.blue || self.board.len()
            != other.board.len() {
            return false;
        }
        let mut k: usize = 0;
        while k < self.board.len()
            invariant
                k <= self.board@.len(),
                self.board@.len() == other.board@.len(),
                forall|m: int| 0 <= m < k ==> self.board@[m] == other.board@[m],
            decreases self.board@.len() - k,
        {
            if self.board[k] != other.board[k] {
                return false;
            }
            k = k + 1;
        }
        proof {
            assert(self.board@ =~= other.board@);
        }
        true
    }
}

impl vstd::std_specs::cmp::PartialEqSpecImpl for Board {
    open spec fn obeys_eq_spec() -> bool {
        true
    }

    open spec fn eq_spec(&self, other: &Board) -> bool {
        self@ == other@
    }
}

/// The jump distance does not depend on the order of its two positions.
pub proof fn lemma_jump_distance_symmetric(grid: GridView, a: Index, b: Index)
    ensures
        grid.spec_jump_distance(a, b) == grid.spec_jump_distance(b, a),
{
}

} // verus!
