use vstd::prelude::*;

verus! {

/// The occupant of one cell of the grid.
#[derive(Clone, Copy, Debug, PartialEq, Eq, Structural)]
pub enum CellState {
    Empty,
    X,
    O,
}

/// Whose turn it is, or how the game ended.
#[derive(Clone, Copy, Debug, PartialEq, Eq, Structural)]
pub enum GameState {
    XTurn,
    OTurn,
    XWon,
    OWon,
    Draw,
}

/// The abstract content of a board: rows of cells, and the game state.
pub struct BoardView {
    pub grid: Seq<Seq<CellState>>,
    pub state: GameState,
}

/// Why a move was refused.
#[derive(Clone, Copy, Debug, PartialEq, Eq, Structural)]
pub enum MoveError {
    /// The row or the column lies outside `0..3`.
    OutOfBounds { row: i32, col: i32 },
}

/// A 3x3 board and the state of the game played on it.
#[derive(Clone, Copy, Debug)]
pub struct Board {
    pub cells: [[CellState; 3]; 3],
    pub state: GameState,
}

impl BoardView {
    /// The board every game starts from.
    pub open spec fn empty() -> BoardView {
        BoardView {
            grid: Seq::new(3, |i: int| Seq::new(3, |j: int| CellState::Empty)),
            state: GameState::XTurn,
        }
    }

    /// Three rows of three cells each.
    pub open spec fn wf(self) -> bool {
        &&& self.grid.len() == 3
        &&& forall|i: int| 0 <= i < 3 ==> (#[trigger] self.grid[i]).len() == 3
    }

    /// The mark at row `r`, column `c`.
    pub open spec fn cell(self, r: int, c: int) -> CellState {
        self.grid[r][c]
    }

    /// The mark at a (row, column) pair.
    pub open spec fn at(self, p: (int, int)) -> CellState {
        self.cell(p.0, p.1)
    }

    /// Row and column of cell `i` of line `k`. The eight lines, in the order
    /// they are scanned: the rows top to bottom, the columns left to right,
    /// the main diagonal, the anti-diagonal.
    pub open spec fn line_cell(k: int, i: int) -> (int, int) {
        if k < 3 {
            (k, i)
        } else if k < 6 {
            (i, k - 3)
        } else if k == 6 {
            (i, i)
        } else {
            (i, 2 - i)
        }
    }

    /// All three cells of line `k` hold `m`.
    pub open spec fn line_filled(self, k: int, m: CellState) -> bool {
        &&& self.at(Self::line_cell(k, 0)) == m
        &&& self.at(Self::line_cell(k, 1)) == m
        &&& self.at(Self::line_cell(k, 2)) == m
    }

    /// Some line is filled with `m`.
    pub open spec fn has_line(self, m: CellState) -> bool {
        exists|k: int| 0 <= k < 8 && #[trigger] self.line_filled(k, m)
    }

    /// The state reached from `st` by scanning lines `0..k` in order: a line
    /// of X sets `XWon`, a line of O sets `OWon`, and the last such line
    /// decides.
    pub open spec fn scan_lines(self, k: int, st: GameState) -> GameState
        decreases k,
    {
        if k <= 0 {
            st
        } else if self.line_filled(k - 1, CellState::X) {
            GameState::XWon
        } else if self.line_filled(k - 1, CellState::O) {
            GameState::OWon
        } else {
            self.scan_lines(k - 1, st)
        }
    }

    /// No cell is empty.
    pub open spec fn is_full(self) -> bool {
        forall|r: int, c: int| 0 <= r < 3 && 0 <= c < 3 ==> #[trigger] self.cell(r, c) != CellState::Empty
    }

    /// The same grid with another game state.
    pub open spec fn with_state(self, st: GameState) -> BoardView {
        BoardView { grid: self.grid, state: st }
    }

    /// The grid with `m` at row `r`, column `c`.
    pub open spec fn set_cell(self, r: int, c: int, m: CellState) -> Seq<Seq<CellState>> {
        self.grid.update(r, self.grid[r].update(c, m))
    }

    /// The mover's mark goes to (r, c) and the turn passes; once the game
    /// is over nothing changes.
    pub open spec fn place(self, r: int, c: int) -> BoardView {
        match self.state {
            GameState::XTurn => BoardView { grid: self.set_cell(r, c, CellState::X), state: GameState::OTurn },
            GameState::OTurn => BoardView { grid: self.set_cell(r, c, CellState::O), state: GameState::XTurn },
            _ => self,
        }
    }

    /// The board with its state set by the scan of all eight lines.
    pub open spec fn checked(self) -> BoardView {
        self.with_state(self.scan_lines(8, self.state))
    }

    /// The outcome of a move at (r, c): nothing changes once the game is
    /// over or when the cell is taken. Otherwise the mover's mark is placed
    /// and the turn passes, a completed line then decides the winner, and a
    /// full board with no winner is a draw.
    pub open spec fn after_move(self, r: int, c: int) -> BoardView {
        if !self.state.in_play() || self.cell(r, c) != CellState::Empty {
            self
        } else {
            let w = self.place(r, c).checked();
            if w.state.in_play() && w.is_full() {
                w.with_state(GameState::Draw)
            } else {
                w
            }
        }
    }
}

/// Row and column both address a cell of the grid.
pub open spec fn in_bounds(row: int, col: int) -> bool {
    0 <= row < 3 && 0 <= col < 3
}

impl GameState {
    /// A player is still to move.
    pub open spec fn in_play(self) -> bool {
        self is XTurn || self is OTurn
    }
}

impl View for Board {
    type V = BoardView;

    open spec fn view(&self) -> BoardView {
        BoardView {
            grid: Seq::new(3, |i: int| self.cells[i]@),
            state: self.state,
        }
    }
}

impl Board {
    /// A board with every cell empty, X to move.
    pub fn new() -> (r: Board)
        ensures
            r@ == BoardView::empty(),
    {
        let r = Board { cells: [[CellState::Empty; 3]; 3], state: GameState::XTurn };
        assert(r@.grid =~~= BoardView::empty().grid);
        r
    }

    /// Sets every cell to empty and gives X the move.
    pub fn reset(&mut self)
        ensures
            final(self)@ == BoardView::empty(),
    {
        self.cells = [[CellState::Empty; 3]; 3];
        self.state = GameState::XTurn;
        assert(self@.grid =~~= BoardView::empty().grid);
    }

    /// Puts the mark of the player to move at (row, col) and passes the
    /// turn; does nothing once the game is over. The cell is not inspected.
    pub fn make_move(&mut self, row: usize, col: usize)
        requires
            row < 3,
            col < 3,
        ensures
            final(self)@ == old(self)@.place(row as int, col as int),
    {
        if self.state == GameState::XTurn {
            self.cells[row][col] = CellState::X;
            self.state = GameState::OTurn;
        } else if self.state == GameState::OTurn {
            self.cells[row][col] = CellState::O;
            self.state = GameState::XTurn;
        }
        assert(self@.grid =~~= old(self)@.place(row as int, col as int).grid);
    }

    /// Whether every cell holds a mark.
    pub fn is_draw(&self) -> (r: bool)
        ensures
            r == self@.is_full(),
    {
        let mut row: usize = 0;
        while row < 3
            invariant
                row <= 3,
                forall|i: int, j: int| 0 <= i < row && 0 <= j < 3 ==> #[trigger] self@.cell(i, j) != CellState::Empty,
            decreases 3 - row,
        {
            let mut col: usize = 0;
            while col < 3
                invariant
                    row < 3,
                    col <= 3,
                    forall|i: int, j: int| 0 <= i < row && 0 <= j < 3 ==> #[trigger] self@.cell(i, j) != CellState::Empty,
                    forall|j: int| 0 <= j < col ==> #[trigger] self@.cell(row as int, j) != CellState::Empty,
                decreases 3 - col,
            {
                if self.cells[row][col] == CellState::Empty {
                    assert(self@.cell(row as int, col as int) == CellState::Empty);
                    return false;
                }
                col += 1;
            }
            row += 1;
        }
        true
    }

    /// Plays the mover's mark at (row, col) and returns the board as it
    /// then stands. A move on a taken cell, or after the game is over, leaves
    /// the board as it was. Coordinates outside the grid are refused and
    /// leave the board untouched.
    pub fn click_cell(&mut self, row: i32, col: i32) -> (r: Result<Board, MoveError>)
        ensures
            r is Ok <==> in_bounds(row as int, col as int),
            !in_bounds(row as int, col as int) ==> *final(self) == *old(self)
                && r == Err::<Board, MoveError>(MoveError::OutOfBounds { row, col }),
            in_bounds(row as int, col as int) ==> final(self)@ == old(self)@.after_move(row as int, col as int)
                && r == Ok::<Board, MoveError>(*final(self)),
    {
        if row < 0 || row >= 3 || col < 0 || col >= 3 {
            return Err(MoveError::OutOfBounds { row, col });
        }
        let r = row as usize;
        let c = col as usize;
        if (self.state == GameState::XTurn || self.state == GameState::OTurn)
            && self.cells[r][c] == CellState::Empty {
            self.make_move(r, c);
            self.check_win();
            if (self.state == GameState::XTurn || self.state == GameState::OTurn) && self.is_draw() {
                self.state = GameState::Draw;
            }
        }
        Ok(*self)
    }

    /// Scans the eight lines in order (rows, columns, main diagonal,
    /// anti-diagonal); each line of X sets `XWon` and each line of O sets
    /// `OWon`, so the last complete line decides. The cells are not touched.
    pub fn check_win(&mut self)
        ensures
            final(self)@ == old(self)@.checked(),
    {
        let ghost start = *self;
        let mut row: usize = 0;
        while row < 3
            invariant
                row <= 3,
                self.cells == start.cells,
                self.state == start@.scan_lines(row as int, start.state),
            decreases 3 - row,
        {
            if self.cells[row][0] == CellState::X && self.cells[row][1] == CellState::X
                && self.cells[row][2] == CellState::X {
                self.state = GameState::XWon;
            }
            if self.cells[row][0] == CellState::O && self.cells[row][1] == CellState::O
                && self.cells[row][2] == CellState::O {
                self.state = GameState::OWon;
            }
            row += 1;
        }
        let mut col: usize = 0;
        while col < 3
            invariant
                col <= 3,
                self.cells == start.cells,
                self.state == start@.scan_lines(3 + col as int, start.state),
            decreases 3 - col,
        {
            if self.cells[0][col] == CellState::X && self.cells[1][col] == CellState::X
                && self.cells[2][col] == CellState::X {
                self.state = GameState::XWon;
            }
            if self.cells[0][col] == CellState::O && self.cells[1][col] == CellState::O
                && self.cells[2][col] == CellState::O {
                self.state = GameState::OWon;
            }
            col += 1;
        }
        if self.cells[0][0] == CellState::X && self.cells[1][1] == CellState::X
            && self.cells[2][2] == CellState::X {
            self.state = GameState::XWon;
        }
        if self.cells[0][0] == CellState::O && self.cells[1][1] == CellState::O
            && self.cells[2][2] == CellState::O {
            self.state = GameState::OWon;
        }
        assert(self.state == start@.scan_lines(7, start.state));
        if self.cells[0][2] == CellState::X && self.cells[1][1] == CellState::X
            && self.cells[2][0] == CellState::X {
            self.state = GameState::XWon;
        }
        if self.cells[0][2] == CellState::O && self.cells[1][1] == CellState::O
            && self.cells[2][0] == CellState::O {
            self.state = GameState::OWon;
        }
        assert(self.state == start@.scan_lines(8, start.state));
        assert(self@.grid =~~= start@.grid);
    }
}

} // verus!
