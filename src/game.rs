//! The board game played in a room: nine cells, two marks taking turns, eight
//! winning lines.
use vstd::prelude::*;

verus! {

/// One of the two marks. The first participant of a room plays `X`.
#[derive(Clone, Copy, Debug, PartialEq, Eq, Structural)]
pub enum Mark {
    X,
    O,
}

/// Where a game stands. `Waiting` until the room has two participants.
#[derive(Clone, Copy, Debug, PartialEq, Eq, Structural)]
pub enum Status {
    Waiting,
    Playing,
    Won,
    Draw,
}

pub open spec fn other(m: Mark) -> Mark {
    match m {
        Mark::X => Mark::O,
        Mark::O => Mark::X,
    }
}

/// The other mark.
pub fn opponent(m: Mark) -> (r: Mark)
    ensures
        r == other(m),
{
    match m {
        Mark::X => Mark::O,
        Mark::O => Mark::X,
    }
}

/// The cells of winning line `k` (rows, then columns, then diagonals).
pub open spec fn line_of(k: int) -> (int, int, int) {
    if k == 0 {
        (0, 1, 2)
    } else if k == 1 {
        (3, 4, 5)
    } else if k == 2 {
        (6, 7, 8)
    } else if k == 3 {
        (0, 3, 6)
    } else if k == 4 {
        (1, 4, 7)
    } else if k == 5 {
        (2, 5, 8)
    } else if k == 6 {
        (0, 4, 8)
    } else {
        (2, 4, 6)
    }
}

/// Line `k` of `b` holds mark `m` in all three cells.
pub open spec fn line_filled(b: Seq<Option<Mark>>, k: int, m: Mark) -> bool {
    let (p, q, r) = line_of(k);
    b[p] == Some(m) && b[q] == Some(m) && b[r] == Some(m)
}

/// Some winning line of `b` is all `m`.
pub open spec fn has_line(b: Seq<Option<Mark>>, m: Mark) -> bool {
    exists|k: int| 0 <= k < 8 && #[trigger] line_filled(b, k, m)
}

/// Every cell of `b` is marked.
pub open spec fn board_full(b: Seq<Option<Mark>>) -> bool {
    forall|i: int| 0 <= i < 9 ==> (#[trigger] b[i]).is_some()
}

/// The mathematical content of a game.
pub ghost struct GameView {
    pub board: Seq<Option<Mark>>,
    pub turn: Mark,
    pub status: Status,
    pub winner: Option<Mark>,
}

impl GameView {
    /// A move is legal while the game is being played, on an empty cell of the
    /// board, by the mark whose turn it is.
    pub open spec fn legal(self, cell: int, m: Mark) -> bool {
        &&& self.status == Status::Playing
        &&& 0 <= cell < 9
        &&& self.board[cell].is_none()
        &&& m == self.turn
    }

    /// The game after the legal move of `m` to `cell`.
    pub open spec fn after(self, cell: int, m: Mark) -> GameView {
        let b = self.board.update(cell, Some(m));
        if has_line(b, m) {
            GameView { board: b, turn: self.turn, status: Status::Won, winner: Some(m) }
        } else if board_full(b) {
            GameView { board: b, turn: self.turn, status: Status::Draw, winner: None }
        } else {
            GameView { board: b, turn: other(m), status: Status::Playing, winner: None }
        }
    }

    /// An empty board with `X` to move.
    pub open spec fn fresh(status: Status) -> GameView {
        GameView { board: Seq::new(9, |i: int| None), turn: Mark::X, status, winner: None }
    }
}

/// The state of one game.
#[derive(Clone, Copy, Debug)]
pub struct GameState {
    pub board: [Option<Mark>; 9],
    pub turn: Mark,
    pub status: Status,
    pub winner: Option<Mark>,
}

impl View for GameState {
    type V = GameView;

    open spec fn view(&self) -> GameView {
        GameView { board: self.board@, turn: self.turn, status: self.status, winner: self.winner }
    }
}

/// The game found a move illegal.
#[derive(Clone, Copy, Debug, PartialEq, Eq, Structural)]
pub struct IllegalMove;

fn holds(c: Option<Mark>, m: Mark) -> (r: bool)
    ensures
        r == (c == Some(m)),
{
    match c {
        Some(x) => match (x, m) {
            (Mark::X, Mark::X) | (Mark::O, Mark::O) => true,
            _ => false,
        },
        None => false,
    }
}

fn line_cells(k: usize) -> (r: (usize, usize, usize))
    requires
        k < 8,
    ensures
        r.0 as int == line_of(k as int).0,
        r.1 as int == line_of(k as int).1,
        r.2 as int == line_of(k as int).2,
        r.0 < 9 && r.1 < 9 && r.2 < 9,
{
    if k == 0 {
        (0, 1, 2)
    } else if k == 1 {
        (3, 4, 5)
    } else if k == 2 {
        (6, 7, 8)
    } else if k == 3 {
        (0, 3, 6)
    } else if k == 4 {
        (1, 4, 7)
    } else if k == 5 {
        (2, 5, 8)
    } else if k == 6 {
        (0, 4, 8)
    } else {
        (2, 4, 6)
    }
}

/// Whether some winning line of `board` is all `m`.
pub fn wins(board: &[Option<Mark>; 9], m: Mark) -> (r: bool)
    ensures
        r == has_line(board@, m),
{
    let mut k: usize = 0;
    while k < 8
        invariant
            k <= 8,
            forall|j: int| 0 <= j < k ==> !#[trigger] line_filled(board@, j, m),
        decreases 8 - k,
    {
        let (p, q, s) = line_cells(k);
        if holds(board[p], m) && holds(board[q], m) && holds(board[s], m) {
            assert(line_filled(board@, k as int, m));
            return true;
        }
        k += 1;
    }
    false
}

/// Whether every cell of `board` is marked.
pub fn full(board: &[Option<Mark>; 9]) -> (r: bool)
    ensures
        r == board_full(board@),
{
    let mut i: usize = 0;
    while i < 9
        invariant
            i <= 9,
            forall|j: int| 0 <= j < i ==> (#[trigger] board@[j]).is_some(),
        decreases 9 - i,
    {
        if board[i].is_none() {
            return false;
        }
        i += 1;
    }
    true
}

impl GameState {
    /// A game with an empty board, `X` to move, in the given status.
    pub fn new(status: Status) -> (r: GameState)
        ensures
            r@ == GameView::fresh(status),
    {
        let r = GameState { board: [None; 9], turn: Mark::X, status, winner: None };
        assert(r@.board =~= GameView::fresh(status).board);
        r
    }

    /// Whether `m` may now play `cell`.
    pub fn is_legal(&self, cell: usize, m: Mark) -> (r: bool)
        ensures
            r == self@.legal(cell as int, m),
    {
        match self.status {
            Status::Playing => {},
            _ => return false,
        }
        cell < 9 && self.board[cell].is_none() && holds(Some(m), self.turn)
    }

    /// Plays `m` on `cell`. An illegal move changes nothing.
    pub fn apply_move(&mut self, cell: usize, m: Mark) -> (r: Result<(), IllegalMove>)
        ensures
            r is Ok <==> old(self)@.legal(cell as int, m),
            r is Ok ==> final(self)@ == old(self)@.after(cell as int, m),
            r is Err ==> *final(self) == *old(self),
    {
        if !self.is_legal(cell, m) {
            return Err(IllegalMove);
        }
        self.board[cell] = Some(m);
        if wins(&self.board, m) {
            self.status = Status::Won;
            self.winner = Some(m);
        } else if full(&self.board) {
            self.status = Status::Draw;
            self.winner = None;
        } else {
            self.turn = opponent(m);
            self.winner = None;
        }
        Ok(())
    }
}

/// A legal move changes exactly the cell played, which was empty and now
/// holds the mover's mark; while the game goes on, the turn passes to the
/// other mark.
pub proof fn lemma_move_changes_one_cell(g: GameView, cell: int, m: Mark)
    requires
        g.board.len() == 9,
        g.legal(cell, m),
    ensures
        g.after(cell, m).board.len() == 9,
        g.after(cell, m).board[cell] == Some(m),
        g.board[cell] != g.after(cell, m).board[cell],
        forall|i: int| 0 <= i < 9 && i != cell ==> g.after(cell, m).board[i] == g.board[i],
        g.after(cell, m).status == Status::Playing ==> g.after(cell, m).turn == other(g.turn),
        g.after(cell, m).turn == g.turn || g.after(cell, m).turn == other(g.turn),
{
}

/// A legal move that completes any of the eight lines with the mover's mark
/// wins the game for that mark.
pub proof fn lemma_completed_line_wins(g: GameView, cell: int, m: Mark, k: int)
    requires
        g.board.len() == 9,
        g.legal(cell, m),
        0 <= k < 8,
        line_filled(g.board.update(cell, Some(m)), k, m),
    ensures
        g.after(cell, m).status == Status::Won,
        g.after(cell, m).winner == Some(m),
{
}

/// A legal move that fills the board without completing a line of either
/// mark ends the game in a draw with no winner.
pub proof fn lemma_full_board_draws(g: GameView, cell: int, m: Mark)
    requires
        g.board.len() == 9,
        g.legal(cell, m),
        board_full(g.board.update(cell, Some(m))),
        !has_line(g.board.update(cell, Some(m)), Mark::X),
        !has_line(g.board.update(cell, Some(m)), Mark::O),
    ensures
        g.after(cell, m).status == Status::Draw,
        g.after(cell, m).winner is None,
{
}

} // verus!
