use vstd::prelude::*;

use crate::board::{
    has_winning_line, is_full, is_grid, is_open, line_cells, line_complete, other_token,
    same_mark, to_board_location, Cell, Token,
};
use crate::input::{parse_u32, parsed_u32, random_u32, token_choice, trim_text, trimmed};

verus! {

/// Whose move it is.
#[derive(Clone, Copy, Debug, PartialEq, Eq, Structural)]
pub enum Turn {
    Player,
    Bot,
}

/// Where a round stands.
#[derive(Clone, Copy, Debug, PartialEq, Eq, Structural)]
pub enum Status {
    InProgress,
    Won(Turn),
    Draw,
}

/// Why a move was refused.
#[derive(Clone, Copy, Debug, PartialEq, Eq, Structural)]
pub enum MoveError {
    /// The text is not an unsigned integer.
    NotANumber,
    /// The number is no empty cell, or the round is over.
    IllegalMove,
}

impl MoveError {
    /// The message shown to the player.
    pub fn message(self) -> (r: &'static str)
        ensures
            r@ == move_error_text(self),
    {
        match self {
            MoveError::NotANumber => "Please input a valid unsigned integer!",
            MoveError::IllegalMove => "Please input a number, between 1 and 9, not already chosen!",
        }
    }
}

/// The message of each refusal.
pub open spec fn move_error_text(e: MoveError) -> Seq<char> {
    match e {
        MoveError::NotANumber => "Please input a valid unsigned integer!"@,
        MoveError::IllegalMove => "Please input a number, between 1 and 9, not already chosen!"@,
    }
}

/// The other side.
pub open spec fn next_turn(t: Turn) -> Turn {
    match t {
        Turn::Player => Turn::Bot,
        Turn::Bot => Turn::Player,
    }
}

/// A round seen as a value: the grid, whose move it is, the player's mark and
/// where the round stands. The computer has the other mark.
pub struct GameState {
    pub board: Seq<Cell>,
    pub turn: Turn,
    pub player_token: Token,
    pub status: Status,
}

/// The mark that `turn` plays with.
pub open spec fn mark_of(player_token: Token, turn: Turn) -> Token {
    match turn {
        Turn::Player => player_token,
        Turn::Bot => other_token(player_token),
    }
}

/// Where a round stands once `mover` has made the grid `b`.
pub open spec fn status_after(b: Seq<Cell>, mover: Turn) -> Status {
    if has_winning_line(b) {
        Status::Won(mover)
    } else if is_full(b) {
        Status::Draw
    } else {
        Status::InProgress
    }
}

/// A round in which the side to move plays cell `m`: `None` where the round
/// is over or the cell is not an empty one. Otherwise the mover's mark is
/// written there; the round is then won by the mover, drawn, or goes on with
/// the other side to move.
pub open spec fn step(g: GameState, m: int) -> Option<GameState> {
    if g.status == Status::InProgress && is_open(g.board, m) {
        let b = g.board.update(m - 1, Cell::Taken(mark_of(g.player_token, g.turn)));
        let s = status_after(b, g.turn);
        Some(
            GameState {
                board: b,
                turn: if s == Status::InProgress {
                    next_turn(g.turn)
                } else {
                    g.turn
                },
                player_token: g.player_token,
                status: s,
            },
        )
    } else {
        None
    }
}

/// A state that a round can be in: nine cells, and a round that goes on has
/// neither a winning line nor a full grid.
pub open spec fn state_wf(g: GameState) -> bool {
    &&& is_grid(g.board)
    &&& g.status == Status::InProgress ==> !has_winning_line(g.board) && !is_full(g.board)
}

/// What a typed move comes to on grid `b`, given what parsing made of it.
pub open spec fn move_verdict(b: Seq<Cell>, parsed: Option<u32>) -> Result<u32, MoveError> {
    match parsed {
        None => Err(MoveError::NotANumber),
        Some(n) => if is_open(b, n as int) {
            Ok(n)
        } else {
            Err(MoveError::IllegalMove)
        },
    }
}

/// The empty cells among the first `n`, in increasing order.
pub open spec fn open_cells_upto(b: Seq<Cell>, n: int) -> Seq<u32>
    decreases n,
{
    if n <= 0 {
        Seq::empty()
    } else if b[n - 1] == Cell::Empty {
        open_cells_upto(b, n - 1).push(n as u32)
    } else {
        open_cells_upto(b, n - 1)
    }
}

/// The empty cells of the grid, in increasing order.
pub open spec fn open_cells(b: Seq<Cell>) -> Seq<u32> {
    open_cells_upto(b, 9)
}

/// The cell that the computer plays for a random draw `draw`: the empty
/// cells are counted in increasing order and the one at `draw` modulo their
/// number is taken.
pub open spec fn bot_choice(b: Seq<Cell>, draw: u32) -> u32 {
    open_cells(b)[(draw as int) % (open_cells(b).len() as int)]
}

/// Each of the listed cells is empty, and where one of the first `n` cells is
/// empty the list is not empty.
proof fn lemma_open_cells_upto(b: Seq<Cell>, n: int)
    requires
        is_grid(b),
        0 <= n <= 9,
    ensures
        forall|k: int|
            0 <= k < open_cells_upto(b, n).len() ==> is_open(
                b,
                #[trigger] open_cells_upto(b, n)[k] as int,
            ),
        (exists|i: int| 0 <= i < n && b[i] == Cell::Empty) ==> open_cells_upto(b, n).len() > 0,
    decreases n,
{
    if n > 0 {
        lemma_open_cells_upto(b, n - 1);
        if b[n - 1] != Cell::Empty {
            if exists|i: int| 0 <= i < n && b[i] == Cell::Empty {
                let i = choose|i: int| 0 <= i < n && b[i] == Cell::Empty;
                assert(i < n - 1);
            }
        }
    }
}

/// The two sides always play different marks, whichever mark the player's
/// answer picks.
pub proof fn lemma_marks_differ(choice: Seq<char>)
    requires
        token_choice(choice) is Some,
    ensures
        mark_of(token_choice(choice)->Some_0, Turn::Player) != mark_of(
            token_choice(choice)->Some_0,
            Turn::Bot,
        ),
{
}

/// Turns alternate. An accepted move writes the mover's mark; where the round
/// goes on, the other side is to move, and the next accepted move writes the
/// other mark. A refused move leaves the round as it was (see `play_turn`),
/// so the same side is to move again.
pub proof fn lemma_turns_alternate(g: GameState, m1: int, m2: int)
    requires
        state_wf(g),
    ensures
        match step(g, m1) {
            Some(g1) => {
                &&& g1.board[m1 - 1] == Cell::Taken(mark_of(g.player_token, g.turn))
                &&& g1.status == Status::InProgress ==> g1.turn == next_turn(g.turn) && g1.turn
                    != g.turn
                &&& match step(g1, m2) {
                    Some(g2) => {
                        &&& g2.board[m2 - 1] == Cell::Taken(
                            mark_of(g.player_token, next_turn(g.turn)),
                        )
                        &&& mark_of(g.player_token, next_turn(g.turn)) != mark_of(
                            g.player_token,
                            g.turn,
                        )
                    },
                    None => true,
                }
            },
            None => true,
        },
{
}

/// One round of the game.
pub struct Game {
    board: Vec<Cell>,
    current_turn: Turn,
    player_token: Token,
    status: Status,
}

impl View for Game {
    type V = GameState;

    closed spec fn view(&self) -> GameState {
        GameState {
            board: self.board@,
            turn: self.current_turn,
            player_token: self.player_token,
            status: self.status,
        }
    }
}

impl Game {
    /// The round's state is one that a round can be in.
    pub open spec fn wf(&self) -> bool {
        state_wf(self@)
    }

    /// A fresh round: every cell empty, the player to move with X, the
    /// computer with O.
    pub fn new() -> (r: Game)
        ensures
            r.wf(),
            r@.board == Seq::new(9, |i: int| Cell::Empty),
            r@.turn == Turn::Player,
            r@.player_token == Token::X,
            r@.status == Status::InProgress,
    {
        let mut board: Vec<Cell> = Vec::new();
        let mut i: usize = 0;
        while i < 9
            invariant
                i <= 9,
                board@ == Seq::new(i as nat, |j: int| Cell::Empty),
            decreases 9 - i,
        {
            board.push(Cell::Empty);
            i = i + 1;
        }
        let r = Game {
            board,
            current_turn: Turn::Player,
            player_token: Token::X,
            status: Status::InProgress,
        };
        proof {
            assert(!is_full(r@.board)) by {
                assert(r@.board[0] == Cell::Empty);
            }
            assert forall|l: int| 0 <= l < 8 implies !#[trigger] line_complete(r@.board, l) by {
                let (a, b, c) = line_cells(l);
                assert(r@.board[a - 1] == Cell::Empty);
            }
        }
        r
    }

    /// Whose move it is.
    pub fn current_turn(&self) -> (r: Turn)
        ensures
            r == self@.turn,
    {
        self.current_turn
    }

    /// Where the round stands.
    pub fn status(&self) -> (r: Status)
        ensures
            r == self@.status,
    {
        self.status
    }

    /// The content of cell `m`.
    pub fn cell(&self, m: u32) -> (r: Cell)
        requires
            is_grid(self@.board),
            1 <= m <= 9,
        ensures
            r == self@.board[m - 1],
    {
        self.board[(m - 1) as usize]
    }

    /// The mark that `turn` plays with; the computer has the mark that the
    /// player has not.
    pub fn get_token(&self, turn: Turn) -> (r: Token)
        ensures
            r == mark_of(self@.player_token, turn),
    {
        match turn {
            Turn::Player => self.player_token,
            Turn::Bot => self.player_token.other(),
        }
    }

    /// The text of a mark.
    pub fn token_to_string(token: &Token) -> (r: String)
        ensures
            r@ == crate::board::token_text(*token),
    {
        String::from_str(token.as_str())
    }

    /// The side that moves after the current one.
    pub fn get_next_turn(&self) -> (r: Turn)
        ensures
            r == next_turn(self@.turn),
    {
        match self.current_turn {
            Turn::Player => Turn::Bot,
            Turn::Bot => Turn::Player,
        }
    }

    /// Cells `a`, `b` and `c` hold one and the same mark.
    fn cells_match(&self, a: usize, b: usize, c: usize) -> (r: bool)
        requires
            is_grid(self@.board),
            1 <= a <= 9,
            1 <= b <= 9,
            1 <= c <= 9,
        ensures
            r == same_mark(self@.board, a as int, b as int, c as int),
    {
        self.board[a - 1] != Cell::Empty && self.board[a - 1] == self.board[b - 1]
            && self.board[b - 1] == self.board[c - 1]
    }

    /// Whether some row, column or diagonal is filled with one mark.
    pub fn game_is_won(&self) -> (r: bool)
        requires
            is_grid(self@.board),
        ensures
            r == has_winning_line(self@.board),
    {
        let mut all_same_row = false;
        let mut all_same_col = false;
        let mut index: usize = 0;
        while index < 3
            invariant
                is_grid(self@.board),
                index <= 3,
                all_same_row == exists|l: int| 0 <= l < index && #[trigger] line_complete(self@.board, l),
                all_same_col == exists|l: int| 3 <= l < 3 + index && #[trigger] line_complete(self@.board, l),
            decreases 3 - index,
        {
            let row = self.cells_match(3 * index + 1, 3 * index + 2, 3 * index + 3);
            let col = self.cells_match(index + 1, index + 4, index + 7);
            proof {
                let i = index as int;
                assert(line_cells(i) == (3 * i + 1, 3 * i + 2, 3 * i + 3));
                assert(line_cells(3 + i) == (i + 1, i + 4, i + 7));
                assert(row == line_complete(self@.board, i));
                assert(col == line_complete(self@.board, 3 + i));
            }
            all_same_row = all_same_row || row;
            all_same_col = all_same_col || col;
            index = index + 1;
        }
        let all_same_diag_1 = self.cells_match(1, 5, 9);
        let all_same_diag_2 = self.cells_match(3, 5, 7);
        proof {
            assert(all_same_diag_1 == line_complete(self@.board, 6));
            assert(all_same_diag_2 == line_complete(self@.board, 7));
            if has_winning_line(self@.board) {
                let l = choose|l: int| 0 <= l < 8 && #[trigger] line_complete(self@.board, l);
                if l < 3 {
                    assert(all_same_row);
                } else if l < 6 {
                    assert(all_same_col);
                }
            }
        }
        all_same_row || all_same_col || all_same_diag_1 || all_same_diag_2
    }

    /// Whether no cell is empty.
    pub fn is_board_full(&self) -> (r: bool)
        requires
            is_grid(self@.board),
        ensures
            r == is_full(self@.board),
    {
        let mut i: usize = 0;
        while i < 9
            invariant
                is_grid(self@.board),
                i <= 9,
                forall|j: int| 0 <= j < i ==> self@.board[j] != Cell::Empty,
            decreases 9 - i,
        {
            if self.board[i] == Cell::Empty {
                return false;
            }
            i = i + 1;
        }
        true
    }

    /// Whether the round is a draw: every cell taken and no line won.
    pub fn game_is_drawn(&self) -> (r: bool)
        requires
            is_grid(self@.board),
        ensures
            r == (is_full(self@.board) && !has_winning_line(self@.board)),
    {
        self.is_board_full() && !self.game_is_won()
    }

    /// Whether `unchecked_move` numbers a cell, from 1 to 9, that is empty.
    pub fn is_valid_move(&self, unchecked_move: u32) -> (r: bool)
        requires
            is_grid(self@.board),
        ensures
            r == is_open(self@.board, unchecked_move as int),
    {
        if 1 <= unchecked_move && unchecked_move <= 9 {
            let (row, col) = to_board_location(unchecked_move);
            self.board[row * 3 + col] == Cell::Empty
        } else {
            false
        }
    }

    /// The side to move plays cell `m`. The move is refused, and nothing
    /// changes, where the round is over or `m` is no empty cell. Otherwise the
    /// mover's mark is written there, and the round is won by the mover,
    /// drawn, or goes on with the other side to move; its new standing is
    /// returned.
    pub fn play_turn(&mut self, m: u32) -> (r: Result<Status, MoveError>)
        requires
            old(self).wf(),
        ensures
            final(self).wf(),
            match step(old(self)@, m as int) {
                Some(g) => r == Ok::<Status, MoveError>(g.status) && final(self)@ == g,
                None => r == Err::<Status, MoveError>(MoveError::IllegalMove) && final(self)@
                    == old(self)@,
            },
    {
        if self.status != Status::InProgress || !self.is_valid_move(m) {
            return Err(MoveError::IllegalMove);
        }
        let token = self.get_token(self.current_turn);
        let (row, col) = to_board_location(m);
        self.board.set(row * 3 + col, Cell::Taken(token));
        let status = if self.game_is_won() {
            Status::Won(self.current_turn)
        } else if self.is_board_full() {
            Status::Draw
        } else {
            Status::InProgress
        };
        if status == Status::InProgress {
            self.current_turn = self.get_next_turn();
        }
        self.status = status;
        Ok(status)
    }

    /// Gives the player the mark that `line` names (`x` or `o`, in either
    /// case, white space around it aside) and the computer the other one.
    /// Returns false, and changes nothing, where `line` names no mark.
    pub fn assign_tokens(&mut self, line: &str) -> (r: bool)
        requires
            old(self).wf(),
        ensures
            final(self).wf(),
            match token_choice(trimmed(line@)) {
                Some(t) => r && final(self)@ == (GameState { player_token: t, ..old(self)@ }),
                None => !r && final(self)@ == old(self)@,
            },
            mark_of(final(self)@.player_token, Turn::Player) != mark_of(
                final(self)@.player_token,
                Turn::Bot,
            ),
    {
        match crate::input::read_token_choice(line) {
            Some(t) => {
                self.player_token = t;
                true
            },
            None => false,
        }
    }

    /// What a move typed as `text`, with no white space around it, comes to:
    /// the cell number where it is an empty cell, else why it is refused.
    pub fn check_move_text(&self, text: &str) -> (r: Result<u32, MoveError>)
        requires
            self.wf(),
        ensures
            r == move_verdict(self@.board, parsed_u32(text@)),
    {
        match parse_u32(text) {
            None => Err(MoveError::NotANumber),
            Some(number) => if self.is_valid_move(number) {
                Ok(number)
            } else {
                Err(MoveError::IllegalMove)
            },
        }
    }

    /// What a line that the player typed as a move comes to, white space
    /// around it aside: the cell number where it is an empty cell, else why
    /// it is refused. The round does not change.
    pub fn validate(&self, input: &str) -> (r: Result<u32, MoveError>)
        requires
            self.wf(),
        ensures
            r == move_verdict(self@.board, parsed_u32(trimmed(input@))),
    {
        self.check_move_text(trim_text(input))
    }

    /// The empty cells, in increasing order.
    pub fn open_cells(&self) -> (r: Vec<u32>)
        requires
            is_grid(self@.board),
        ensures
            r@ == open_cells(self@.board),
    {
        let mut cells: Vec<u32> = Vec::new();
        let mut i: usize = 0;
        while i < 9
            invariant
                is_grid(self@.board),
                i <= 9,
                cells@ == open_cells_upto(self@.board, i as int),
            decreases 9 - i,
        {
            if self.board[i] == Cell::Empty {
                cells.push((i + 1) as u32);
            }
            i = i + 1;
        }
        cells
    }

    /// The cell that the computer plays for the random draw `draw`: of the
    /// empty cells in increasing order, the one at `draw` modulo their number.
    pub fn bot_move_from(&self, draw: u32) -> (r: u32)
        requires
            is_grid(self@.board),
            !is_full(self@.board),
        ensures
            r == bot_choice(self@.board, draw),
            is_open(self@.board, r as int),
    {
        let cells = self.open_cells();
        proof {
            lemma_open_cells_upto(self@.board, 9);
            let i = choose|i: int| 0 <= i < 9 && self@.board[i] == Cell::Empty;
        }
        let k = draw as usize % cells.len();
        cells[k]
    }

    /// The cell that the computer plays: one of the empty cells, each as
    /// likely as the others but for the bias of a 32-bit draw.
    pub fn get_bot_move(&self) -> (r: u32)
        requires
            is_grid(self@.board),
            !is_full(self@.board),
        ensures
            is_open(self@.board, r as int),
    {
        self.bot_move_from(random_u32())
    }
}

} // verus!
