use vstd::prelude::*;

verus! {

/// One of the two marks that players place on the grid.
#[derive(Clone, Copy, Debug, PartialEq, Eq, Structural)]
pub enum Token {
    X,
    O,
}

/// The content of one cell of the grid.
#[derive(Clone, Copy, Debug, PartialEq, Eq, Structural)]
pub enum Cell {
    Empty,
    Taken(Token),
}

/// The mark that is not `t`.
pub open spec fn other_token(t: Token) -> Token {
    match t {
        Token::X => Token::O,
        Token::O => Token::X,
    }
}

impl Token {
    /// The opposite mark.
    pub fn other(self) -> (r: Token)
        ensures
            r == other_token(self),
            r != self,
    {
        match self {
            Token::X => Token::O,
            Token::O => Token::X,
        }
    }

    /// The text shown for the mark: "X" or "O".
    pub fn as_str(self) -> (r: &'static str)
        ensures
            r@ == token_text(self),
    {
        match self {
            Token::X => "X",
            Token::O => "O",
        }
    }
}

/// The text of a mark.
pub open spec fn token_text(t: Token) -> Seq<char> {
    match t {
        Token::X => "X"@,
        Token::O => "O"@,
    }
}

/// Cells are numbered 1 to 9, row by row.
pub open spec fn is_cell_index(m: int) -> bool {
    1 <= m <= 9
}

/// The row and column of cell `m`.
pub open spec fn location_of(m: int) -> (int, int) {
    ((m - 1) / 3, (m - 1) % 3)
}

/// The cell number at row `row`, column `col`.
pub open spec fn index_of(row: int, col: int) -> int {
    row * 3 + col + 1
}

/// A grid: nine cells, the one numbered `m` at position `m - 1`.
pub open spec fn is_grid(b: Seq<Cell>) -> bool {
    b.len() == 9
}

/// Cell `m` of the grid is empty.
pub open spec fn is_open(b: Seq<Cell>, m: int) -> bool {
    is_cell_index(m) && b[m - 1] == Cell::Empty
}

/// No cell of the grid is empty.
pub open spec fn is_full(b: Seq<Cell>) -> bool {
    forall|i: int| 0 <= i < 9 ==> b[i] != Cell::Empty
}

/// The three cell numbers of line `l`: rows first, then columns, then the
/// two diagonals.
pub open spec fn line_cells(l: int) -> (int, int, int) {
    if l == 0 {
        (1, 2, 3)
    } else if l == 1 {
        (4, 5, 6)
    } else if l == 2 {
        (7, 8, 9)
    } else if l == 3 {
        (1, 4, 7)
    } else if l == 4 {
        (2, 5, 8)
    } else if l == 5 {
        (3, 6, 9)
    } else if l == 6 {
        (1, 5, 9)
    } else {
        (3, 5, 7)
    }
}

/// Cells `a`, `b` and `c` hold one and the same mark.
pub open spec fn same_mark(g: Seq<Cell>, a: int, b: int, c: int) -> bool {
    g[a - 1] != Cell::Empty && g[a - 1] == g[b - 1] && g[b - 1] == g[c - 1]
}

/// Line `l` is filled with one mark.
pub open spec fn line_complete(g: Seq<Cell>, l: int) -> bool {
    let (a, b, c) = line_cells(l);
    same_mark(g, a, b, c)
}

/// Some line of the grid is filled with one mark.
pub open spec fn has_winning_line(g: Seq<Cell>) -> bool {
    exists|l: int| 0 <= l < 8 && #[trigger] line_complete(g, l)
}

/// The row and column of cell `game_move`, both counted from 0.
pub fn to_board_location(game_move: u32) -> (r: (usize, usize))
    requires
        is_cell_index(game_move as int),
    ensures
        (r.0 as int, r.1 as int) == location_of(game_move as int),
{
    let row = (game_move - 1) / 3;
    let col = (game_move - 1) % 3;
    (row as usize, col as usize)
}

/// The cell number at a row and a column, both counted from 0.
pub fn location_to_index(row: usize, col: usize) -> (r: u32)
    requires
        row < 3,
        col < 3,
    ensures
        r as int == index_of(row as int, col as int),
{
    (row * 3 + col + 1) as u32
}

/// Cell numbers and grid locations correspond one to one: every cell number
/// has a location inside the grid from which it is found again, and every
/// location inside the grid has a cell number that leads back to it.
pub proof fn lemma_location_bijection(m: int, row: int, col: int)
    ensures
        is_cell_index(m) ==> {
            let (r, c) = location_of(m);
            &&& 0 <= r < 3
            &&& 0 <= c < 3
            &&& index_of(r, c) == m
        },
        0 <= row < 3 && 0 <= col < 3 ==> {
            &&& is_cell_index(index_of(row, col))
            &&& location_of(index_of(row, col)) == (row, col)
        },
{
}

} // verus!
