//! The board as a grid of labelled, coloured cells, ready to be drawn.
//!
//! Squares are numbered along a serpentine path: the bottom row runs from left
//! to right, the row above it from right to left, and so on upwards.

use crate::board::{BoardConfig, BoardView};
use crate::engine::{displaced, first_other_on, squares, MatchState, MatchView};
use crate::text::{decimal, lemma_decimal_len_u32, pad_right, padded, push_decimal};
use vstd::prelude::*;
use vstd::string::StringExecFns;

verus! {

/// The width that the label of a square without a player is measured
/// against: such a label is filled up to this width less the number of bytes
/// of its text.
pub const LABEL_WIDTH: usize = 20;

/// The width of the label of a cell with a player on it.
pub const PLAYER_LABEL_WIDTH: usize = 18;

/// The bytes that the arrow of a snake or ladder label takes beyond its one
/// character.
pub const ARROW_EXTRA_BYTES: usize = 2;

/// The colour of a cell.
#[derive(Debug, Clone, Copy, PartialEq, Eq, Structural)]
pub enum CellColor {
    /// An empty square.
    White,
    /// The first player.
    Blue,
    /// The second player.
    Green,
    /// The third player.
    Yellow,
    /// The fourth player.
    Red,
    /// The head of a snake.
    DarkRed,
    /// The bottom of a ladder.
    DarkGreen,
}

/// One cell of the grid.
pub struct Cell {
    /// The number of the square.
    pub number: u32,
    /// The text to show.
    pub label: String,
    /// The colour to show it in.
    pub color: CellColor,
}

/// A cell as contracts see it.
pub struct CellView {
    /// The number of the square.
    pub number: nat,
    /// The text to show.
    pub label: Seq<char>,
    /// The colour to show it in.
    pub color: CellColor,
}

impl View for Cell {
    type V = CellView;

    open spec fn view(&self) -> CellView {
        CellView { number: self.number as nat, label: self.label@, color: self.color }
    }
}

/// The number of the square in row `row` (0 at the bottom) and column `col`
/// (0 at the left) of a board with `width` squares per row.
pub open spec fn cell_number(row: int, col: int, width: int) -> int {
    if row % 2 == 0 {
        row * width + col + 1
    } else {
        (row + 1) * width - col
    }
}

/// The label of an empty square: its number, filled up to [`LABEL_WIDTH`]
/// less the number of its digits.
pub open spec fn number_label(number: nat) -> Seq<char> {
    padded(decimal(number), (LABEL_WIDTH - decimal(number).len()) as nat)
}

/// The label of a square with a player on it: `P` and the player's number,
/// filled up to [`PLAYER_LABEL_WIDTH`].
pub open spec fn player_label(player: nat) -> Seq<char> {
    padded("P"@ + decimal(player), PLAYER_LABEL_WIDTH as nat)
}

/// A label that points to another square: `mark` (a letter and an arrow) and
/// the square, filled up to [`LABEL_WIDTH`] less the number of bytes of that
/// text, which is its length and [`ARROW_EXTRA_BYTES`].
pub open spec fn arrow_label(mark: Seq<char>, target: nat) -> Seq<char> {
    let text = mark + decimal(target);
    padded(text, (LABEL_WIDTH - (text.len() + ARROW_EXTRA_BYTES)) as nat)
}

/// The label of the head of a snake that leads to `tail`.
pub open spec fn snake_label(tail: nat) -> Seq<char> {
    arrow_label("S\u{2192}"@, tail)
}

/// The label of the bottom of a ladder that leads to `top`.
pub open spec fn ladder_label(top: nat) -> Seq<char> {
    arrow_label("L\u{2192}"@, top)
}

/// The colour of the player with index `player`.
pub open spec fn player_color(player: nat) -> CellColor {
    if player == 0 {
        CellColor::Blue
    } else if player == 1 {
        CellColor::Green
    } else if player == 2 {
        CellColor::Yellow
    } else if player == 3 {
        CellColor::Red
    } else {
        CellColor::White
    }
}

/// The lowest-numbered player who stands on `square`, if anyone does.
pub open spec fn occupant(positions: Seq<nat>, square: nat) -> Option<nat> {
    displaced(positions, positions.len(), square)
}

/// The cell for square `number`: a snake's head shows the snake, else a
/// ladder's bottom shows the ladder, else a square with players on it shows
/// the first of them, else the square shows its number.
pub open spec fn cell_of(board: BoardView, positions: Seq<nat>, number: nat) -> CellView {
    if board.snakes.contains_key(number) {
        CellView { number, label: snake_label(board.snakes[number]), color: CellColor::DarkRed }
    } else if board.ladders.contains_key(number) {
        CellView { number, label: ladder_label(board.ladders[number]), color: CellColor::DarkGreen }
    } else {
        match occupant(positions, number) {
            Some(player) => CellView {
                number,
                label: player_label(player + 1),
                color: player_color(player),
            },
            None => CellView { number, label: number_label(number), color: CellColor::White },
        }
    }
}

/// Where the players of a match stand; without a match nobody stands
/// anywhere.
pub open spec fn standing(state: Option<MatchView>) -> Seq<nat> {
    match state {
        Some(s) => s.positions,
        None => Seq::empty(),
    }
}

/// The grid of a board with the players at `positions`: as many rows as a row
/// has squares, the top row first, each row from left to right.
pub open spec fn grid_of(board: BoardView, positions: Seq<nat>) -> Seq<Seq<CellView>> {
    Seq::new(
        board.width,
        |r: int|
            Seq::new(
                board.width,
                |c: int|
                    cell_of(
                        board,
                        positions,
                        cell_number(board.width - 1 - r, c, board.width as int) as nat,
                    ),
            ),
    )
}

/// Computes [`cell_number`].
fn serpentine_number(row: u32, col: u32, width: u32) -> (number: u32)
    requires
        row < width,
        col < width,
        width <= 1000,
    ensures
        number == cell_number(row as int, col as int, width as int),
        1 <= number <= width * width,
{
    assert(row * width + width <= width * width) by (nonlinear_arith)
        requires
            row < width,
    ;
    assert(width * width <= 1_000_000) by (nonlinear_arith)
        requires
            width <= 1000,
    ;
    assert((row + 1) * width == row * width + width) by (nonlinear_arith);
    assert(0 <= row * width) by (nonlinear_arith);
    if row % 2 == 0 {
        row * width + col + 1
    } else {
        (row + 1) * width - col
    }
}

/// Writes [`number_label`].
fn number_text(number: u32) -> (label: String)
    ensures
        label@ == number_label(number as nat),
{
    let mut label = String::new();
    push_decimal(&mut label, number as u64);
    proof {
        lemma_decimal_len_u32(number);
        assert(label@ =~= decimal(number as nat));
    }
    let digits = label.as_str().unicode_len();
    pad_right(&mut label, LABEL_WIDTH - digits);
    label
}

/// Writes [`player_label`].
fn player_text(player: u32) -> (label: String)
    ensures
        label@ == player_label(player as nat),
{
    let mut label = String::from_str("P");
    push_decimal(&mut label, player as u64);
    pad_right(&mut label, PLAYER_LABEL_WIDTH);
    label
}

/// Writes [`arrow_label`] for a mark of two characters.
fn arrow_text(mark: &str, target: u32) -> (label: String)
    requires
        mark@.len() == 2,
    ensures
        label@ == arrow_label(mark@, target as nat),
{
    let mut label = String::from_str(mark);
    push_decimal(&mut label, target as u64);
    proof {
        lemma_decimal_len_u32(target);
    }
    let length = label.as_str().unicode_len();
    pad_right(&mut label, LABEL_WIDTH - (length + ARROW_EXTRA_BYTES));
    label
}

/// Picks [`player_color`].
fn color_of_player(player: usize) -> (color: CellColor)
    ensures
        color == player_color(player as nat),
{
    if player == 0 {
        CellColor::Blue
    } else if player == 1 {
        CellColor::Green
    } else if player == 2 {
        CellColor::Yellow
    } else if player == 3 {
        CellColor::Red
    } else {
        CellColor::White
    }
}

/// Makes the cell for square `number`.
fn cell_for(board: &BoardConfig, positions: &Vec<u32>, number: u32) -> (cell: Cell)
    requires
        positions@.len() < u32::MAX,
    ensures
        cell@ == cell_of(board@, squares(positions@), number as nat),
{
    proof {
        reveal_strlit("S\u{2192}");
        reveal_strlit("L\u{2192}");
    }
    match board.snake_at(number) {
        Some(tail) => Cell {
            number,
            label: arrow_text("S\u{2192}", tail),
            color: CellColor::DarkRed,
        },
        None => match board.ladder_at(number) {
            Some(top) => Cell {
                number,
                label: arrow_text("L\u{2192}", top),
                color: CellColor::DarkGreen,
            },
            None => match first_other_on(positions, positions.len(), number) {
                Some(player) => Cell {
                    number,
                    label: player_text(player as u32 + 1),
                    color: color_of_player(player),
                },
                None => Cell { number, label: number_text(number), color: CellColor::White },
            },
        },
    }
}

/// The board as rows of cells, the top row first, with the players of
/// `state` on it: see [`grid_of`].
pub fn board_grid(board: &BoardConfig, state: Option<&MatchState>) -> (rows: Vec<Vec<Cell>>)
    ensures
        rows@.len() == board@.width,
        forall|r: int| 0 <= r < rows@.len() ==> (#[trigger] rows@[r])@.len() == board@.width,
        forall|r: int, c: int|
            0 <= r < board@.width && 0 <= c < board@.width ==> (#[trigger] rows@[r]@[c])@
                == grid_of(
                board@,
                standing(
                    match state {
                        Some(s) => Some(s@),
                        None => None,
                    },
                ),
            )[r][c],
{
    match state {
        Some(s) => grid_for(board, s.positions()),
        None => {
            let nobody: Vec<u32> = Vec::new();
            assert(squares(nobody@) =~= Seq::<nat>::empty());
            grid_for(board, &nobody)
        },
    }
}

/// Makes the grid of `board` with the players at `positions`.
fn grid_for(board: &BoardConfig, positions: &Vec<u32>) -> (rows: Vec<Vec<Cell>>)
    requires
        positions@.len() < u32::MAX,
    ensures
        rows@.len() == board@.width,
        forall|r: int| 0 <= r < rows@.len() ==> (#[trigger] rows@[r])@.len() == board@.width,
        forall|r: int, c: int|
            0 <= r < board@.width && 0 <= c < board@.width ==> (#[trigger] rows@[r]@[c])@
                == grid_of(board@, squares(positions@))[r][c],
{
    let width = board.width();
    let mut rows: Vec<Vec<Cell>> = Vec::new();
    let mut r: u32 = 0;
    while r < width
        invariant
            r <= width,
            width == board@.width,
            width == 10,
            positions@.len() < u32::MAX,
            rows@.len() == r,
            forall|i: int| 0 <= i < r ==> (#[trigger] rows@[i])@.len() == width,
            forall|i: int, c: int|
                0 <= i < r && 0 <= c < width ==> (#[trigger] rows@[i]@[c])@ == grid_of(
                    board@,
                    squares(positions@),
                )[i][c],
        decreases width - r,
    {
        let row = width - 1 - r;
        let mut cells: Vec<Cell> = Vec::new();
        let mut c: u32 = 0;
        while c < width
            invariant
                c <= width,
                row < width,
                row == width - 1 - r,
                width == board@.width,
                width == 10,
                positions@.len() < u32::MAX,
                cells@.len() == c,
                forall|j: int|
                    0 <= j < c ==> (#[trigger] cells@[j])@ == grid_of(
                        board@,
                        squares(positions@),
                    )[r as int][j],
            decreases width - c,
        {
            let number = serpentine_number(row, c, width);
            cells.push(cell_for(board, positions, number));
            c = c + 1;
        }
        rows.push(cells);
        r = r + 1;
    }
    rows
}

} // verus!
