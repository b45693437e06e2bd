//! What a board is built from, and the level that it gives.

use crate::cell::{Block, Colour};
use crate::direction::{spot, Position, Size};
use crate::level::Level;
use vstd::prelude::*;

verus! {

/// One block to be put on the board.
#[derive(Clone, Copy, Debug, PartialEq, Eq)]
pub struct Placement {
    /// The square that takes the block, as `(row, column)`.
    pub position: Position,
    /// The block's colour.
    pub colour: Colour,
    /// The block's value.
    pub value: i32,
}

/// Why a board could not be built.
#[derive(Clone, Copy, Debug, PartialEq, Eq)]
pub enum ConstructionError {
    /// A line that should hold numbers does not hold the right number of
    /// them, or holds something that is no number, or a number that its place
    /// cannot take.
    Malformed,
    /// There are fewer or more rows than the size says.
    RowCount,
    /// A row is shorter or longer than the size says.
    RowLength,
    /// There are fewer or more blocks than announced.
    BlockCount,
    /// The player does not stand on a square of the board.
    PlayerOutside,
    /// A block is to be put outside the board.
    BlockOutside,
}

/// What a symbol of the layout stands for: `#` for a wall, `D` for a door,
/// anything else for an empty square.
pub open spec fn symbol(mark: char) -> Block {
    if mark == '#' {
        Block::Wall
    } else if mark == 'D' {
        Block::Door
    } else {
        Block::Empty
    }
}

/// The row of squares that a line of symbols stands for.
pub open spec fn base_row(line: Seq<char>) -> Seq<Block> {
    Seq::new(line.len(), |column: int| symbol(line[column]))
}

/// The grid that a layout stands for, before any block is put on it.
pub open spec fn base_grid(layout: Seq<Seq<char>>) -> Seq<Seq<Block>> {
    Seq::new(layout.len(), |row: int| base_row(layout[row]))
}

/// The block that a placement puts on its square.
pub open spec fn block_of(placement: Placement) -> Block {
    Block::Block(placement.colour, placement.value)
}

/// The level with the blocks put on it in the order of the list, so that of
/// two blocks on one square the later one stays.
pub open spec fn placed(level: Level, blocks: Seq<Placement>) -> Level
    decreases blocks.len(),
{
    if blocks.len() == 0 {
        level
    } else {
        placed(level, blocks.drop_last()).put(spot(blocks.last().position), block_of(blocks.last()))
    }
}

/// Whether `at` is a square of a board of the given size.
pub open spec fn on_board(size: Size, at: Position) -> bool {
    at.0 < size.0 && at.1 < size.1
}

/// The level that a board starts with, or why there is none.
///
/// The layout must have `size.0` rows of `size.1` symbols each, and the
/// player and every block must stand on the board. The first of these that
/// fails, in this order, is the error. A block may stand on any square of the
/// board, the player's too. The level is not won.
pub open spec fn built(
    size: Size,
    layout: Seq<Seq<char>>,
    player: Position,
    blocks: Seq<Placement>,
) -> Result<Level, ConstructionError> {
    if layout.len() != size.0 {
        Err(ConstructionError::RowCount)
    } else if exists|row: int| 0 <= row < layout.len() && (#[trigger] layout[row]).len() != size.1 {
        Err(ConstructionError::RowLength)
    } else if !on_board(size, player) {
        Err(ConstructionError::PlayerOutside)
    } else if exists|index: int| 0 <= index < blocks.len() && !on_board(size, (#[trigger] blocks[index]).position) {
        Err(ConstructionError::BlockOutside)
    } else {
        Ok(
            placed(
                Level { size: spot(size), grid: base_grid(layout), player: spot(player), won: false },
                blocks,
            ),
        )
    }
}

/// The lines of a layout as sequences.
pub open spec fn lines_of(layout: Vec<Vec<char>>) -> Seq<Seq<char>> {
    Seq::new(layout@.len(), |row: int| layout@[row]@)
}

/// Returns what a symbol of the layout stands for.
pub fn read_symbol(mark: char) -> (content: Block)
    ensures
        content == symbol(mark),
{
    if mark == '#' {
        Block::Wall
    } else if mark == 'D' {
        Block::Door
    } else {
        Block::Empty
    }
}

/// Returns the row of squares that a line of symbols stands for.
pub fn read_row(line: &Vec<char>) -> (row: Vec<Block>)
    ensures
        row@ == base_row(line@),
{
    let mut row: Vec<Block> = Vec::new();
    let mut column: usize = 0;
    while column < line.len()
        invariant
            column <= line.len(),
            row@ == base_row(line@).take(column as int),
        decreases line.len() - column,
    {
        row.push(read_symbol(line[column]));
        column = column + 1;
    }
    row
}

} // verus!
