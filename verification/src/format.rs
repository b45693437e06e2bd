//! The text form of a level.
//!
//! A level is written as lines, separated by line feeds:
//!
//! - one line with the number of rows and the number of columns;
//! - one line for each row of the board, a symbol for each square;
//! - one line with the player's row and column;
//! - one line with the number of blocks;
//! - one line for each block: its column, its row, the red, green and blue of
//!   its colour, and its value.
//!
//! The numbers of a line are separated by single spaces.

use crate::layout::{lines_of, ConstructionError, Placement};
use crate::direction::{Position, Size};
use crate::text::{chars_of, number_within, read_i32, read_u8, read_usize, split, split_at};
use vstd::prelude::*;

verus! {

/// What a level's text says, before any of it is held against the rest.
pub struct LevelData {
    /// Number of rows and of columns.
    pub size: Size,
    /// The rows of the board, a symbol for each square.
    pub layout: Vec<Vec<char>>,
    /// Where the player starts.
    pub player: Position,
    /// The blocks to put on the board, in the order of the text.
    pub blocks: Vec<Placement>,
}

/// The content of a [`LevelData`] in specifications.
pub struct Parts {
    /// Number of rows and of columns.
    pub size: Size,
    /// The rows of the board.
    pub layout: Seq<Seq<char>>,
    /// Where the player starts.
    pub player: Position,
    /// The blocks to put on the board.
    pub blocks: Seq<Placement>,
}

impl View for LevelData {
    type V = Parts;

    open spec fn view(&self) -> Parts {
        Parts {
            size: self.size,
            layout: lines_of(self.layout),
            player: self.player,
            blocks: self.blocks@,
        }
    }
}

/// The number of a field that must fit a `usize`.
pub open spec fn usize_field(field: Seq<char>) -> Option<usize> {
    match number_within(field, 0, usize::MAX as int) {
        Some(number) => Some(number as usize),
        None => None,
    }
}

/// The two numbers of a line that holds exactly two, each fitting a `usize`.
pub open spec fn pair_of(line: Seq<char>) -> Option<(usize, usize)> {
    let fields = split(line, ' ');
    if fields.len() == 2 {
        match (usize_field(fields[0]), usize_field(fields[1])) {
            (Some(first), Some(second)) => Some((first, second)),
            _ => None,
        }
    } else {
        None
    }
}

/// The number of a line that holds exactly one, fitting a `usize`.
pub open spec fn count_of(line: Seq<char>) -> Option<usize> {
    let fields = split(line, ' ');
    if fields.len() == 1 {
        usize_field(fields[0])
    } else {
        None
    }
}

/// The block that a line describes: exactly six numbers, which are the
/// column and the row (each fitting a `usize`), the red, green and blue of the
/// colour (each from 0 to 255) and the value (fitting an `i32`).
pub open spec fn placement_of(line: Seq<char>) -> Option<Placement> {
    let fields = split(line, ' ');
    if fields.len() == 6 {
        match (
            usize_field(fields[0]),
            usize_field(fields[1]),
            number_within(fields[2], 0, u8::MAX as int),
            number_within(fields[3], 0, u8::MAX as int),
            number_within(fields[4], 0, u8::MAX as int),
            number_within(fields[5], i32::MIN as int, i32::MAX as int),
        ) {
            (Some(column), Some(row), Some(red), Some(green), Some(blue), Some(value)) => Some(
                Placement {
                    position: (row, column),
                    colour: (red as u8, green as u8, blue as u8),
                    value: value as i32,
                },
            ),
            _ => None,
        }
    } else {
        None
    }
}

/// What a level's text says, or why it says nothing.
///
/// The first line must hold the size; then the text must have lines enough
/// for the rows, the player and the number of blocks; those two lines must
/// hold what they should; the text must then have exactly one more line for
/// each block; and each of these must describe a block. The first of these
/// that fails, in this order, is the error.
pub open spec fn parsed(text: Seq<char>) -> Result<Parts, ConstructionError> {
    let lines = split(text, '\n');
    match pair_of(lines[0]) {
        None => Err(ConstructionError::Malformed),
        Some(size) => if lines.len() < size.0 + 3 {
            Err(ConstructionError::RowCount)
        } else {
            match (pair_of(lines[size.0 + 1]), count_of(lines[size.0 + 2])) {
                (Some(player), Some(count)) => if lines.len() != size.0 + 3 + count {
                    Err(ConstructionError::BlockCount)
                } else if exists|index: int|
                    size.0 + 3 <= index < lines.len() && placement_of(#[trigger] lines[index]) is None {
                    Err(ConstructionError::Malformed)
                } else {
                    Ok(
                        Parts {
                            size,
                            layout: lines.subrange(1, size.0 + 1),
                            player,
                            blocks: Seq::new(
                                count as nat,
                                |index: int| placement_of(lines[size.0 + 3 + index])->Some_0,
                            ),
                        },
                    )
                },
                _ => Err(ConstructionError::Malformed),
            }
        },
    }
}

/// Reads a line of two numbers.
pub fn read_pair(line: &Vec<char>) -> (pair: Option<(usize, usize)>)
    ensures
        pair == pair_of(line@),
{
    let fields = split_at(line, ' ');
    if fields.len() != 2 {
        return None;
    }
    assert(lines_of(fields)[0] == fields@[0]@);
    assert(lines_of(fields)[1] == fields@[1]@);
    match (read_usize(&fields[0]), read_usize(&fields[1])) {
        (Some(first), Some(second)) => Some((first, second)),
        _ => None,
    }
}

/// Reads a line of one number.
pub fn read_count(line: &Vec<char>) -> (count: Option<usize>)
    ensures
        count == count_of(line@),
{
    let fields = split_at(line, ' ');
    if fields.len() != 1 {
        return None;
    }
    assert(lines_of(fields)[0] == fields@[0]@);
    read_usize(&fields[0])
}

/// Reads a line that describes a block.
pub fn read_placement(line: &Vec<char>) -> (placement: Option<Placement>)
    ensures
        placement == placement_of(line@),
{
    let fields = split_at(line, ' ');
    if fields.len() != 6 {
        return None;
    }
    assert(lines_of(fields)[0] == fields@[0]@);
    assert(lines_of(fields)[1] == fields@[1]@);
    assert(lines_of(fields)[2] == fields@[2]@);
    assert(lines_of(fields)[3] == fields@[3]@);
    assert(lines_of(fields)[4] == fields@[4]@);
    assert(lines_of(fields)[5] == fields@[5]@);
    let column = read_usize(&fields[0]);
    let row = read_usize(&fields[1]);
    let red = read_u8(&fields[2]);
    let green = read_u8(&fields[3]);
    let blue = read_u8(&fields[4]);
    let value = read_i32(&fields[5]);
    match (column, row, red, green, blue, value) {
        (Some(column), Some(row), Some(red), Some(green), Some(blue), Some(value)) => Some(
            Placement { position: (row, column), colour: (red, green, blue), value },
        ),
        _ => None,
    }
}

/// Reads the text of a level.
///
/// Returns what the text says ([`parsed`]), or the error that [`parsed`]
/// names.
#[verifier::loop_isolation(false)]
pub fn parse_level(text: &str) -> (result: Result<LevelData, ConstructionError>)
    ensures
        match parsed(text@) {
            Ok(parts) => result matches Ok(data) && data@ == parts,
            Err(error) => result == Err::<LevelData, ConstructionError>(error),
        },
{
    let marks = chars_of(text);
    let lines = split_at(&marks, '\n');
    let ghost all = split(text@, '\n');
    assert(lines.len() >= 1) by {
        lemma_split_some(text@, '\n');
    }
    assert(all[0] == lines@[0]@);
    let size = match read_pair(&lines[0]) {
        Some(size) => size,
        None => {
            return Err(ConstructionError::Malformed);
        },
    };
    if lines.len() < 3 || lines.len() - 3 < size.0 {
        return Err(ConstructionError::RowCount);
    }
    assert(all[size.0 + 1] == lines@[size.0 + 1]@);
    assert(all[size.0 + 2] == lines@[size.0 + 2]@);
    let player = read_pair(&lines[size.0 + 1]);
    let count = read_count(&lines[size.0 + 2]);
    let (player, count) = match (player, count) {
        (Some(player), Some(count)) => (player, count),
        _ => {
            return Err(ConstructionError::Malformed);
        },
    };
    if lines.len() - 3 - size.0 != count {
        return Err(ConstructionError::BlockCount);
    }
    let mut layout: Vec<Vec<char>> = Vec::new();
    let mut row: usize = 0;
    while row < size.0
        invariant
            row <= size.0,
            lines_of(layout) == all.subrange(1, row + 1),
        decreases size.0 - row,
    {
        let line = chars_copy(&lines[row + 1]);
        assert(all[row + 1] == lines@[row + 1]@);
        layout.push(line);
        assert(lines_of(layout) =~= all.subrange(1, row + 2));
        row = row + 1;
    }
    let mut blocks: Vec<Placement> = Vec::new();
    let mut index: usize = 0;
    let first: usize = size.0 + 3;
    while index < count
        invariant
            index <= count,
            blocks@.len() == index,
            forall|earlier: int|
                first <= earlier < first + index ==> placement_of(#[trigger] all[earlier]) is Some,
            forall|earlier: int|
                0 <= earlier < index ==> blocks@[earlier] == placement_of(
                    all[first + earlier],
                )->Some_0,
        decreases count - index,
    {
        assert(all[first + index] == lines@[first + index]@);
        match read_placement(&lines[first + index]) {
            Some(placement) => {
                blocks.push(placement);
            },
            None => {
                assert(placement_of(all[first + index]) is None);
                return Err(ConstructionError::Malformed);
            },
        }
        index = index + 1;
    }
    let data = LevelData { size, layout, player, blocks };
    assert(data@.blocks =~= parsed(text@)->Ok_0.blocks);
    Ok(data)
}

/// A copy of a line.
pub fn chars_copy(line: &Vec<char>) -> (copy: Vec<char>)
    ensures
        copy@ == line@,
{
    let mut copy: Vec<char> = Vec::new();
    let mut index: usize = 0;
    while index < line.len()
        invariant
            index <= line.len(),
            copy@ == line@.take(index as int),
        decreases line.len() - index,
    {
        copy.push(line[index]);
        index = index + 1;
    }
    assert(line@.take(index as int) =~= line@);
    copy
}

/// A text always has at least one piece.
pub proof fn lemma_split_some(text: Seq<char>, mark: char)
    ensures
        split(text, mark).len() >= 1,
    decreases text.len(),
{
    if text.len() > 0 {
        lemma_split_some(text.drop_last(), mark);
    }
}

} // verus!
