//! The executable board.

use crate::cell::{same_colour, Block};
use crate::direction::{spot, step, step_assign, Direction, Position, Size, Spot};
use crate::format::{parse_level, parsed};
use crate::layout::{
    base_grid, block_of, built, lines_of, on_board, placed, read_row, ConstructionError, Placement,
};
use crate::level::{lemma_merge, lemma_push, lemma_push_frame, lemma_put, lemma_swap, Level};
use vstd::prelude::*;

verus! {

/// The rows of a grid as sequences.
pub open spec fn rows_of(grid: Vec<Vec<Block>>) -> Seq<Seq<Block>> {
    Seq::new(grid@.len(), |row: int| grid@[row]@)
}

/// The level that a text describes, or why it describes none: what the text
/// says ([`parsed`]), built into a level ([`built`]).
pub open spec fn level_of(text: Seq<char>) -> Result<Level, ConstructionError> {
    match parsed(text) {
        Ok(parts) => built(parts.size, parts.layout, parts.player, parts.blocks),
        Err(error) => Err(error),
    }
}

/// A board in play: the grid, the player standing on it, and whether the
/// player has won.
///
/// What a board is to the rules is its view, a [`Level`]. Every board that
/// this module hands out is well formed ([`Board::wf`]), and every method
/// keeps it so.
pub struct Board {
    size: Size,
    board: Vec<Vec<Block>>,
    player_position: Position,
    player_has_won: bool,
    snapshots: Vec<(Position, Vec<Vec<Block>>)>,
}

impl View for Board {
    type V = Level;

    closed spec fn view(&self) -> Level {
        Level {
            size: spot(self.size),
            grid: rows_of(self.board),
            player: spot(self.player_position),
            won: self.player_has_won,
        }
    }
}

impl Board {
    /// The board's level is well formed: the grid is rectangular, and the
    /// player stands on a square of it.
    pub open spec fn wf(&self) -> bool {
        self@.wf()
    }

    /// The earlier states that the board keeps, oldest first, each as the
    /// player's position and the grid. No move records or reads one.
    pub closed spec fn history(&self) -> Seq<(Spot, Seq<Seq<Block>>)> {
        Seq::new(
            self.snapshots@.len(),
            |index: int| (spot(self.snapshots@[index].0), rows_of(self.snapshots@[index].1)),
        )
    }

    /// Builds a board from its size, the layout of its walls and doors, the
    /// player's position and the blocks to put on it.
    ///
    /// Returns the board whose level is [`built`] from these, with an empty
    /// history, or the error that [`built`] names.
    #[verifier::loop_isolation(false)]
    pub fn construct(
        size: Size,
        layout: &Vec<Vec<char>>,
        player: Position,
        blocks: &Vec<Placement>,
    ) -> (result: Result<Board, ConstructionError>)
        ensures
            match built(size, lines_of(*layout), player, blocks@) {
                Ok(level) => result matches Ok(board) && board@ == level && board.wf()
                    && board.history().len() == 0,
                Err(error) => result == Err::<Board, ConstructionError>(error),
            },
    {
        if layout.len() != size.0 {
            return Err(ConstructionError::RowCount);
        }
        let mut grid: Vec<Vec<Block>> = Vec::new();
        let mut row: usize = 0;
        while row < layout.len()
            invariant
                row <= layout.len(),
                grid@.len() == row,
                forall|above: int| 0 <= above < row ==> (#[trigger] lines_of(*layout)[above]).len() == size.1,
                forall|above: int| 0 <= above < row ==> (#[trigger] grid@[above])@ == base_grid(lines_of(*layout))[above],
            decreases layout.len() - row,
        {
            if layout[row].len() != size.1 {
                assert(lines_of(*layout)[row as int].len() != size.1);
                return Err(ConstructionError::RowLength);
            }
            grid.push(read_row(&layout[row]));
            row = row + 1;
        }
        if player.0 >= size.0 || player.1 >= size.1 {
            return Err(ConstructionError::PlayerOutside);
        }
        let mut index: usize = 0;
        while index < blocks.len()
            invariant
                index <= blocks.len(),
                forall|earlier: int| 0 <= earlier < index ==> on_board(size, (#[trigger] blocks@[earlier]).position),
            decreases blocks.len() - index,
        {
            let at = blocks[index].position;
            if at.0 >= size.0 || at.1 >= size.1 {
                assert(!on_board(size, blocks@[index as int].position));
                return Err(ConstructionError::BlockOutside);
            }
            index = index + 1;
        }
        let mut board = Board {
            size,
            board: grid,
            player_position: player,
            player_has_won: false,
            snapshots: Vec::new(),
        };
        let ghost base = Level {
            size: spot(size),
            grid: base_grid(lines_of(*layout)),
            player: spot(player),
            won: false,
        };
        assert(board@.grid =~= base.grid);
        index = 0;
        while index < blocks.len()
            invariant
                index <= blocks.len(),
                on_board(size, player),
                forall|any: int| 0 <= any < blocks.len() ==> on_board(size, (#[trigger] blocks@[any]).position),
                board@.size == spot(size),
                board@.player == spot(player),
                board@ == placed(base, blocks@.take(index as int)),
                board.wf(),
                board.history().len() == 0,
            decreases blocks.len() - index,
        {
            let placement = blocks[index];
            proof {
                lemma_put(board@, spot(placement.position), block_of(placement));
                assert(blocks@.take(index + 1).drop_last() =~= blocks@.take(index as int));
            }
            board.place(placement.position, Block::Block(placement.colour, placement.value));
            index = index + 1;
        }
        assert(blocks@.take(index as int) =~= blocks@);
        Ok(board)
    }

    /// Builds a board from the text of a level.
    ///
    /// Returns the board whose level the text describes ([`level_of`]), with an
    /// empty history, or the error that [`level_of`] names.
    pub fn from(level_data: &str) -> (result: Result<Board, ConstructionError>)
        ensures
            match level_of(level_data@) {
                Ok(level) => result matches Ok(board) && board@ == level && board.wf()
                    && board.history().len() == 0,
                Err(error) => result == Err::<Board, ConstructionError>(error),
            },
    {
        match parse_level(level_data) {
            Ok(data) => Board::construct(data.size, &data.layout, data.player, &data.blocks),
            Err(error) => Err(error),
        }
    }

    /// Returns where the player stands, as `(row, column)`.
    pub fn get_player_position(&self) -> (position: Position)
        ensures
            spot(position) == self@.player,
    {
        self.player_position
    }

    /// Returns whether the level is won.
    pub fn player_has_won(&self) -> (won: bool)
        ensures
            won == self@.won,
    {
        self.player_has_won
    }

    /// Returns the dimensions of the board, as `(rows, columns)`.
    pub fn get_board_size(&self) -> (size: Size)
        ensures
            spot(size) == self@.size,
    {
        self.size
    }

    /// Returns what the square `at` holds, or `None` if `at` is no square of
    /// the board.
    pub fn get_block(&self, at: Position) -> (content: Option<Block>)
        requires
            self.wf(),
        ensures
            content == if self@.inside(spot(at)) {
                Some(self@.at(spot(at)))
            } else {
                None
            },
    {
        if at.0 < self.size.0 && at.1 < self.size.1 {
            Some(self.content(at))
        } else {
            None
        }
    }

    fn content(&self, at: Position) -> (content: Block)
        requires
            self@.shaped(),
            self@.inside(spot(at)),
        ensures
            content == self@.at(spot(at)),
    {
        assert(self@.grid[at.0 as int].len() == self@.size.1);
        self.board[at.0][at.1]
    }

    fn place(&mut self, at: Position, content: Block)
        requires
            old(self)@.shaped(),
            old(self)@.inside(spot(at)),
        ensures
            final(self)@ == old(self)@.put(spot(at), content),
            final(self).history() == old(self).history(),
    {
        assert(self@.grid[at.0 as int].len() == self@.size.1);
        self.board[at.0][at.1] = content;
        assert(self@.grid =~= old(self)@.put(spot(at), content).grid);
    }

    fn exchange(&mut self, a: Position, b: Position)
        requires
            old(self)@.shaped(),
            old(self)@.inside(spot(a)),
            old(self)@.inside(spot(b)),
        ensures
            final(self)@ == old(self)@.swap(spot(a), spot(b)),
            final(self).history() == old(self).history(),
    {
        let first = self.content(a);
        let second = self.content(b);
        self.place(a, second);
        proof {
            lemma_put(old(self)@, spot(a), second);
        }
        self.place(b, first);
    }

    /// Tries to move what stands on `coord` one step in direction `to`:
    /// the player if `coord` is the player's square, the content of `coord`
    /// otherwise. Returns whether it moved. The board afterwards, and the
    /// result, are those of [`Level::push`].
    ///
    /// This is one link of a move: it leaves the player's position alone. Use
    /// [`Board::handle_move`] to move the player.
    pub fn try_move(&mut self, coord: Position, to: &Direction) -> (moved: bool)
        requires
            old(self).wf(),
            old(self)@.inside(spot(coord)),
        ensures
            final(self)@ == old(self)@.push(spot(coord), *to).0,
            moved == old(self)@.push(spot(coord), *to).1,
            final(self).wf(),
            final(self).history() == old(self).history(),
        decreases old(self)@.room(spot(coord), *to), old(self)@.blocks_at(spot(coord)),
    {
        proof {
            lemma_push_frame(self@, spot(coord), *to);
        }
        let final_position = step(coord, to);
        if final_position.0 >= self.size.0 || final_position.1 >= self.size.1 {
            return false;
        }
        let move_block = coord.0 != self.player_position.0 || coord.1 != self.player_position.1;
        match self.content(final_position) {
            Block::Empty => {
                if move_block {
                    self.exchange(coord, final_position);
                }
                true
            },
            Block::Wall => false,
            Block::Door => {
                self.player_has_won = !move_block;
                !move_block
            },
            Block::Block(colour, value) => {
                if !move_block && final_position.0 == coord.0 && final_position.1 == coord.1 {
                    return false;
                }
                if move_block {
                    match self.content(coord) {
                        Block::Block(current_colour, current_value) => {
                            if same_colour(colour, current_colour) {
                                self.place(coord, Block::Empty);
                            }
                            proof {
                                lemma_put(old(self)@, spot(coord), Block::Empty);
                            }
                            if value == current_value {
                                self.place(final_position, Block::Empty);
                            } else {
                                self.place(
                                    final_position,
                                    Block::Block(colour, value.wrapping_add(current_value)),
                                );
                            }
                        },
                        _ => {},
                    }
                }
                proof {
                    lemma_merge(old(self)@, spot(coord), spot(final_position));
                    let merged = if move_block {
                        old(self)@.merge(spot(coord), spot(final_position))
                    } else {
                        old(self)@
                    };
                    assert(self@ == merged);
                    lemma_push_frame(merged, spot(final_position), *to);
                    lemma_swap(
                        merged.push(spot(final_position), *to).0,
                        spot(coord),
                        spot(final_position),
                    );
                }
                let can_move = self.try_move(final_position, to);
                if can_move && move_block {
                    self.exchange(coord, final_position);
                }
                can_move
            },
        }
    }

    /// Asks the player to move one step in `direction`.
    ///
    /// Blocks in the way are pushed, and merged where they meet. If the push
    /// succeeds, the player takes the step; if it does not, the player stays,
    /// and the blocks that were merged on the way stay merged. The level is
    /// won when the player steps onto a door.
    pub fn handle_move(&mut self, direction: Direction)
        requires
            old(self).wf(),
        ensures
            final(self)@ == old(self)@.moved(direction),
            final(self).wf(),
            final(self).history() == old(self).history(),
    {
        proof {
            lemma_push_frame(self@, self@.player, direction);
            lemma_push(self@, self@.player, direction);
        }
        let from = self.player_position;
        if !self.try_move(from, &direction) {
            return ;
        }
        step_assign(&mut self.player_position, &direction);
    }
}

} // verus!
