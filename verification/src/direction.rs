//! Positions on the board and the four directions of movement.

use vstd::prelude::*;

verus! {

/// A square of the board as `(row, column)`, both counted from zero. Row zero
/// is the top row, column zero the leftmost column.
pub type Position = (usize, usize);

/// The dimensions of a board as `(rows, columns)`.
pub type Size = (usize, usize);

/// A position in specifications, where coordinates are unbounded integers.
pub type Spot = (int, int);

/// One of the four directions in which the player can be moved.
#[derive(Clone, Copy, Debug, PartialEq, Eq)]
pub enum Direction {
    /// Towards row zero.
    Up,
    /// Away from row zero.
    Down,
    /// Away from column zero.
    Right,
    /// Towards column zero.
    Left,
}

/// The `(row, column)` pair of a position as unbounded integers.
pub open spec fn spot(position: Position) -> Spot {
    (position.0 as int, position.1 as int)
}

/// The square one step from `from` in direction `to`.
///
/// `Up` and `Down` change the row, `Left` and `Right` the column. A step
/// towards row or column zero from row or column zero stays where it is. A
/// step away from zero is never held back here: whether the result is still
/// on a board is for the board to say.
pub open spec fn stepped(from: Spot, to: Direction) -> Spot {
    match to {
        Direction::Up => (if from.0 > 0 { from.0 - 1 } else { from.0 }, from.1),
        Direction::Down => (from.0 + 1, from.1),
        Direction::Left => (from.0, if from.1 > 0 { from.1 - 1 } else { from.1 }),
        Direction::Right => (from.0, from.1 + 1),
    }
}

/// Whether `at` lies in direction `to` from `origin`: on `origin` itself or
/// any number of steps further.
pub open spec fn beyond(origin: Spot, at: Spot, to: Direction) -> bool {
    match to {
        Direction::Up => at.1 == origin.1 && at.0 <= origin.0,
        Direction::Down => at.1 == origin.1 && at.0 >= origin.0,
        Direction::Left => at.0 == origin.0 && at.1 <= origin.1,
        Direction::Right => at.0 == origin.0 && at.1 >= origin.1,
    }
}

/// Whether a step from `from` in direction `to` can be represented: the
/// coordinate that grows must not already be the largest `usize`.
pub open spec fn can_step(from: Position, to: Direction) -> bool {
    match to {
        Direction::Down => from.0 < usize::MAX,
        Direction::Right => from.1 < usize::MAX,
        _ => true,
    }
}

/// Returns the position one step from `position` in `direction`.
pub fn step(position: Position, direction: &Direction) -> (next: Position)
    requires
        can_step(position, *direction),
    ensures
        spot(next) == stepped(spot(position), *direction),
{
    let mut next = position;
    step_assign(&mut next, direction);
    next
}

/// Moves `position` one step in `direction`, in place.
pub fn step_assign(position: &mut Position, direction: &Direction)
    requires
        can_step(*old(position), *direction),
    ensures
        spot(*final(position)) == stepped(spot(*old(position)), *direction),
{
    match direction {
        Direction::Up => {
            if position.0 != 0 {
                position.0 = position.0 - 1;
            }
        },
        Direction::Left => {
            if position.1 != 0 {
                position.1 = position.1 - 1;
            }
        },
        Direction::Down => {
            position.0 = position.0 + 1;
        },
        Direction::Right => {
            position.1 = position.1 + 1;
        },
    }
}

} // verus!
