//! What one square of the board holds.

use vstd::prelude::*;

verus! {

/// A colour as red, green and blue components.
pub type Colour = (u8, u8, u8);

/// The content of one square.
///
/// The player is not a square's content: the board keeps the player's
/// position beside the grid, so the square under the player still holds one of
/// these.
#[derive(Clone, Copy, Debug, PartialEq, Eq)]
pub enum Block {
    /// The goal. Only the player can enter it, and only when pushing nothing.
    Door,
    /// Never moves and lets nothing through.
    Wall,
    /// A movable block with a colour and a signed value.
    Block(Colour, i32),
    /// Nothing.
    Empty,
}

/// Whether two colours are the same, component by component.
pub fn same_colour(a: Colour, b: Colour) -> (same: bool)
    ensures
        same == (a == b),
{
    a.0 == b.0 && a.1 == b.1 && a.2 == b.2
}

} // verus!
