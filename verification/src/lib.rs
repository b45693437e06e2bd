//! A sliding-block puzzle board.
//!
//! A board is a rectangular grid of walls, one or more doors and numbered,
//! coloured blocks, with a player standing on one of its squares. The player
//! moves one square at a time; blocks in the way are pushed along, blocks that
//! are pushed into each other combine or cancel, and the level is won when
//! the player steps onto a door without pushing anything.
//!
//! The rules are stated once, as a mathematical model ([`level::Level`]), and
//! the executable [`board::Board`] is proved to follow that model.

pub mod board;
pub mod cell;
pub mod direction;
pub mod format;
pub mod laws;
pub mod layout;
pub mod level;
pub mod text;

pub use board::Board;
pub use cell::{Block, Colour};
pub use format::{parse_level, LevelData};
pub use layout::{ConstructionError, Placement};
pub use direction::{step, step_assign, Direction, Position, Size};
