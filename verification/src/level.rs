//! The rules of the game, as a mathematical model.
//!
//! A [`Level`] is what a board looks like to its rules: the grid, the
//! player's position and whether the level is won. [`Level::moved`] is the
//! whole effect of one move; [`Level::push`] is the chain of pushes behind it.

use crate::cell::Block;
use crate::direction::{beyond, stepped, Direction, Spot};
use vstd::prelude::*;

verus! {

/// The state of a game.
pub struct Level {
    /// Number of rows and of columns.
    pub size: Spot,
    /// The squares, row by row.
    pub grid: Seq<Seq<Block>>,
    /// Where the player stands.
    pub player: Spot,
    /// Whether the player has reached a door.
    pub won: bool,
}

impl Level {
    /// The grid has `size.0` rows of `size.1` squares each.
    pub open spec fn shaped(self) -> bool {
        &&& self.grid.len() == self.size.0
        &&& forall|row: int| 0 <= row < self.grid.len() ==> (#[trigger] self.grid[row]).len() == self.size.1
    }

    /// Whether `at` is a square of the grid.
    pub open spec fn inside(self, at: Spot) -> bool {
        0 <= at.0 < self.size.0 && 0 <= at.1 < self.size.1
    }

    /// What the square `at` holds.
    pub open spec fn at(self, at: Spot) -> Block {
        self.grid[at.0][at.1]
    }

    /// A level is well formed when its grid is rectangular and the player
    /// stands on a square of it.
    pub open spec fn wf(self) -> bool {
        &&& self.shaped()
        &&& self.inside(self.player)
    }

    /// Whether the square under the player holds no block. A level can start
    /// with a block there; no move puts one there.
    pub open spec fn player_free(self) -> bool {
        !(self.at(self.player) is Block)
    }

    /// The level with `content` on the square `at`.
    pub open spec fn put(self, at: Spot, content: Block) -> Level {
        Level { grid: self.grid.update(at.0, self.grid[at.0].update(at.1, content)), ..self }
    }

    /// The level with the contents of the squares `a` and `b` exchanged.
    pub open spec fn swap(self, a: Spot, b: Spot) -> Level {
        self.put(a, self.at(b)).put(b, self.at(a))
    }

    /// What happens to two squares when the content of `origin` is pushed into
    /// a block on `target`, before anything moves.
    ///
    /// If `origin` holds a block too, then: where both blocks have the same
    /// colour, `origin` is emptied; and, whatever the colours, `target` is
    /// emptied where both have the same value, and otherwise keeps its colour
    /// and takes the sum of both values, which wraps around at the ends of
    /// `i32`. If either square holds no block, nothing changes.
    pub open spec fn merge(self, origin: Spot, target: Spot) -> Level {
        match (self.at(origin), self.at(target)) {
            (Block::Block(pushed_colour, pushed_value), Block::Block(colour, value)) => {
                let cleared = if colour == pushed_colour {
                    self.put(origin, Block::Empty)
                } else {
                    self
                };
                if value == pushed_value {
                    cleared.put(target, Block::Empty)
                } else {
                    cleared.put(target, Block::Block(colour, value.wrapping_add(pushed_value)))
                }
            },
            _ => self,
        }
    }

    /// How many steps in direction `to` lead from `from` to the edge of the
    /// grid.
    pub open spec fn room(self, from: Spot, to: Direction) -> int {
        match to {
            Direction::Up => from.0,
            Direction::Down => self.size.0 - from.0,
            Direction::Left => from.1,
            Direction::Right => self.size.1 - from.1,
        }
    }

    /// One for a square that holds a block, zero for any other.
    pub open spec fn blocks_at(self, at: Spot) -> int {
        if self.at(at) is Block {
            1
        } else {
            0
        }
    }

    /// Tries to move what stands on `origin` one step in direction `to`, and
    /// returns the level afterwards and whether the move succeeded.
    ///
    /// What moves is the player if `origin` is the player's square, and the
    /// content of `origin` otherwise. The square one step from `origin` is the
    /// target.
    ///
    /// - A target outside the grid: the move fails.
    /// - An empty target: the move succeeds; a pushed content changes places
    ///   with the target.
    /// - A wall: the move fails.
    /// - A door: the player succeeds and the level is won; a pushed content
    ///   fails and the level is no longer won.
    /// - A block: a pushed content is first merged into it ([`Level::merge`]),
    ///   for good. Then whatever the target holds now is pushed on in the same
    ///   direction. If that succeeds, a pushed content changes places with the
    ///   target. The move succeeds if the push did.
    ///
    /// A failed move can thus leave merged blocks behind.
    ///
    /// One case stands apart. A player who stands on a block, on the edge
    /// towards row or column zero, and is moved towards that edge, has that
    /// very block for a target, and pushing it on would lead back to the same
    /// square for ever. That move fails and changes nothing.
    pub open spec fn push(self, origin: Spot, to: Direction) -> (Level, bool)
        decreases self.room(origin, to), self.blocks_at(origin),
        when self.wf() && self.inside(origin)
    {
        let target = stepped(origin, to);
        let pushing = origin != self.player;
        if !self.inside(target) {
            (self, false)
        } else {
            match self.at(target) {
                Block::Empty => (
                    if pushing {
                        self.swap(origin, target)
                    } else {
                        self
                    },
                    true,
                ),
                Block::Wall => (self, false),
                Block::Door => (Level { won: !pushing, ..self }, !pushing),
                Block::Block(_, _) => if !pushing && target == origin {
                    (self, false)
                } else {
                    let merged = if pushing {
                        self.merge(origin, target)
                    } else {
                        self
                    };
                    let (pushed, moved) = merged.push(target, to);
                    (
                        if moved && pushing {
                            pushed.swap(origin, target)
                        } else {
                            pushed
                        },
                        moved,
                    )
                },
            }
        }
    }

    /// The square at which the row of blocks in front of `origin` ends: going
    /// from `origin` in direction `to`, the first square that holds no block
    /// or lies outside the grid. At the edge towards row or column zero, where
    /// a step leads nowhere, it is the square on the edge itself.
    pub open spec fn chain_end(self, origin: Spot, to: Direction) -> Spot
        decreases self.room(origin, to),
    {
        let target = stepped(origin, to);
        if self.inside(target) && target != origin && self.at(target) is Block {
            self.chain_end(target, to)
        } else {
            target
        }
    }

    /// Whether a move in direction `to` pushes anything: whether the square in
    /// front of the player holds a block.
    pub open spec fn pushes(self, to: Direction) -> bool {
        self.inside(stepped(self.player, to)) && self.at(stepped(self.player, to)) is Block
    }

    /// The level after the player has been asked to move one step in direction
    /// `to`: the push from the player's square, and the player one step on if
    /// it succeeded.
    pub open spec fn moved(self, to: Direction) -> Level {
        let (pushed, moved) = self.push(self.player, to);
        if moved {
            Level { player: stepped(self.player, to), ..pushed }
        } else {
            pushed
        }
    }
}

/// Writing a square changes that square and nothing else.
pub proof fn lemma_put(level: Level, at: Spot, content: Block)
    requires
        level.shaped(),
        level.inside(at),
    ensures
        level.put(at, content).shaped(),
        level.put(at, content).size == level.size,
        level.put(at, content).player == level.player,
        level.put(at, content).won == level.won,
        level.put(at, content).at(at) == content,
        forall|other: Spot|
            level.inside(other) && other != at ==> #[trigger] level.put(at, content).at(other) == level.at(
                other,
            ),
{
    let after = level.put(at, content);
    assert forall|row: int| 0 <= row < after.grid.len() implies (#[trigger] after.grid[row]).len()
        == after.size.1 by {
        assert(level.grid[row].len() == level.size.1);
    }
    assert(level.grid[at.0].len() == level.size.1);
    assert forall|other: Spot| level.inside(other) && other != at implies #[trigger] after.at(other)
        == level.at(other) by {
        assert(level.grid[other.0].len() == level.size.1);
    }
}

/// Exchanging two squares changes those two and nothing else.
pub proof fn lemma_swap(level: Level, a: Spot, b: Spot)
    requires
        level.shaped(),
        level.inside(a),
        level.inside(b),
    ensures
        level.swap(a, b).shaped(),
        level.swap(a, b).size == level.size,
        level.swap(a, b).player == level.player,
        level.swap(a, b).won == level.won,
        level.swap(a, b).at(a) == level.at(b),
        level.swap(a, b).at(b) == level.at(a),
        forall|other: Spot|
            level.inside(other) && other != a && other != b ==> #[trigger] level.swap(a, b).at(other)
                == level.at(other),
{
    let half = level.put(a, level.at(b));
    lemma_put(level, a, level.at(b));
    lemma_put(half, b, level.at(a));
    assert forall|other: Spot| level.inside(other) && other != a && other != b implies #[trigger] level.swap(
        a,
        b,
    ).at(other) == level.at(other) by {
        assert(half.inside(other));
        assert(half.put(b, level.at(a)).at(other) == half.at(other));
    }
}

/// A merge changes at most the two squares it is given, and leaves a block
/// on neither where there was none.
pub proof fn lemma_merge(level: Level, origin: Spot, target: Spot)
    requires
        level.shaped(),
        level.inside(origin),
        level.inside(target),
    ensures
        level.merge(origin, target).shaped(),
        level.merge(origin, target).size == level.size,
        level.merge(origin, target).player == level.player,
        level.merge(origin, target).won == level.won,
        forall|other: Spot|
            level.inside(other) && other != origin && other != target ==> #[trigger] level.merge(
                origin,
                target,
            ).at(other) == level.at(other),
        level.merge(origin, target).at(origin) is Block ==> level.at(origin) is Block,
        level.merge(origin, target).at(target) is Block ==> level.at(target) is Block,
        origin == target && level.at(origin) is Block ==> level.merge(origin, target).at(origin) is Empty,
        level.merge(origin, target).at(origin) is Empty || level.merge(origin, target).at(origin)
            == level.at(origin),
{
    match (level.at(origin), level.at(target)) {
        (Block::Block(pushed_colour, pushed_value), Block::Block(colour, value)) => {
            let cleared = if colour == pushed_colour {
                level.put(origin, Block::Empty)
            } else {
                level
            };
            lemma_put(level, origin, Block::Empty);
            let content = if value == pushed_value {
                Block::Empty
            } else {
                Block::Block(colour, value.wrapping_add(pushed_value))
            };
            lemma_put(cleared, target, content);
            assert(level.merge(origin, target) == cleared.put(target, content));
            assert forall|other: Spot|
                level.inside(other) && other != origin && other != target implies #[trigger] level.merge(
                origin,
                target,
            ).at(other) == level.at(other) by {
                assert(cleared.inside(other));
                assert(cleared.put(target, content).at(other) == cleared.at(other));
            }
            if origin != target {
                assert(cleared.inside(origin));
                assert(cleared.put(target, content).at(origin) == cleared.at(origin));
            }
        },
        _ => {},
    }
}

/// What every push keeps, wherever it starts and whether or not it succeeds:
/// the level stays well formed, with its size and the player where they were,
/// and only squares from `origin` on, in the direction of the push, can
/// change.
pub proof fn lemma_push_frame(level: Level, origin: Spot, to: Direction)
    requires
        level.wf(),
        level.inside(origin),
    ensures
        level.push(origin, to).0.wf(),
        level.push(origin, to).0.size == level.size,
        level.push(origin, to).0.player == level.player,
        forall|other: Spot|
            level.inside(other) && !beyond(origin, other, to) ==> #[trigger] level.push(origin, to).0.at(
                other,
            ) == level.at(other),
    decreases level.room(origin, to), level.blocks_at(origin),
{
    let target = stepped(origin, to);
    let pushing = origin != level.player;
    if level.inside(target) {
        match level.at(target) {
            Block::Empty => {
                lemma_swap(level, origin, target);
            },
            Block::Wall => {},
            Block::Door => {},
            Block::Block(_, _) => {
                if pushing || target != origin {
                    let merged = if pushing {
                        level.merge(origin, target)
                    } else {
                        level
                    };
                    lemma_merge(level, origin, target);
                    lemma_push_frame(merged, target, to);
                    let (pushed, moved) = merged.push(target, to);
                    lemma_swap(pushed, origin, target);
                    assert forall|other: Spot|
                        level.inside(other) && !beyond(origin, other, to) implies #[trigger] level.push(
                        origin,
                        to,
                    ).0.at(other) == level.at(other) by {
                        assert(!beyond(target, other, to));
                        assert(pushed.at(other) == merged.at(other));
                        assert(merged.at(other) == level.at(other));
                    }
                }
            },
        }
    }
}

/// A push that fails shifts nothing: afterwards no square holds a block that
/// held none before. Blocks may have merged or vanished where they stood.
pub proof fn lemma_failed_push(level: Level, origin: Spot, to: Direction)
    requires
        level.wf(),
        level.inside(origin),
        !level.push(origin, to).1,
    ensures
        forall|at: Spot|
            level.inside(at) && #[trigger] level.push(origin, to).0.at(at) is Block ==> level.at(at) is Block,
    decreases level.room(origin, to), level.blocks_at(origin),
{
    let target = stepped(origin, to);
    let pushing = origin != level.player;
    if level.inside(target) && level.at(target) is Block && (pushing || target != origin) {
        let merged = if pushing {
            level.merge(origin, target)
        } else {
            level
        };
        lemma_merge(level, origin, target);
        lemma_failed_push(merged, target, to);
        let pushed = merged.push(target, to).0;
        assert forall|at: Spot|
            level.inside(at) && #[trigger] level.push(origin, to).0.at(at) is Block implies level.at(
            at,
        ) is Block by {
            assert(pushed.at(at) is Block);
            assert(merged.at(at) is Block);
            if at != origin && at != target {
                assert(merged.at(at) == level.at(at));
            }
        }
    }
}

/// What every push of a move keeps: a push that starts on the player's square
/// or further along in its own direction.
///
/// - The square under the player keeps its content.
/// - A pushed content that moved on leaves an empty square behind, and did not
///   touch the win flag. One that did not move can only have cleared the flag,
///   and is still there unless a merge emptied its square.
/// - The player succeeds only towards a square that then holds no block.
pub proof fn lemma_push(level: Level, origin: Spot, to: Direction)
    requires
        level.wf(),
        level.inside(origin),
        beyond(level.player, origin, to),
    ensures
        level.push(origin, to).0.at(level.player) == level.at(level.player),
        origin != level.player && level.push(origin, to).1 ==> level.push(origin, to).0.at(origin) is Empty
            && level.push(origin, to).0.won == level.won,
        origin != level.player && level.push(origin, to).0.won ==> level.won,
        origin != level.player ==> level.push(origin, to).0.at(origin) is Empty || level.push(
            origin,
            to,
        ).0.at(origin) == level.at(origin),
        origin == level.player && level.push(origin, to).1 ==> level.inside(stepped(origin, to)) && !(
        level.push(origin, to).0.at(stepped(origin, to)) is Block),
    decreases level.room(origin, to), level.blocks_at(origin),
{
    let target = stepped(origin, to);
    let pushing = origin != level.player;
    lemma_push_frame(level, origin, to);
    if pushing {
        assert(!beyond(origin, level.player, to));
    }
    if level.inside(target) {
        match level.at(target) {
            Block::Empty => {
                lemma_swap(level, origin, target);
            },
            Block::Wall => {},
            Block::Door => {},
            Block::Block(_, _) => {
                if pushing || target != origin {
                    let merged = if pushing {
                        level.merge(origin, target)
                    } else {
                        level
                    };
                    lemma_merge(level, origin, target);
                    assert(target != level.player);
                    lemma_push(merged, target, to);
                    lemma_push_frame(merged, target, to);
                    let (pushed, moved) = merged.push(target, to);
                    lemma_swap(pushed, origin, target);
                    if !pushing {
                        assert(!beyond(target, level.player, to));
                        assert(pushed.at(level.player) == merged.at(level.player));
                    } else if target != origin {
                        assert(!beyond(target, origin, to));
                        assert(pushed.at(origin) == merged.at(origin));
                    }
                }
            },
        }
    }
}

} // verus!
