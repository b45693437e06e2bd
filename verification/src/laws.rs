//! What holds of every move, proved from the rules.

use crate::cell::Block;
use crate::direction::{beyond, stepped, Direction, Spot};
use crate::level::{
    lemma_failed_push, lemma_merge, lemma_push, lemma_push_frame, lemma_put, lemma_swap, Level,
};
use vstd::prelude::*;

verus! {

/// The end of a row of blocks lies in the direction of the push, and depends
/// only on the squares past `origin`: two levels of one size that hold blocks
/// on the same squares past `origin` have the same end.
pub proof fn lemma_chain_end(level: Level, other: Level, origin: Spot, to: Direction)
    requires
        level.size == other.size,
        level.inside(origin),
        forall|at: Spot|
            level.inside(at) && beyond(origin, at, to) && at != origin ==> (#[trigger] level.at(at) is Block)
                == (other.at(at) is Block),
    ensures
        level.chain_end(origin, to) == other.chain_end(origin, to),
        beyond(origin, level.chain_end(origin, to), to),
        level.chain_end(origin, to) == origin ==> stepped(origin, to) == origin,
    decreases level.room(origin, to),
{
    let target = stepped(origin, to);
    if level.inside(target) && target != origin {
        assert((level.at(target) is Block) == (other.at(target) is Block));
        if level.at(target) is Block {
            assert forall|at: Spot|
                level.inside(at) && beyond(target, at, to) && at != target implies (#[trigger] level.at(
                at,
            ) is Block) == (other.at(at) is Block) by {
                assert(beyond(origin, at, to) && at != origin);
            }
            lemma_chain_end(level, other, target, to);
        }
    }
}

/// Whether a push succeeds, and what it does to the win flag, is decided by
/// the square at which the row of blocks in front of it ends.
///
/// The push succeeds if that square is empty, or if it is a door and the
/// player stands right in front of it. It also succeeds at the edge towards
/// row or column zero, where the last block of the row is pushed into itself,
/// unless that block is the one under the player. It fails at a wall, at the
/// other two edges, and where a block would enter a door. The win flag is
/// written only where the row ends at a door.
pub proof fn lemma_push_outcome(level: Level, origin: Spot, to: Direction)
    requires
        level.wf(),
        level.inside(origin),
        beyond(level.player, origin, to),
    ensures
        ({
            let end = level.chain_end(origin, to);
            let alone = origin == level.player && end == stepped(origin, to);
            let (after, moved) = level.push(origin, to);
            &&& moved == (level.inside(end) && match level.at(end) {
                Block::Empty => true,
                Block::Block(_, _) => end != level.player,
                Block::Wall => false,
                Block::Door => alone,
            })
            &&& after.won == if level.inside(end) && level.at(end) is Door {
                alone
            } else {
                level.won
            }
        }),
    decreases level.room(origin, to), level.blocks_at(origin),
{
    let target = stepped(origin, to);
    let pushing = origin != level.player;
    if level.inside(target) {
        match level.at(target) {
            Block::Empty => {
                lemma_swap(level, origin, target);
            },
            Block::Wall => {},
            Block::Door => {},
            Block::Block(_, _) => if pushing || target != origin {
                let merged = if pushing {
                    level.merge(origin, target)
                } else {
                    level
                };
                lemma_merge(level, origin, target);
                assert(target != level.player);
                lemma_push_frame(merged, target, to);
                lemma_push_outcome(merged, target, to);
                let (pushed, moved) = merged.push(target, to);
                lemma_swap(pushed, origin, target);
                if target == origin {
                    assert(merged.at(origin) is Empty);
                    assert(merged.chain_end(origin, to) == origin);
                } else {
                    let end = level.chain_end(target, to);
                    assert forall|at: Spot|
                        level.inside(at) && beyond(target, at, to) && at != target implies (
                    #[trigger] level.at(at) is Block) == (merged.at(at) is Block) by {
                        assert(at != origin);
                        assert(merged.at(at) == level.at(at));
                    }
                    lemma_chain_end(level, merged, target, to);
                    assert(merged.chain_end(target, to) == end);
                    if level.inside(end) && end != target {
                        assert(end != origin);
                        assert(merged.at(end) == level.at(end));
                    }
                }
            },
        }
    }
}

/// A wall stops any push at once: if the square one step from `origin` is a
/// wall, the push fails and nothing changes, whether it is the player or a
/// content that is pushed.
pub proof fn push_against_wall(level: Level, origin: Spot, to: Direction)
    requires
        level.wf(),
        level.inside(origin),
        level.inside(stepped(origin, to)),
        level.at(stepped(origin, to)) is Wall,
    ensures
        level.push(origin, to) == (level, false),
{
}

/// The edges away from row and column zero stop any push at once: if the
/// square one step from `origin` lies outside the grid, the push fails and
/// nothing changes.
pub proof fn push_off_the_grid(level: Level, origin: Spot, to: Direction)
    requires
        level.wf(),
        level.inside(origin),
        !level.inside(stepped(origin, to)),
    ensures
        level.push(origin, to) == (level, false),
{
}

/// A door lets the player in and nothing else: if the square one step from
/// `origin` is a door, the push succeeds exactly if `origin` is the player's
/// square, the win flag takes that value, and nothing else changes.
pub proof fn push_against_door(level: Level, origin: Spot, to: Direction)
    requires
        level.wf(),
        level.inside(origin),
        level.inside(stepped(origin, to)),
        level.at(stepped(origin, to)) is Door,
    ensures
        level.push(origin, to) == (
            Level { won: origin == level.player, ..level },
            origin == level.player,
        ),
{
}

/// A content pushed into a block that faces a wall is merged into it where
/// both stand: the push fails, and the level afterwards is the merge of the
/// two squares ([`Level::merge`], of which [`merge_arithmetic`] and
/// [`equal_values_cancel`] speak).
pub proof fn push_pair_against_wall(level: Level, origin: Spot, to: Direction)
    requires
        level.wf(),
        level.inside(origin),
        origin != level.player,
        level.inside(stepped(origin, to)),
        level.at(stepped(origin, to)) is Block,
        level.inside(stepped(stepped(origin, to), to)),
        level.at(stepped(stepped(origin, to), to)) is Wall,
    ensures
        level.push(origin, to) == (level.merge(origin, stepped(origin, to)), false),
{
    let target = stepped(origin, to);
    let next = stepped(target, to);
    let merged = level.merge(origin, target);
    lemma_merge(level, origin, target);
    assert(next != target);
    assert(next != origin);
    assert(merged.at(next) == level.at(next));
    assert(merged.push(target, to) == (merged, false));
}

/// A row of blocks that cannot move on shifts nothing: if the player pushes a
/// row of blocks that ends at a wall, at a door or outside the grid, the push
/// fails, the player's position stays, and afterwards no square holds a block
/// that held none before. If the row ends at a door, the level is not won
/// afterwards; if not, the win flag keeps its value.
pub proof fn blocked_row_shifts_nothing(level: Level, to: Direction)
    requires
        level.wf(),
        level.pushes(to),
        ({
            let end = level.chain_end(level.player, to);
            !level.inside(end) || level.at(end) is Wall || level.at(end) is Door
        }),
    ensures
        !level.push(level.player, to).1,
        level.moved(to) == level.push(level.player, to).0,
        level.moved(to).player == level.player,
        forall|at: Spot|
            level.inside(at) && #[trigger] level.moved(to).at(at) is Block ==> level.at(at) is Block,
        level.moved(to).won == (level.won && !level.inside(level.chain_end(level.player, to))
            || level.won && level.at(level.chain_end(level.player, to)) is Wall),
{
    move_outcome(level, to);
    lemma_push_outcome(level, level.player, to);
    lemma_push_frame(level, level.player, to);
    lemma_chain_end(level, level, level.player, to);
    let first = stepped(level.player, to);
    if first != level.player {
        lemma_chain_end(level, level, first, to);
    }
    lemma_failed_push(level, level.player, to);
}

/// Whether a square holds a wall or a door.
pub open spec fn is_fixture(content: Block) -> bool {
    content is Wall || content is Door
}

/// A push of a move keeps every wall and every door: if the push starts on
/// the player's square, or further along on a square that holds neither, then
/// every square holds a wall afterwards exactly if it held one before, and
/// likewise a door.
pub proof fn lemma_fixtures_stay(level: Level, origin: Spot, to: Direction)
    requires
        level.wf(),
        level.inside(origin),
        beyond(level.player, origin, to),
        origin == level.player || !is_fixture(level.at(origin)),
    ensures
        forall|at: Spot|
            level.inside(at) ==> (#[trigger] level.push(origin, to).0.at(at) is Wall) == (level.at(at) is Wall),
        forall|at: Spot|
            level.inside(at) ==> (#[trigger] level.push(origin, to).0.at(at) is Door) == (level.at(at) is Door),
    decreases level.room(origin, to), level.blocks_at(origin),
{
    let target = stepped(origin, to);
    let pushing = origin != level.player;
    if level.inside(target) {
        match level.at(target) {
            Block::Empty => {
                lemma_swap(level, origin, target);
            },
            Block::Wall => {},
            Block::Door => {},
            Block::Block(_, _) => if pushing || target != origin {
                let merged = if pushing {
                    level.merge(origin, target)
                } else {
                    level
                };
                lemma_merge(level, origin, target);
                assert(target != level.player);
                lemma_push_frame(merged, target, to);
                lemma_push(merged, target, to);
                lemma_fixtures_stay(merged, target, to);
                let (pushed, moved) = merged.push(target, to);
                lemma_swap(pushed, origin, target);
                assert forall|at: Spot| level.inside(at) implies (#[trigger] level.push(origin, to).0.at(
                    at,
                ) is Wall) == (level.at(at) is Wall) && (level.push(origin, to).0.at(at) is Door) == (level.at(
                    at,
                ) is Door) by {
                    assert((pushed.at(at) is Wall) == (merged.at(at) is Wall));
                    assert((pushed.at(at) is Door) == (merged.at(at) is Door));
                    if at != origin && at != target {
                        assert(merged.at(at) == level.at(at));
                    }
                    if pushing && target != origin {
                        assert(!beyond(target, origin, to));
                        assert(pushed.at(origin) == merged.at(origin));
                    }
                }
            },
        }
    }
}

/// No move moves a wall or a door: after a move every square holds a wall
/// exactly if it held one before, and likewise a door.
pub proof fn fixtures_stay(level: Level, to: Direction)
    requires
        level.wf(),
    ensures
        forall|at: Spot|
            level.inside(at) ==> (#[trigger] level.moved(to).at(at) is Wall) == (level.at(at) is Wall),
        forall|at: Spot|
            level.inside(at) ==> (#[trigger] level.moved(to).at(at) is Door) == (level.at(at) is Door),
{
    lemma_fixtures_stay(level, level.player, to);
    let pushed = level.push(level.player, to).0;
    assert forall|at: Spot| level.inside(at) implies (#[trigger] level.moved(to).at(at) is Wall) == (
    level.at(at) is Wall) && (level.moved(to).at(at) is Door) == (level.at(at) is Door) by {
        assert((pushed.at(at) is Wall) == (level.at(at) is Wall));
        assert((pushed.at(at) is Door) == (level.at(at) is Door));
    }
}

/// What one move does to the player and to the win flag, whatever it pushes.
///
/// Let the end be the square at which the row of blocks in front of the
/// player ends. The player takes the step if that square is empty, or if it is
/// a door and nothing stands between it and the player, or if the row of
/// blocks reaches the edge towards row or column zero. Elsewhere the player
/// stays. The level is won after the move if it ends at a door that the player
/// enters; it is not won if a block was pushed against a door; in every
/// other case the flag is what it was. Squares that do not lie in the
/// direction of the move keep their content, and the level stays well formed.
/// The square under the player holds no block afterwards, if it held none
/// before or the player took the step.
pub proof fn move_outcome(level: Level, to: Direction)
    requires
        level.wf(),
    ensures
        ({
            let end = level.chain_end(level.player, to);
            let after = level.moved(to);
            let steps = level.inside(end) && match level.at(end) {
                Block::Empty => true,
                Block::Block(_, _) => end != level.player,
                Block::Wall => false,
                Block::Door => !level.pushes(to),
            };
            &&& after.wf()
            &&& level.player_free() || steps ==> after.player_free()
            &&& after.size == level.size
            &&& after.player == if steps {
                stepped(level.player, to)
            } else {
                level.player
            }
            &&& after.won == if level.inside(end) && level.at(end) is Door {
                !level.pushes(to)
            } else {
                level.won
            }
            &&& forall|other: Spot|
                level.inside(other) && !beyond(level.player, other, to) ==> #[trigger] after.at(other)
                    == level.at(other)
        }),
{
    lemma_push_frame(level, level.player, to);
    lemma_push(level, level.player, to);
    lemma_push_outcome(level, level.player, to);
    lemma_chain_end(level, level, level.player, to);
    let first = stepped(level.player, to);
    if level.pushes(to) && first != level.player {
        lemma_chain_end(level, level, first, to);
    }
    let pushed = level.push(level.player, to).0;
    assert forall|other: Spot|
        level.inside(other) && !beyond(level.player, other, to) implies #[trigger] level.moved(to).at(other)
        == level.at(other) by {
        assert(pushed.at(other) == level.at(other));
    }
}

/// Whether a wall stops the move cold: the player faces a wall, or one block
/// that faces a wall, or two blocks that face a wall and whose merge changes
/// neither of them.
pub open spec fn held_by_wall(level: Level, to: Direction) -> bool {
    let first = stepped(level.player, to);
    let second = stepped(first, to);
    let third = stepped(second, to);
    &&& level.inside(first)
    &&& match level.at(first) {
        Block::Wall => true,
        Block::Block(_, _) => level.inside(second) && match level.at(second) {
            Block::Wall => true,
            Block::Block(_, _) => level.merge(first, second) == level && level.inside(third) && level.at(
                third,
            ) is Wall,
            _ => false,
        },
        _ => false,
    }
}

/// A wall blocks movement: a move against a wall, alone or with one block in
/// between, changes nothing at all. With two blocks in between it changes
/// nothing if their merge changes nothing. (Longer rows of blocks, and pairs
/// that do merge, are merged before the wall stops them: see
/// [`blocked_pair_merges`].)
pub proof fn wall_blocks_movement(level: Level, to: Direction)
    requires
        level.wf(),
        held_by_wall(level, to),
    ensures
        level.moved(to) == level,
{
    let first = stepped(level.player, to);
    let second = stepped(first, to);
    if level.at(first) is Block {
        assert(first != level.player);
        if level.at(second) is Block {
            assert(second != first);
            assert(level.push(second, to) == (level, false));
        }
        assert(level.push(first, to) == (level, false));
    }
}

/// Longer rows of blocks are merged before a wall stops them: if the row of
/// blocks in front of the player ends at a wall, and the move is not one of
/// those that [`wall_blocks_movement`] speaks of, then the move changes the
/// grid.
pub proof fn wall_merges_longer_rows(level: Level, to: Direction)
    requires
        level.wf(),
        level.inside(level.chain_end(level.player, to)),
        level.at(level.chain_end(level.player, to)) is Wall,
        !held_by_wall(level, to),
    ensures
        level.moved(to).grid != level.grid,
{
    let first = stepped(level.player, to);
    let second = stepped(first, to);
    let third = stepped(second, to);
    assert(first != level.player);
    assert(level.chain_end(level.player, to) == level.chain_end(first, to));
    assert(level.inside(second) && second != first && level.at(second) is Block);
    assert(level.chain_end(first, to) == level.chain_end(second, to));
    let merged = level.merge(first, second);
    lemma_merge(level, first, second);
    assert(beyond(level.player, first, to));
    assert(beyond(level.player, second, to));
    assert(second != level.player);
    lemma_push_frame(merged, second, to);
    lemma_push(merged, second, to);
    lemma_push_outcome(level, level.player, to);
    let (after, moved) = merged.push(second, to);
    assert(level.push(first, to) == (after, moved));
    assert(level.moved(to) == after);
    assert(!beyond(second, first, to));
    assert(after.at(first) == merged.at(first));
    if merged.at(first) == level.at(first) && merged.at(second) == level.at(second) {
        assert(merged.grid[first.0] =~= level.grid[first.0]);
        assert(merged.grid[second.0] =~= level.grid[second.0]);
        assert(merged.grid =~= level.grid);
        assert(merged == level);
        assert(level.inside(third) && third != second && level.at(third) is Block);
        let again = level.merge(second, third);
        lemma_merge(level, second, third);
        assert(beyond(level.player, third, to));
        assert(third != level.player);
        lemma_push_frame(again, third, to);
        lemma_push(again, third, to);
        let (rest, went) = again.push(third, to);
        lemma_swap(rest, second, third);
        assert(again.at(third) != level.at(third));
    }
}

/// However long the row of blocks in front of the player is, if it ends at a
/// wall the player stays and the win flag keeps its value.
pub proof fn wall_holds_player(level: Level, to: Direction)
    requires
        level.wf(),
        level.inside(level.chain_end(level.player, to)),
        level.at(level.chain_end(level.player, to)) is Wall,
    ensures
        level.moved(to).player == level.player,
        level.moved(to).won == level.won,
{
    move_outcome(level, to);
}

/// The edges away from row and column zero block movement: if the row of
/// blocks in front of the player ends outside the grid, the player stays and
/// the win flag keeps its value; if the player, or the one block in front of
/// the player, stands on that edge, nothing changes at all.
pub proof fn far_edge_blocks_movement(level: Level, to: Direction)
    requires
        level.wf(),
        !level.inside(level.chain_end(level.player, to)),
    ensures
        level.moved(to).player == level.player,
        level.moved(to).won == level.won,
        !level.inside(stepped(level.player, to)) ==> level.moved(to) == level,
        level.pushes(to) && !level.inside(stepped(stepped(level.player, to), to)) ==> level.moved(to)
            == level,
{
    move_outcome(level, to);
    let first = stepped(level.player, to);
    if level.pushes(to) && !level.inside(stepped(first, to)) {
        assert(first != level.player);
        assert(level.push(first, to) == (level, false));
    }
}

/// The edges at row and column zero clamp: a player on such an edge who is
/// moved towards it stays on the same square, and the move counts as a move
/// onto that square. Nothing changes but the win flag, which is set if the
/// square is a door. This holds of a player who stands on a block too: that
/// move fails.
pub proof fn near_edge_clamps(level: Level, to: Direction)
    requires
        level.wf(),
        stepped(level.player, to) == level.player,
    ensures
        level.moved(to) == (Level { won: level.won || level.at(level.player) is Door, ..level }),
{
}

/// A block on an edge at row or column zero that is pushed towards that edge
/// by a player one step away is pushed into itself: it vanishes, and the
/// player takes its square.
pub proof fn near_edge_absorbs_block(level: Level, to: Direction)
    requires
        level.wf(),
        level.pushes(to),
        stepped(level.player, to) != level.player,
        stepped(stepped(level.player, to), to) == stepped(level.player, to),
    ensures
        level.moved(to) == (Level {
            player: stepped(level.player, to),
            ..level.put(stepped(level.player, to), Block::Empty)
        }),
{
    let first = stepped(level.player, to);
    assert(first != level.player);
    let merged = level.merge(first, first);
    let emptied = level.put(first, Block::Empty);
    lemma_put(level, first, Block::Empty);
    lemma_put(emptied, first, Block::Empty);
    assert(merged == emptied.put(first, Block::Empty));
    assert(merged.grid[first.0] =~= emptied.grid[first.0]);
    assert(merged.grid =~= emptied.grid);
    assert(merged == emptied);
    assert(emptied.swap(first, first).grid[first.0] =~= emptied.grid[first.0]);
    assert(emptied.swap(first, first).grid =~= emptied.grid);
    assert(emptied.swap(first, first) == emptied);
    assert(emptied.push(first, to) == (emptied, true));
    assert(level.push(first, to) == (emptied, true));
}

/// Merge arithmetic: when a block is pushed into a block on another square,
/// the block that was pushed into is emptied if both values are equal, and
/// otherwise keeps its colour and holds the sum of both values; the block that
/// was pushed is emptied if both colours are equal, and otherwise stays as it
/// is. No other square changes. The sum is the exact sum wherever that fits
/// in an `i32`.
pub proof fn merge_arithmetic(
    level: Level,
    origin: Spot,
    target: Spot,
    pushed_colour: (u8, u8, u8),
    pushed_value: i32,
    colour: (u8, u8, u8),
    value: i32,
)
    requires
        level.shaped(),
        level.inside(origin),
        level.inside(target),
        origin != target,
        level.at(origin) == Block::Block(pushed_colour, pushed_value),
        level.at(target) == Block::Block(colour, value),
    ensures
        level.merge(origin, target).at(target) == if value == pushed_value {
            Block::Empty
        } else {
            Block::Block(colour, value.wrapping_add(pushed_value))
        },
        level.merge(origin, target).at(origin) == if colour == pushed_colour {
            Block::Empty
        } else {
            Block::Block(pushed_colour, pushed_value)
        },
        i32::MIN <= value + pushed_value <= i32::MAX ==> value.wrapping_add(pushed_value) == value
            + pushed_value,
        forall|other: Spot|
            level.inside(other) && other != origin && other != target ==> #[trigger] level.merge(
                origin,
                target,
            ).at(other) == level.at(other),
{
    lemma_merge(level, origin, target);
    lemma_put(level, origin, Block::Empty);
    let cleared = if colour == pushed_colour {
        level.put(origin, Block::Empty)
    } else {
        level
    };
    let content = if value == pushed_value {
        Block::Empty
    } else {
        Block::Block(colour, value.wrapping_add(pushed_value))
    };
    lemma_put(cleared, target, content);
    assert(cleared.inside(origin));
    assert(cleared.put(target, content).at(origin) == cleared.at(origin));
}

/// Cancellation: a block pushed into a block of the same value leaves the
/// square of the second empty.
pub proof fn equal_values_cancel(level: Level, origin: Spot, target: Spot)
    requires
        level.shaped(),
        level.inside(origin),
        level.inside(target),
        level.at(origin) is Block,
        level.at(target) is Block,
        level.at(origin)->Block_1 == level.at(target)->Block_1,
    ensures
        level.merge(origin, target).at(target) is Empty,
{
    lemma_put(level, origin, Block::Empty);
    let cleared = if level.at(target)->Block_0 == level.at(origin)->Block_0 {
        level.put(origin, Block::Empty)
    } else {
        level
    };
    lemma_put(cleared, target, Block::Empty);
}

/// Two blocks in a row that cannot move on are merged all the same: if the
/// player pushes a block into a second block, and the second faces a wall, a
/// door or the edge of the grid, then the player stays, the two blocks are
/// merged where they stand, and a door in front of them clears the win flag.
pub proof fn blocked_pair_merges(level: Level, to: Direction)
    requires
        level.wf(),
        level.pushes(to),
        level.inside(stepped(stepped(level.player, to), to)),
        level.at(stepped(stepped(level.player, to), to)) is Block,
        stepped(stepped(level.player, to), to) != stepped(level.player, to),
        ({
            let third = stepped(stepped(stepped(level.player, to), to), to);
            !level.inside(third) || level.at(third) is Wall || level.at(third) is Door
        }),
    ensures
        ({
            let first = stepped(level.player, to);
            let second = stepped(first, to);
            let third = stepped(second, to);
            level.moved(to) == (Level {
                won: level.won && !level.inside(third) || level.won && level.at(third) is Wall,
                ..level.merge(first, second)
            })
        }),
{
    let first = stepped(level.player, to);
    let second = stepped(first, to);
    let third = stepped(second, to);
    let merged = level.merge(first, second);
    assert(first != level.player);
    lemma_merge(level, first, second);
    assert(second != level.player);
    assert(merged.at(level.player) == level.at(level.player));
    assert(merged.wf());
    if level.inside(third) {
        assert(third != second);
        assert(third != first);
        assert(merged.at(third) == level.at(third));
    }
    let stopped = Level { won: level.won && !level.inside(third) || level.won && level.at(third) is Wall, ..merged };
    assert(merged.push(second, to) == (stopped, false));
    assert(level.push(first, to) == (stopped, false));
}

/// Two blocks in a row with an empty square behind them move on: if the
/// player pushes a block into a second block, and the square behind the
/// second is empty, the two are merged, what is left of each moves one square
/// on, and the player takes the square of the first.
pub proof fn free_pair_merges(level: Level, to: Direction)
    requires
        level.wf(),
        level.pushes(to),
        level.inside(stepped(stepped(level.player, to), to)),
        level.at(stepped(stepped(level.player, to), to)) is Block,
        level.inside(stepped(stepped(stepped(level.player, to), to), to)),
        level.at(stepped(stepped(stepped(level.player, to), to), to)) is Empty,
    ensures
        ({
            let first = stepped(level.player, to);
            let second = stepped(first, to);
            let third = stepped(second, to);
            let merged = level.merge(first, second);
            let after = level.moved(to);
            &&& after.player == first
            &&& after.won == level.won
            &&& after.size == level.size
            &&& after.at(first) is Empty
            &&& after.at(second) == merged.at(first)
            &&& after.at(third) == merged.at(second)
            &&& forall|other: Spot|
                level.inside(other) && other != first && other != second && other != third
                    ==> #[trigger] after.at(other) == level.at(other)
        }),
{
    let first = stepped(level.player, to);
    let second = stepped(first, to);
    let third = stepped(second, to);
    let merged = level.merge(first, second);
    assert(first != level.player);
    assert(second != first);
    assert(third != second);
    assert(third != first);
    lemma_merge(level, first, second);
    assert(second != level.player);
    assert(merged.at(level.player) == level.at(level.player));
    assert(merged.wf());
    assert(merged.at(third) == level.at(third));
    let shifted = merged.swap(second, third);
    lemma_swap(merged, second, third);
    assert(merged.push(second, to) == (shifted, true));
    let settled = shifted.swap(first, second);
    lemma_swap(shifted, first, second);
    assert(level.push(first, to) == (settled, true));
    assert forall|other: Spot|
        level.inside(other) && other != first && other != second && other != third implies #[trigger] level.moved(
        to,
    ).at(other) == level.at(other) by {
        assert(settled.at(other) == shifted.at(other));
        assert(shifted.at(other) == merged.at(other));
        assert(merged.at(other) == level.at(other));
    }
}

/// The win condition: a player who steps onto a door with nothing in between
/// wins, and the door and every other square stay as they are.
pub proof fn door_wins(level: Level, to: Direction)
    requires
        level.wf(),
        level.inside(stepped(level.player, to)),
        level.at(stepped(level.player, to)) is Door,
    ensures
        level.moved(to) == (Level { won: true, player: stepped(level.player, to), ..level }),
{
}

/// A level is only ever won by the player stepping onto a door: if a move
/// turns the win flag on, the square in front of the player was a door, and
/// the player stands on it afterwards.
pub proof fn won_only_at_door(level: Level, to: Direction)
    requires
        level.wf(),
        !level.won,
        level.moved(to).won,
    ensures
        level.inside(stepped(level.player, to)),
        level.at(stepped(level.player, to)) is Door,
        level.moved(to).player == stepped(level.player, to),
{
    move_outcome(level, to);
    lemma_chain_end(level, level, level.player, to);
}

/// The win flag is not sticky: on a level that is won, the next move leaves
/// it won unless that move pushes a row of blocks against a door.
pub proof fn flag_after_win(level: Level, to: Direction)
    requires
        level.wf(),
        level.won,
    ensures
        level.moved(to).won == !(level.pushes(to) && level.inside(level.chain_end(level.player, to))
            && level.at(level.chain_end(level.player, to)) is Door),
{
    move_outcome(level, to);
}

/// A door blocks pushed blocks: if the row of blocks in front of the player
/// ends at a door, the player stays and the level is not won afterwards. With
/// one block between the player and the door, nothing else changes.
pub proof fn door_blocks_pushed_blocks(level: Level, to: Direction)
    requires
        level.wf(),
        level.pushes(to),
        level.inside(level.chain_end(level.player, to)),
        level.at(level.chain_end(level.player, to)) is Door,
    ensures
        level.moved(to).player == level.player,
        !level.moved(to).won,
        level.chain_end(level.player, to) == stepped(stepped(level.player, to), to) ==> level.moved(to)
            == (Level { won: false, ..level }),
{
    move_outcome(level, to);
    let first = stepped(level.player, to);
    let second = stepped(first, to);
    if level.chain_end(level.player, to) == second {
        assert(first != level.player);
        assert(level.push(first, to) == (Level { won: false, ..level }, false));
    }
}

} // verus!
