use push_puzzle::{Block, Board, Direction};

#[test]
fn gameplay_test() {
    let mut board = Board::from("4 12
############
#..........#
######...#D#
############
1 1
4
3 1 255 0 0 1
5 1 0 0 255 1
6 1 0 0 255 -1
7 1 255 0 0 -2").unwrap();
    let moves = vec![
        Direction::Right,
        Direction::Right,
        Direction::Right,
        Direction::Right,
        Direction::Right,
        Direction::Down,
        Direction::Right,
        Direction::Right,
        Direction::Up,
        Direction::Right,
        Direction::Right,
        Direction::Down,
    ];
    for m in moves {
        board.handle_move(m);
    }
    // The five steps to the right leave three blocks in the top corridor, on
    // columns 7, 8 and 9. The player goes down and along the lower corridor to
    // column 8, and there every further move runs into a wall: the block above
    // cannot be pushed up, and the door cannot be reached.
    assert!(!board.player_has_won());
    assert_eq!(board.get_player_position(), (2, 8));
    assert_eq!(board.get_block((1, 7)), Some(Block::Block((255, 0, 0), 1)));
    assert_eq!(board.get_block((1, 8)), Some(Block::Block((0, 0, 255), 0)));
    assert_eq!(board.get_block((1, 9)), Some(Block::Block((255, 0, 0), -3)));
    assert_eq!(board.get_block((2, 10)), Some(Block::Door));
}

#[test]
fn gameplay_first_steps() {
    let mut board = Board::from("4 12
############
#..........#
######...#D#
############
1 1
4
3 1 255 0 0 1
5 1 0 0 255 1
6 1 0 0 255 -1
7 1 255 0 0 -2").unwrap();
    assert_eq!(board.get_board_size(), (4, 12));
    assert_eq!(board.get_player_position(), (1, 1));
    assert!(!board.player_has_won());
    board.handle_move(Direction::Right);
    assert_eq!(board.get_player_position(), (1, 2));
    board.handle_move(Direction::Right);
    assert_eq!(board.get_player_position(), (1, 3));
    assert_eq!(board.get_block((1, 3)), Some(Block::Empty));
    assert_eq!(board.get_block((1, 4)), Some(Block::Block((255, 0, 0), 1)));
    // The red 1 cancels the blue 1, the blue -1 adds itself to the red -2,
    // and the whole row moves one square on.
    board.handle_move(Direction::Right);
    assert_eq!(board.get_player_position(), (1, 4));
    assert_eq!(board.get_block((1, 5)), Some(Block::Block((255, 0, 0), 1)));
    assert_eq!(board.get_block((1, 6)), Some(Block::Empty));
    assert_eq!(board.get_block((1, 7)), Some(Block::Block((0, 0, 255), -1)));
    assert_eq!(board.get_block((1, 8)), Some(Block::Block((255, 0, 0), -3)));
}

#[test]
fn winning_run() {
    let mut board = Board::from("3 5
#####
#..D#
#####
1 1
0").unwrap();
    board.handle_move(Direction::Up);
    assert_eq!(board.get_player_position(), (1, 1));
    board.handle_move(Direction::Right);
    assert_eq!(board.get_player_position(), (1, 2));
    assert!(!board.player_has_won());
    board.handle_move(Direction::Right);
    assert_eq!(board.get_player_position(), (1, 3));
    assert!(board.player_has_won());
    assert_eq!(board.get_block((1, 3)), Some(Block::Door));
}

#[test]
fn winning_run_with_a_block_pushed_aside() {
    let mut board = Board::from("4 5
#####
#.. #
# .D#
#####
1 1
1
2 1 10 20 30 7").unwrap();
    board.handle_move(Direction::Right);
    assert_eq!(board.get_player_position(), (1, 2));
    assert_eq!(board.get_block((1, 3)), Some(Block::Block((10, 20, 30), 7)));
    board.handle_move(Direction::Down);
    assert_eq!(board.get_player_position(), (2, 2));
    assert!(!board.player_has_won());
    board.handle_move(Direction::Right);
    assert_eq!(board.get_player_position(), (2, 3));
    assert!(board.player_has_won());
}
