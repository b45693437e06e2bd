use push_puzzle::text::{chars_of, read_i32, read_number, read_u8, read_usize, split_at};
use push_puzzle::{parse_level, Block, Board, ConstructionError, Placement};

fn chars(text: &str) -> Vec<char> {
    text.chars().collect()
}

fn lines(rows: &[&str]) -> Vec<Vec<char>> {
    rows.iter().map(|row| chars(row)).collect()
}

fn error_of(text: &str) -> ConstructionError {
    match Board::from(text) {
        Ok(_) => panic!("a board was built"),
        Err(error) => error,
    }
}

#[test]
fn construct_reads_the_layout() {
    let board = Board::construct((2, 3), &lines(&["#D.", "x #"]), (1, 1), &Vec::new()).unwrap();
    assert_eq!(board.get_board_size(), (2, 3));
    assert_eq!(board.get_player_position(), (1, 1));
    assert!(!board.player_has_won());
    assert_eq!(board.get_block((0, 0)), Some(Block::Wall));
    assert_eq!(board.get_block((0, 1)), Some(Block::Door));
    assert_eq!(board.get_block((0, 2)), Some(Block::Empty));
    assert_eq!(board.get_block((1, 0)), Some(Block::Empty));
    assert_eq!(board.get_block((1, 1)), Some(Block::Empty));
    assert_eq!(board.get_block((1, 2)), Some(Block::Wall));
}

#[test]
fn construct_puts_the_blocks_in_order() {
    let blocks = vec![
        Placement { position: (0, 1), colour: (1, 2, 3), value: 4 },
        Placement { position: (0, 2), colour: (5, 6, 7), value: -8 },
        Placement { position: (0, 1), colour: (9, 9, 9), value: 10 },
    ];
    let board = Board::construct((1, 3), &lines(&[".#D"]), (0, 0), &blocks).unwrap();
    assert_eq!(board.get_block((0, 0)), Some(Block::Empty));
    assert_eq!(board.get_block((0, 1)), Some(Block::Block((9, 9, 9), 10)));
    assert_eq!(board.get_block((0, 2)), Some(Block::Block((5, 6, 7), -8)));
}

#[test]
fn construct_rejects_a_wrong_number_of_rows() {
    let result = Board::construct((2, 2), &lines(&[".."]), (0, 0), &Vec::new());
    assert_eq!(result.err(), Some(ConstructionError::RowCount));
    let result = Board::construct((1, 2), &lines(&["..", ".."]), (0, 0), &Vec::new());
    assert_eq!(result.err(), Some(ConstructionError::RowCount));
}

#[test]
fn construct_rejects_a_wrong_row_length() {
    let result = Board::construct((2, 2), &lines(&["..", "..."]), (0, 0), &Vec::new());
    assert_eq!(result.err(), Some(ConstructionError::RowLength));
    let result = Board::construct((2, 2), &lines(&[".", ".."]), (0, 0), &Vec::new());
    assert_eq!(result.err(), Some(ConstructionError::RowLength));
}

#[test]
fn construct_rejects_a_player_outside() {
    let result = Board::construct((2, 2), &lines(&["..", ".."]), (2, 0), &Vec::new());
    assert_eq!(result.err(), Some(ConstructionError::PlayerOutside));
    let result = Board::construct((2, 2), &lines(&["..", ".."]), (0, 2), &Vec::new());
    assert_eq!(result.err(), Some(ConstructionError::PlayerOutside));
    let result = Board::construct((0, 0), &Vec::new(), (0, 0), &Vec::new());
    assert_eq!(result.err(), Some(ConstructionError::PlayerOutside));
}

#[test]
fn construct_rejects_a_block_outside() {
    let blocks = vec![
        Placement { position: (0, 0), colour: (0, 0, 0), value: 1 },
        Placement { position: (0, 2), colour: (0, 0, 0), value: 1 },
    ];
    let result = Board::construct((2, 2), &lines(&["..", ".."]), (0, 0), &blocks);
    assert_eq!(result.err(), Some(ConstructionError::BlockOutside));
}

#[test]
fn construct_puts_a_block_under_the_player() {
    let blocks = vec![
        Placement { position: (1, 1), colour: (0, 0, 0), value: 1 },
        Placement { position: (0, 0), colour: (4, 5, 6), value: 7 },
    ];
    let board = Board::construct((2, 2), &lines(&["..", ".."]), (0, 0), &blocks).unwrap();
    assert_eq!(board.get_player_position(), (0, 0));
    assert_eq!(board.get_board_size(), (2, 2));
    assert!(!board.player_has_won());
    assert_eq!(board.get_block((0, 0)), Some(Block::Block((4, 5, 6), 7)));
    assert_eq!(board.get_block((0, 1)), Some(Block::Empty));
    assert_eq!(board.get_block((1, 0)), Some(Block::Empty));
    assert_eq!(board.get_block((1, 1)), Some(Block::Block((0, 0, 0), 1)));
}

#[test]
fn from_puts_a_block_under_the_player() {
    let board = Board::from("1 2\n..\n0 0\n1\n0 0 255 0 0 1").unwrap();
    assert_eq!(board.get_player_position(), (0, 0));
    assert_eq!(board.get_block((0, 0)), Some(Block::Block((255, 0, 0), 1)));
    assert_eq!(board.get_block((0, 1)), Some(Block::Empty));
}

#[test]
fn construct_names_the_first_fault_in_order() {
    let blocks = vec![Placement { position: (9, 9), colour: (0, 0, 0), value: 1 }];
    let result = Board::construct((2, 2), &lines(&["...", ".."]), (5, 5), &blocks);
    assert_eq!(result.err(), Some(ConstructionError::RowLength));
    let result = Board::construct((2, 2), &lines(&["..", ".."]), (5, 5), &blocks);
    assert_eq!(result.err(), Some(ConstructionError::PlayerOutside));
}

#[test]
fn from_reads_a_level() {
    let board = Board::from("2 3\n#D.\n. #\n1 0\n2\n2 0 1 2 3 -4\n1 1 255 254 253 2147483647").unwrap();
    assert_eq!(board.get_board_size(), (2, 3));
    assert_eq!(board.get_player_position(), (1, 0));
    assert!(!board.player_has_won());
    assert_eq!(board.get_block((0, 0)), Some(Block::Wall));
    assert_eq!(board.get_block((0, 1)), Some(Block::Door));
    assert_eq!(board.get_block((0, 2)), Some(Block::Block((1, 2, 3), -4)));
    assert_eq!(board.get_block((1, 0)), Some(Block::Empty));
    assert_eq!(board.get_block((1, 1)), Some(Block::Block((255, 254, 253), i32::MAX)));
    assert_eq!(board.get_block((1, 2)), Some(Block::Wall));
}

#[test]
fn from_agrees_with_construct() {
    let text = "2 3\n#D.\n. #\n1 0\n1\n2 0 1 2 3 -4";
    let data = parse_level(text).unwrap();
    assert_eq!(data.size, (2, 3));
    assert_eq!(data.layout, lines(&["#D.", ". #"]));
    assert_eq!(data.player, (1, 0));
    assert_eq!(data.blocks, vec![Placement { position: (0, 2), colour: (1, 2, 3), value: -4 }]);
    let built = Board::construct(data.size, &data.layout, data.player, &data.blocks).unwrap();
    let read = Board::from(text).unwrap();
    for row in 0..2 {
        for column in 0..3 {
            assert_eq!(built.get_block((row, column)), read.get_block((row, column)));
        }
    }
    assert_eq!(built.get_player_position(), read.get_player_position());
}

#[test]
fn from_counts_symbols_not_bytes() {
    let board = Board::from("1 3\n\u{e9}#\u{4e16}\n0 0\n0").unwrap();
    assert_eq!(board.get_block((0, 0)), Some(Block::Empty));
    assert_eq!(board.get_block((0, 1)), Some(Block::Wall));
    assert_eq!(board.get_block((0, 2)), Some(Block::Empty));
}

#[test]
fn from_rejects_a_bad_size_line() {
    assert_eq!(error_of(""), ConstructionError::Malformed);
    assert_eq!(error_of("2\n..\n..\n0 0\n0"), ConstructionError::Malformed);
    assert_eq!(error_of("2 2 2\n..\n..\n0 0\n0"), ConstructionError::Malformed);
    assert_eq!(error_of("2  2\n..\n..\n0 0\n0"), ConstructionError::Malformed);
    assert_eq!(error_of("2 x\n..\n..\n0 0\n0"), ConstructionError::Malformed);
    assert_eq!(error_of(" 2 2\n..\n..\n0 0\n0"), ConstructionError::Malformed);
    assert_eq!(error_of("-1 2\n..\n..\n0 0\n0"), ConstructionError::Malformed);
    assert_eq!(
        error_of("99999999999999999999999999 2\n..\n..\n0 0\n0"),
        ConstructionError::Malformed
    );
}

#[test]
fn from_rejects_missing_rows() {
    assert_eq!(error_of("3 2\n..\n..\n0 0\n0"), ConstructionError::RowCount);
    assert_eq!(error_of("2 2"), ConstructionError::RowCount);
    assert_eq!(error_of("2 2\n..\n.."), ConstructionError::RowCount);
}

#[test]
fn from_rejects_a_bad_player_or_count_line() {
    assert_eq!(error_of("2 2\n..\n..\n0\n0"), ConstructionError::Malformed);
    assert_eq!(error_of("2 2\n..\n..\n0 a\n0"), ConstructionError::Malformed);
    assert_eq!(error_of("2 2\n..\n..\n0 0\n"), ConstructionError::Malformed);
    assert_eq!(error_of("2 2\n..\n..\n0 0\n0 0"), ConstructionError::Malformed);
    assert_eq!(error_of("2 2\n..\n..\n0 0\n-1"), ConstructionError::Malformed);
}

#[test]
fn from_rejects_a_wrong_number_of_blocks() {
    assert_eq!(error_of("2 2\n..\n..\n0 0\n1"), ConstructionError::BlockCount);
    assert_eq!(error_of("2 2\n..\n..\n0 0\n0\n1 1 0 0 0 1"), ConstructionError::BlockCount);
    assert_eq!(error_of("2 2\n..\n..\n0 0\n0\n"), ConstructionError::BlockCount);
    assert_eq!(
        error_of("2 2\n..\n..\n0 0\n2\n1 1 0 0 0 1"),
        ConstructionError::BlockCount
    );
}

#[test]
fn from_rejects_a_bad_block_line() {
    assert_eq!(error_of("2 2\n..\n..\n0 0\n1\n1 1 0 0 0"), ConstructionError::Malformed);
    assert_eq!(error_of("2 2\n..\n..\n0 0\n1\n1 1 0 0 0 1 1"), ConstructionError::Malformed);
    assert_eq!(error_of("2 2\n..\n..\n0 0\n1\n1 1 256 0 0 1"), ConstructionError::Malformed);
    assert_eq!(error_of("2 2\n..\n..\n0 0\n1\n1 1 0 -1 0 1"), ConstructionError::Malformed);
    assert_eq!(error_of("2 2\n..\n..\n0 0\n1\n-1 1 0 0 0 1"), ConstructionError::Malformed);
    assert_eq!(
        error_of("2 2\n..\n..\n0 0\n1\n1 1 0 0 0 2147483648"),
        ConstructionError::Malformed
    );
    assert_eq!(
        error_of("2 2\n..\n..\n0 0\n1\n1 1 0 0 0 -2147483649"),
        ConstructionError::Malformed
    );
    assert_eq!(error_of("2 2\n..\n..\n0 0\n1\n1 1 0 0 0 one"), ConstructionError::Malformed);
}

#[test]
fn from_takes_the_smallest_and_largest_values() {
    let board = Board::from("1 3\n...\n0 0\n2\n1 0 0 0 0 -2147483648\n2 0 0 0 0 +2147483647").unwrap();
    assert_eq!(board.get_block((0, 1)), Some(Block::Block((0, 0, 0), i32::MIN)));
    assert_eq!(board.get_block((0, 2)), Some(Block::Block((0, 0, 0), i32::MAX)));
}

#[test]
fn from_rejects_what_construct_rejects() {
    assert_eq!(error_of("2 2\n..\n...\n0 0\n0"), ConstructionError::RowLength);
    assert_eq!(error_of("2 2\n..\n..\n2 0\n0"), ConstructionError::PlayerOutside);
    assert_eq!(error_of("2 2\n..\n..\n0 0\n1\n2 1 0 0 0 1"), ConstructionError::BlockOutside);
}

#[test]
fn block_lines_give_the_column_first() {
    let board = Board::from("2 3\n...\n...\n0 0\n1\n2 1 7 8 9 5").unwrap();
    assert_eq!(board.get_block((1, 2)), Some(Block::Block((7, 8, 9), 5)));
    assert_eq!(error_of("2 3\n...\n...\n0 0\n1\n1 2 7 8 9 5"), ConstructionError::BlockOutside);
}

#[test]
fn player_line_gives_the_row_first() {
    let board = Board::from("2 3\n...\n...\n1 2\n0").unwrap();
    assert_eq!(board.get_player_position(), (1, 2));
    assert_eq!(error_of("2 3\n...\n...\n2 1\n0"), ConstructionError::PlayerOutside);
}

#[test]
fn split_cuts_at_every_separator() {
    assert_eq!(split_at(&chars("a b"), ' '), lines(&["a", "b"]));
    assert_eq!(split_at(&chars(""), ' '), lines(&[""]));
    assert_eq!(split_at(&chars(" "), ' '), lines(&["", ""]));
    assert_eq!(split_at(&chars("ab  c "), ' '), lines(&["ab", "", "c", ""]));
    assert_eq!(split_at(&chars("one\ntwo\n"), '\n'), lines(&["one", "two", ""]));
}

#[test]
fn chars_of_keeps_every_character() {
    assert_eq!(chars_of("a\u{e9}\nb"), vec!['a', '\u{e9}', '\n', 'b']);
    assert_eq!(chars_of(""), Vec::<char>::new());
}

#[test]
fn read_number_reads_signed_decimals() {
    assert_eq!(read_number(&chars("0")), Some(0));
    assert_eq!(read_number(&chars("007")), Some(7));
    assert_eq!(read_number(&chars("+12")), Some(12));
    assert_eq!(read_number(&chars("-12")), Some(-12));
    assert_eq!(read_number(&chars("-0")), Some(0));
    assert_eq!(read_number(&chars("18446744073709551615")), Some(18446744073709551615));
    assert_eq!(read_number(&chars("-18446744073709551615")), Some(-18446744073709551615));
    assert_eq!(read_number(&chars("000018446744073709551615")), Some(18446744073709551615));
}

#[test]
fn read_number_rejects_everything_else() {
    assert_eq!(read_number(&chars("")), None);
    assert_eq!(read_number(&chars("+")), None);
    assert_eq!(read_number(&chars("-")), None);
    assert_eq!(read_number(&chars("1 ")), None);
    assert_eq!(read_number(&chars(" 1")), None);
    assert_eq!(read_number(&chars("1-")), None);
    assert_eq!(read_number(&chars("--1")), None);
    assert_eq!(read_number(&chars("1a")), None);
    assert_eq!(read_number(&chars("\u{663}")), None);
    assert_eq!(read_number(&chars("18446744073709551616")), None);
    assert_eq!(read_number(&chars("-18446744073709551616")), None);
    assert_eq!(read_number(&chars("99999999999999999999999")), None);
}

#[test]
fn read_fields_hold_to_their_ranges() {
    assert_eq!(read_usize(&chars("12")), Some(12));
    assert_eq!(read_usize(&chars("-1")), None);
    assert_eq!(read_usize(&chars(&usize::MAX.to_string())), Some(usize::MAX));
    assert_eq!(read_u8(&chars("255")), Some(255));
    assert_eq!(read_u8(&chars("256")), None);
    assert_eq!(read_u8(&chars("-1")), None);
    assert_eq!(read_i32(&chars("-2147483648")), Some(i32::MIN));
    assert_eq!(read_i32(&chars("2147483647")), Some(i32::MAX));
    assert_eq!(read_i32(&chars("2147483648")), None);
    assert_eq!(read_i32(&chars("x")), None);
}
