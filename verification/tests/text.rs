use npuzzle::npuzzle::{Board, Tile};
use npuzzle::text::{decimal_text, pad_right, parse_size, same_text};

fn board(size: usize, numbers: &[usize]) -> Board {
    Board::new_with_tiles(size, numbers.iter().map(|n| Tile::new(*n)).collect())
}

#[test]
fn decimal_text_writes_numbers_as_the_standard_library_does() {
    assert_eq!(decimal_text(0), "0");
    assert_eq!(decimal_text(7), "7");
    assert_eq!(decimal_text(10), "10");
    assert_eq!(decimal_text(109), "109");
    assert_eq!(decimal_text(9_876_543_210), "9876543210");
    for n in 0..1200usize {
        assert_eq!(decimal_text(n), format!("{}", n));
    }
    assert_eq!(decimal_text(usize::MAX), format!("{}", usize::MAX));
}

#[test]
fn pad_right_fills_up_to_the_width_and_no_further() {
    assert_eq!(pad_right(String::from("7"), 4), "7   ");
    assert_eq!(pad_right(String::from("12"), 4), "12  ");
    assert_eq!(pad_right(String::from("1234"), 4), "1234");
    assert_eq!(pad_right(String::from("12345"), 4), "12345");
    assert_eq!(pad_right(String::new(), 3), "   ");
    assert_eq!(pad_right(String::from("ab"), 0), "ab");
    assert_eq!(pad_right(String::from("é"), 3), "é  ");
}

#[test]
fn parse_size_reads_what_the_standard_library_reads() {
    let samples = [
        "0", "7", "42", "007", "+5", "+0", "", "+", "++5", "-5", "-0", " 5", "5 ", "5a", "a5",
        "1_000", "٣", "12345678901234567890123456789", "18446744073709551615",
        "18446744073709551616", "4294967295", "4294967296", "+18446744073709551615", "0x10",
    ];
    for s in samples.iter() {
        assert_eq!(parse_size(s), s.parse::<usize>().ok(), "for {:?}", s);
    }
}

#[test]
fn parse_size_gives_exact_values() {
    assert_eq!(parse_size("3"), Some(3));
    assert_eq!(parse_size("+12"), Some(12));
    assert_eq!(parse_size("000"), Some(0));
    assert_eq!(parse_size("abc"), None);
    assert_eq!(parse_size(""), None);
    assert_eq!(parse_size("+"), None);
    assert_eq!(parse_size("99999999999999999999999999"), None);
}

#[test]
fn parse_size_reads_back_what_decimal_text_writes() {
    for n in [0usize, 1, 9, 10, 99, 100, 65_535, 1_000_000, usize::MAX].iter() {
        assert_eq!(parse_size(&decimal_text(*n)), Some(*n));
    }
}

#[test]
fn same_text_compares_characters() {
    assert!(same_text("manhattan", "manhattan"));
    assert!(!same_text("manhattan", "Manhattan"));
    assert!(!same_text("a", "ab"));
    assert!(same_text("", ""));
}

#[test]
fn tile_label_is_its_number() {
    assert_eq!(Tile::new(0).to_string(), "0");
    assert_eq!(Tile::new(15).to_string(), "15");
    assert_eq!(Tile::new(12345).to_string(), "12345");
}

#[test]
fn board_text_of_side_three() {
    let b = board(3, &[1, 2, 3, 4, 5, 6, 7, 8, 0]);
    assert_eq!(
        b.to_string(),
        "size : 3\n1    2    3    \n4    5    6    \n7    8    0    \n"
    );
}

#[test]
fn board_text_is_row_major() {
    let b = board(2, &[0, 1, 2, 3]);
    assert_eq!(b.to_string(), "size : 2\n0    1    \n2    3    \n");
}

#[test]
fn board_text_keeps_columns_for_two_digit_labels() {
    let numbers: Vec<usize> = (0..16).collect();
    let b = board(4, &numbers);
    assert_eq!(
        b.to_string(),
        "size : 4\n0    1    2    3    \n4    5    6    7    \n8    9    10   11   \n12   13   14   15   \n"
    );
}

#[test]
fn board_text_does_not_cut_long_labels() {
    let b = board(1, &[123456]);
    assert_eq!(b.to_string(), "size : 1\n123456 \n");
}

#[test]
fn board_text_matches_the_formatting_of_the_standard_library() {
    let numbers = [11usize, 3, 1000, 7, 0, 99999, 5, 42, 8];
    let b = board(3, &numbers);
    let mut expected = format!("size : {}\n", 3);
    for y in 0..3 {
        for x in 0..3 {
            expected.push_str(&format!("{:<4} ", numbers[y * 3 + x]));
        }
        expected.push('\n');
    }
    assert_eq!(b.to_string(), expected);
}

#[test]
fn board_text_of_side_zero_is_the_size_line() {
    assert_eq!(Board::new(0).to_string(), "size : 0\n");
}

#[test]
fn board_text_does_not_show_tiles_beyond_the_grid() {
    let b = board(1, &[4, 5, 6]);
    assert_eq!(b.to_string(), "size : 1\n4    \n");
}
