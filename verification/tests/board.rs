use npuzzle::npuzzle::errors::IncorrectBoardError;
use npuzzle::npuzzle::{Board, Tile};

fn tiles(numbers: &[usize]) -> Vec<Tile> {
    numbers.iter().map(|n| Tile::new(*n)).collect()
}

fn board(size: usize, numbers: &[usize]) -> Board {
    Board::new_with_tiles(size, tiles(numbers))
}

#[test]
fn tile_gives_its_number_back() {
    assert_eq!(Tile::new(0).to_nbr(), 0);
    assert_eq!(Tile::new(7).to_nbr(), 7);
    assert_eq!(Tile::new(usize::MAX).to_nbr(), usize::MAX);
    assert_eq!(Tile::new(3), Tile::new(3));
    assert_ne!(Tile::new(3), Tile::new(4));
}

#[test]
fn empty_board_has_its_size_and_no_tile() {
    let b = Board::new(3);
    assert_eq!(b.get_size(), 3);
    assert_eq!(b.nb_tile(), 9);
    assert_eq!(
        b.is_correct(),
        Err(IncorrectBoardError::WrongNumberOfTile { found: 0, expected: 9 })
    );
}

#[test]
fn nb_tile_is_the_square_of_the_size() {
    assert_eq!(Board::new(0).nb_tile(), 0);
    assert_eq!(Board::new(1).nb_tile(), 1);
    assert_eq!(Board::new(4).nb_tile(), 16);
    assert_eq!(Board::new(1000).nb_tile(), 1_000_000);
    assert_eq!(board(5, &[1, 2]).nb_tile(), 25);
    assert_eq!(board(5, &[1, 2]).get_size(), 5);
}

#[test]
fn board_of_side_zero_is_correct_and_complete() {
    let b = Board::new(0);
    assert_eq!(b.is_correct(), Ok(()));
    assert!(b.is_complete());
}

#[test]
fn board_of_side_one() {
    assert_eq!(board(1, &[0]).is_correct(), Ok(()));
    assert!(board(1, &[0]).is_complete());
    assert!(board(1, &[5]).is_complete());
    assert!(Board::new(1).is_complete());
    assert_eq!(
        board(1, &[1]).is_correct(),
        Err(IncorrectBoardError::OutOfBoundTile { tile: 1 })
    );
}

#[test]
fn get_reads_in_row_major_order() {
    let b = board(3, &[1, 2, 3, 4, 5, 6, 7, 8, 0]);
    assert_eq!(b.get(0, 0).to_nbr(), 1);
    assert_eq!(b.get(1, 0).to_nbr(), 2);
    assert_eq!(b.get(2, 0).to_nbr(), 3);
    assert_eq!(b.get(0, 1).to_nbr(), 4);
    assert_eq!(b.get(2, 1).to_nbr(), 6);
    assert_eq!(b.get(0, 2).to_nbr(), 7);
    assert_eq!(b.get(2, 2).to_nbr(), 0);
    for y in 0..3 {
        for x in 0..3 {
            let expected = (y * 3 + x + 1) % 9;
            assert_eq!(b.get(x, y), Tile::new(expected));
        }
    }
}

#[test]
fn get_reads_a_board_that_is_still_being_filled() {
    let mut b = Board::new(2);
    let mut first = tiles(&[3, 1]);
    b.append_tiles(&mut first);
    assert_eq!(b.get(0, 0).to_nbr(), 3);
    assert_eq!(b.get(1, 0).to_nbr(), 1);
}

#[test]
fn append_keeps_order_and_leaves_the_source() {
    let mut b = Board::new(2);
    let mut first = tiles(&[3, 1]);
    let mut second = tiles(&[0, 2]);
    b.append_tiles(&mut first);
    assert_eq!(first, tiles(&[3, 1]));
    assert_eq!(
        b.is_correct(),
        Err(IncorrectBoardError::WrongNumberOfTile { found: 2, expected: 4 })
    );
    b.append_tiles(&mut second);
    assert_eq!(second, tiles(&[0, 2]));
    assert_eq!(b.get_size(), 2);
    assert_eq!(b.is_correct(), Ok(()));
    assert_eq!(b.get(0, 0).to_nbr(), 3);
    assert_eq!(b.get(1, 0).to_nbr(), 1);
    assert_eq!(b.get(0, 1).to_nbr(), 0);
    assert_eq!(b.get(1, 1).to_nbr(), 2);
}

#[test]
fn append_nothing_changes_nothing() {
    let mut b = board(2, &[0, 1, 2, 3]);
    let mut none: Vec<Tile> = Vec::new();
    b.append_tiles(&mut none);
    assert!(none.is_empty());
    assert_eq!(b.is_correct(), Ok(()));
    assert!(b.is_complete());
}

#[test]
fn append_beyond_the_grid_is_caught_by_validation() {
    let mut b = board(2, &[0, 1, 2, 3]);
    let mut more = tiles(&[4]);
    b.append_tiles(&mut more);
    assert_eq!(
        b.is_correct(),
        Err(IncorrectBoardError::WrongNumberOfTile { found: 5, expected: 4 })
    );
}

#[test]
fn clone_holds_the_same_tiles() {
    let b = board(2, &[2, 0, 3, 1]);
    let c = b.clone();
    assert_eq!(c.get_size(), 2);
    assert_eq!(c.is_correct(), Ok(()));
    for y in 0..2 {
        for x in 0..2 {
            assert_eq!(c.get(x, y), b.get(x, y));
        }
    }
}

#[test]
fn shifted_row_is_correct_but_not_complete() {
    let b = board(3, &[1, 2, 3, 4, 5, 6, 7, 8, 0]);
    assert_eq!(b.is_correct(), Ok(()));
    assert!(!b.is_complete());
}

#[test]
fn identity_row_is_correct_and_complete() {
    let b = board(3, &[0, 1, 2, 3, 4, 5, 6, 7, 8]);
    assert_eq!(b.is_correct(), Ok(()));
    assert!(b.is_complete());
}

#[test]
fn repeated_last_tile_is_reported() {
    let b = board(3, &[0, 1, 2, 3, 4, 5, 6, 7, 7]);
    assert_eq!(b.is_correct(), Err(IncorrectBoardError::DuplicatedTile { tile: 7 }));
}

#[test]
fn last_tile_out_of_bound_is_reported() {
    let b = board(3, &[0, 1, 2, 3, 4, 5, 6, 7, 9]);
    assert_eq!(b.is_correct(), Err(IncorrectBoardError::OutOfBoundTile { tile: 9 }));
}

#[test]
fn every_permutation_of_side_two_is_correct() {
    let mut count = 0;
    for a in 0..4usize {
        for b in 0..4usize {
            for c in 0..4usize {
                for d in 0..4usize {
                    let row = [a, b, c, d];
                    let all_distinct = a != b && a != c && a != d && b != c && b != d && c != d;
                    let verdict = board(2, &row).is_correct();
                    assert_eq!(verdict.is_ok(), all_distinct);
                    if all_distinct {
                        count += 1;
                    }
                }
            }
        }
    }
    assert_eq!(count, 24);
}

#[test]
fn wrong_count_carries_found_and_expected() {
    assert_eq!(
        board(3, &[0, 1, 2]).is_correct(),
        Err(IncorrectBoardError::WrongNumberOfTile { found: 3, expected: 9 })
    );
    assert_eq!(
        board(2, &[0, 1, 2, 3, 4]).is_correct(),
        Err(IncorrectBoardError::WrongNumberOfTile { found: 5, expected: 4 })
    );
    assert_eq!(
        board(0, &[0]).is_correct(),
        Err(IncorrectBoardError::WrongNumberOfTile { found: 1, expected: 0 })
    );
}

#[test]
fn wrong_count_comes_before_any_tile_is_read() {
    assert_eq!(
        board(2, &[9, 9, 9]).is_correct(),
        Err(IncorrectBoardError::WrongNumberOfTile { found: 3, expected: 4 })
    );
}

#[test]
fn out_of_bound_comes_before_a_later_duplicate() {
    assert_eq!(
        board(2, &[0, 4, 1, 1]).is_correct(),
        Err(IncorrectBoardError::OutOfBoundTile { tile: 4 })
    );
    assert_eq!(
        board(2, &[7, 7, 0, 1]).is_correct(),
        Err(IncorrectBoardError::OutOfBoundTile { tile: 7 })
    );
}

#[test]
fn duplicate_comes_before_a_later_out_of_bound() {
    assert_eq!(
        board(2, &[0, 0, 1, 9]).is_correct(),
        Err(IncorrectBoardError::DuplicatedTile { tile: 0 })
    );
}

#[test]
fn first_of_two_duplicates_is_reported() {
    assert_eq!(
        board(2, &[3, 2, 2, 3]).is_correct(),
        Err(IncorrectBoardError::DuplicatedTile { tile: 2 })
    );
    assert_eq!(
        board(2, &[1, 1, 1, 1]).is_correct(),
        Err(IncorrectBoardError::DuplicatedTile { tile: 1 })
    );
}

#[test]
fn smallest_number_out_of_bound_is_the_number_of_cells() {
    assert_eq!(board(2, &[0, 1, 2, 3]).is_correct(), Ok(()));
    assert_eq!(
        board(2, &[0, 1, 2, 4]).is_correct(),
        Err(IncorrectBoardError::OutOfBoundTile { tile: 4 })
    );
    assert_eq!(
        board(2, &[usize::MAX, 1, 2, 3]).is_correct(),
        Err(IncorrectBoardError::OutOfBoundTile { tile: usize::MAX })
    );
}

#[test]
fn complete_does_not_look_at_the_first_cell() {
    assert!(board(2, &[0, 1, 2, 3]).is_complete());
    assert!(board(2, &[3, 1, 2, 3]).is_complete());
    assert!(board(2, &[100, 1, 2, 3]).is_complete());
}

#[test]
fn complete_is_false_for_any_other_cell_changed() {
    let goal = [0usize, 1, 2, 3, 4, 5, 6, 7, 8];
    for i in 1..9 {
        let mut row = goal;
        row[i] = 0;
        assert!(!board(3, &row).is_complete());
        row[i] = i + 1;
        assert!(!board(3, &row).is_complete());
    }
}

#[test]
fn complete_is_false_while_tiles_are_missing() {
    assert!(!board(2, &[0, 1, 2]).is_complete());
    assert!(!board(2, &[]).is_complete());
    assert!(!Board::new(3).is_complete());
}

#[test]
fn complete_does_not_look_beyond_the_grid() {
    assert!(board(2, &[0, 1, 2, 3, 9, 9]).is_complete());
}

#[test]
fn swapped_pair_is_correct_but_not_complete() {
    let b = board(3, &[0, 2, 1, 3, 4, 5, 6, 7, 8]);
    assert_eq!(b.is_correct(), Ok(()));
    assert!(!b.is_complete());
}
