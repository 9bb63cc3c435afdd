use tetroids::board::Board;
use tetroids::board::BOARD_HEIGHT;
use tetroids::board::BOARD_WIDTH;
use tetroids::color::cyan;
use tetroids::color::red;
use tetroids::coord::Coord as C;
use tetroids::piece::Piece;

fn horizontal_bar(x: i8, y: i8) -> Piece {
    Piece {
        offsets: [C(0, 0), C(1, 0), C(2, 0), C(3, 0)],
        color: cyan(),
        rotation: false,
        coord: C(x, y),
    }
}

fn single_cell(x: i8, y: i8) -> Piece {
    Piece {
        offsets: [C(0, 0), C(0, 0), C(0, 0), C(0, 0)],
        color: red(),
        rotation: false,
        coord: C(x, y),
    }
}

#[test]
fn clearing_empty_board_is_a_no_op() {
    let mut board = Board::new();
    assert_eq!(0, board.clear_lines());
    for y in 0..BOARD_HEIGHT {
        for x in 0..BOARD_WIDTH {
            assert!(board.get(x, y).is_none());
        }
    }
}

#[test]
fn clearing_a_single_full_row_shifts_rows_above() {
    let mut board = Board::new();
    // Fill row 3 completely (the bars overlap in the middle; placement just
    // re-marks those cells).
    board.place(&horizontal_bar(0, 3));
    board.place(&horizontal_bar(4, 3));
    board.place(&horizontal_bar(6, 3));
    // One marker above the full row, one below.
    board.place(&single_cell(0, 5));
    board.place(&single_cell(2, 1));
    for x in 0..BOARD_WIDTH {
        assert!(board.get(x, 3).is_some());
    }

    assert_eq!(1, board.clear_lines());

    // The row below the cleared one is untouched.
    assert!(board.get(2, 1).is_some());
    // Row 3 now holds what was row 4: nothing.
    for x in 0..BOARD_WIDTH {
        assert!(board.get(x, 3).is_none());
    }
    // The marker that was above the cleared row came down one row.
    assert!(board.get(0, 4).is_some());
    assert!(board.get(0, 5).is_none());
    // Nothing else is left on the board.
    let mut occupied = 0;
    for y in 0..BOARD_HEIGHT {
        for x in 0..BOARD_WIDTH {
            if board.get(x, y).is_some() {
                occupied += 1;
            }
        }
    }
    assert_eq!(2, occupied);
}

#[test]
fn clearing_a_completely_full_board_empties_it() {
    let mut board = Board::new();
    for y in 0..BOARD_HEIGHT {
        board.place(&horizontal_bar(0, y as i8));
        board.place(&horizontal_bar(4, y as i8));
        board.place(&horizontal_bar(6, y as i8));
    }
    assert_eq!(BOARD_HEIGHT as u8, board.clear_lines());
    for y in 0..BOARD_HEIGHT {
        for x in 0..BOARD_WIDTH {
            assert!(board.get(x, y).is_none());
        }
    }
}

#[test]
fn relative_order_of_kept_rows_is_preserved() {
    let mut board = Board::new();
    // Markers in rows 2, 5 and 7; rows 3 and 4 full.
    board.place(&single_cell(1, 2));
    board.place(&single_cell(4, 5));
    board.place(&single_cell(7, 7));
    for start in [0i8, 4, 6] {
        board.place(&horizontal_bar(start, 3));
        board.place(&horizontal_bar(start, 4));
    }
    assert_eq!(2, board.clear_lines());
    // Rows above the two cleared rows moved down by two, in order.
    assert!(board.get(1, 2).is_some());
    assert!(board.get(4, 3).is_some());
    assert!(board.get(7, 5).is_some());
    assert!(board.get(4, 5).is_none());
    assert!(board.get(7, 7).is_none());
}

#[test]
fn iterator_walks_every_cell_in_order() {
    let board = Board::new();
    let mut it = board.iter_with_index();
    let mut count = 0;
    let mut expected_x = 0;
    let mut expected_y = 0;
    while let Some((x, y, square)) = it.next() {
        assert_eq!(expected_x, x);
        assert_eq!(expected_y, y);
        assert!(square.is_none());
        count += 1;
        expected_x += 1;
        if expected_x == BOARD_WIDTH {
            expected_x = 0;
            expected_y += 1;
        }
    }
    assert_eq!(BOARD_WIDTH * BOARD_HEIGHT, count);
}
