use tetroids::coord::Coord as C;
use tetroids::game::Game;
use tetroids::game::MoveOutcome;
use tetroids::game::Movement;
use tetroids::piece::Piece;
use tetroids::template;

const ATTEMPTS: usize = 200_000;

fn is_o_shape(p: &Piece) -> bool {
    p.offsets == template::o().offsets && !p.rotation
}

fn is_i_shape(p: &Piece) -> bool {
    p.offsets == template::i().offsets && p.rotation
}

fn is_l_shape(p: &Piece) -> bool {
    p.offsets == template::l().offsets && p.rotation
}

fn is_j_shape(p: &Piece) -> bool {
    p.offsets == template::j().offsets && p.rotation
}

/// A fresh game whose first spawned piece is the 2x2 block.
fn new_game_with_block() -> Game {
    for _ in 0..ATTEMPTS {
        let mut game = Game::new();
        game.refill_cursor();
        if is_o_shape(game.get_cursor().unwrap()) {
            return game;
        }
    }
    panic!("the random factory never produced the 2x2 block");
}

fn cursor_cells(game: &Game) -> [C; 4] {
    game.get_cursor().unwrap().real_locations()
}

fn cursor_anchor(game: &Game) -> C {
    game.get_cursor().unwrap().coord
}

fn move_n(game: &mut Game, movement: Movement, n: usize) {
    for _ in 0..n {
        assert_eq!(MoveOutcome::Moved, game.try_move_cursor(movement));
    }
}

fn occupied_cells(game: &Game) -> Vec<(usize, usize)> {
    let mut it = game.board_iter_with_index();
    let mut cells = Vec::new();
    while let Some((x, y, square)) = it.next() {
        if square.is_some() {
            cells.push((x, y));
        }
    }
    cells
}

/// Drop the cursor with repeated downward moves until it locks.
fn drop_until_placed(game: &mut Game) -> [C; 4] {
    loop {
        let cells = cursor_cells(game);
        match game.try_move_cursor(Movement::MoveDown) {
            MoveOutcome::Placed => return cells,
            MoveOutcome::Moved => {}
            MoveOutcome::Rejected => panic!("a downward move can only move or place"),
        }
    }
}

#[test]
fn legal_lateral_move() {
    // The 2x2 block anchored at (4, 10) on an empty board: a leftward move
    // succeeds and shifts all four cells by (-1, 0).
    let mut game = new_game_with_block();
    move_n(&mut game, Movement::MoveRight, 4);
    move_n(&mut game, Movement::MoveDown, 9);
    assert_eq!(C(4, 10), cursor_anchor(&game));
    let before = cursor_cells(&game);
    assert_eq!(MoveOutcome::Moved, game.try_move_cursor(Movement::MoveLeft));
    let after = cursor_cells(&game);
    for k in 0..4 {
        assert_eq!(before[k].0 - 1, after[k].0);
        assert_eq!(before[k].1, after[k].1);
    }
}

#[test]
fn blocked_move_is_rejected() {
    // Occupy column 0 up to row 7 with two upended four-in-a-row pieces,
    // then bring the 2x2 block alongside at (1, 5): its leftward move would
    // land a cell on the occupied (0, 5) and must be rejected without any
    // change to the piece.
    'attempt: for _ in 0..ATTEMPTS {
        let mut game = Game::new();
        for _ in 0..2 {
            game.refill_cursor();
            if !is_i_shape(game.get_cursor().unwrap()) {
                continue 'attempt;
            }
            assert_eq!(MoveOutcome::Moved, game.try_move_cursor(Movement::RotRight));
            drop_until_placed(&mut game);
            assert!(!game.evaluate_score());
        }
        game.refill_cursor();
        if !is_o_shape(game.get_cursor().unwrap()) {
            continue 'attempt;
        }
        move_n(&mut game, Movement::MoveRight, 1);
        move_n(&mut game, Movement::MoveDown, 14);
        assert_eq!(C(1, 5), cursor_anchor(&game));
        let before = cursor_cells(&game);
        assert_eq!([C(1, 5), C(1, 6), C(2, 5), C(2, 6)], before);
        assert_eq!(MoveOutcome::Rejected, game.try_move_cursor(Movement::MoveLeft));
        assert_eq!(before, cursor_cells(&game));
        return;
    }
    panic!("the random factory never produced the needed piece sequence");
}

#[test]
fn landing_triggers_placement() {
    // A piece at the lowest legal row: a downward move reports Placed, the
    // cursor disappears, and the board reports occupancy at its former cells.
    let mut game = new_game_with_block();
    let final_cells = drop_until_placed(&mut game);
    assert_eq!(0, final_cells[0].1.min(final_cells[1].1).min(final_cells[2].1.min(final_cells[3].1)));
    assert!(game.get_cursor().is_none());
    assert!(game.get_projection().is_none());
    let occupied = occupied_cells(&game);
    assert_eq!(4, occupied.len());
    for cell in final_cells {
        assert!(occupied.contains(&(cell.0 as usize, cell.1 as usize)));
    }
}

#[test]
fn line_clear_adds_one_point() {
    // Fill the bottom row completely while leaving a hole in the row above:
    // four 2x2 blocks across columns 0..8, then a piece whose foot fills the
    // last two columns of the bottom row only. Exactly one row clears and
    // the score rises by exactly one.
    'attempt: for _ in 0..ATTEMPTS {
        let mut game = Game::new();
        for target in [0i8, 2, 4, 6] {
            game.refill_cursor();
            if !is_o_shape(game.get_cursor().unwrap()) {
                continue 'attempt;
            }
            let anchor = cursor_anchor(&game);
            let moves = target - anchor.0;
            if moves >= 0 {
                move_n(&mut game, Movement::MoveRight, moves as usize);
            } else {
                move_n(&mut game, Movement::MoveLeft, (-moves) as usize);
            }
            drop_until_placed(&mut game);
            assert!(!game.evaluate_score());
            assert_eq!(0, game.score);
        }
        game.refill_cursor();
        let cursor = game.get_cursor().unwrap();
        let (target, is_l) = if is_l_shape(cursor) {
            (8i8, true)
        } else if is_j_shape(cursor) {
            (9i8, false)
        } else {
            continue 'attempt;
        };
        let anchor = cursor_anchor(&game);
        move_n(&mut game, Movement::MoveRight, (target - anchor.0) as usize);
        drop_until_placed(&mut game);

        assert!(game.evaluate_score());
        assert_eq!(1, game.score);
        // What was the second row, with its one hole, is now the bottom row.
        let occupied = occupied_cells(&game);
        for x in 0..8 {
            assert!(occupied.contains(&(x, 0)));
        }
        let (tall_column, hole_column) = if is_l { (8, 9) } else { (9, 8) };
        assert!(occupied.contains(&(tall_column, 0)));
        assert!(!occupied.contains(&(hole_column, 0)));
        // The tall column keeps one cell higher up, shifted down one row.
        assert!(occupied.contains(&(tall_column, 1)));
        assert!(!game.evaluate_score());
        assert_eq!(1, game.score);
        return;
    }
    panic!("the random factory never produced the needed piece sequence");
}

#[test]
fn accepted_moves_stay_in_bounds() {
    // Bounds discipline: after every accepted movement, all four cells have
    // their column on the board and their row at or above the floor.
    let mut game = new_game_with_block();
    let script = [
        Movement::MoveLeft,
        Movement::MoveLeft,
        Movement::MoveDown,
        Movement::MoveRight,
        Movement::MoveDown,
        Movement::MoveDown,
        Movement::MoveRight,
        Movement::MoveLeft,
    ];
    for movement in script {
        match game.try_move_cursor(movement) {
            MoveOutcome::Moved | MoveOutcome::Rejected => {
                for cell in cursor_cells(&game) {
                    assert!(0 <= cell.0 && cell.0 < 10);
                    assert!(0 <= cell.1);
                }
            }
            MoveOutcome::Placed => panic!("the script never reaches the floor"),
        }
    }
}

#[test]
fn fresh_game_reports_no_clearable_rows() {
    let mut game = Game::new();
    assert_eq!(0, game.score);
    assert!(!game.evaluate_score());
    assert_eq!(0, game.score);
    assert!(occupied_cells(&game).is_empty());
}
