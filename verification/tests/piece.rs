use tetroids::coord::Coord as C;
use tetroids::game::Movement;
use tetroids::piece::Piece;
use tetroids::template;

#[test]
fn real_locations() {
    let piece = Piece::from_preset(&template::o(), C(4, 5));
    let locations = piece.real_locations();
    assert_eq!([C(4, 5), C(4, 6), C(5, 5), C(5, 6)], locations);
}

#[test]
fn when_translated() {
    let piece = Piece::from_preset(&template::o(), C(4, 5));
    assert_eq!(
        [C(3, 5), C(3, 6), C(4, 5), C(4, 6)],
        piece.real_locations_when_moved(Movement::MoveLeft)
    );
}

#[test]
fn when_rotated() {
    let piece = Piece::from_preset(&template::t(), C(4, 5));
    assert_eq!(
        [C(4, 4), C(4, 5), C(4, 6), C(3, 5)],
        piece.real_locations_when_moved(Movement::RotLeft)
    );
    assert_eq!(
        [C(4, 6), C(4, 5), C(4, 4), C(5, 5)],
        piece.real_locations_when_moved(Movement::RotRight)
    );
}

#[test]
fn do_translate() {
    let mut piece = Piece::from_preset(&template::o(), C(4, 5));
    piece.do_move(Movement::MoveLeft);
    assert_eq!(template::o().offsets, piece.offsets);
    assert_eq!(C(3, 5), piece.coord);
}

#[test]
fn do_rotate() {
    let mut piece_left = Piece::from_preset(&template::t(), C(4, 5));
    let mut piece_right = Piece::from_preset(&template::t(), C(4, 5));

    piece_left.do_move(Movement::RotLeft);
    piece_right.do_move(Movement::RotRight);

    assert_eq!(C(4, 5), piece_left.coord);
    assert_eq!([C(0, -1), C(0, 0), C(0, 1), C(-1, 0)], piece_left.offsets);

    assert_eq!(C(4, 5), piece_right.coord);
    assert_eq!([C(0, 1), C(0, 0), C(0, -1), C(1, 0)], piece_right.offsets);
}

#[test]
fn moved_locations_are_pure() {
    let piece = Piece::from_preset(&template::o(), C(4, 5));
    let first = piece.real_locations_when_moved(Movement::MoveDown);
    let second = piece.real_locations_when_moved(Movement::MoveDown);
    let third = piece.real_locations_when_moved(Movement::MoveLeft);
    assert_eq!(first, second);
    assert_eq!([C(3, 5), C(3, 6), C(4, 5), C(4, 6)], third);
    assert_eq!(template::o().offsets, piece.offsets);
    assert_eq!(C(4, 5), piece.coord);
}

#[test]
fn rotation_of_block_returns_bare_offsets() {
    let piece = Piece::from_preset(&template::o(), C(4, 5));
    assert_eq!(
        [C(0, 0), C(0, 1), C(1, 0), C(1, 1)],
        piece.real_locations_when_moved(Movement::RotRight)
    );
    let mut moved = piece;
    moved.do_move(Movement::RotLeft);
    assert_eq!(piece.offsets, moved.offsets);
    assert_eq!(piece.coord, moved.coord);
}
