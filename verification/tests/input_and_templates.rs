use tetroids::coord::Coord as C;
use tetroids::input::Key;
use tetroids::template;

#[test]
fn known_key_codes_decode() {
    assert!(matches!(Key::from(114), Some(Key::ArrowRight)));
    assert!(matches!(Key::from(113), Some(Key::ArrowLeft)));
    assert!(matches!(Key::from(111), Some(Key::ArrowUp)));
    assert!(matches!(Key::from(116), Some(Key::ArrowDown)));
    assert!(matches!(Key::from(90), Some(Key::NumPad0)));
}

#[test]
fn unknown_key_codes_decode_to_none() {
    assert!(Key::from(0).is_none());
    assert!(Key::from(115).is_none());
    assert!(Key::from(-1).is_none());
}

#[test]
fn random_piece_is_a_template_at_the_given_anchor() {
    let templates = [
        template::o(),
        template::t(),
        template::l(),
        template::j(),
        template::s(),
        template::z(),
        template::i(),
    ];
    for _ in 0..50 {
        let piece = template::random_at(C(3, 7));
        assert_eq!(C(3, 7), piece.coord);
        assert!(templates.iter().any(|t| t.offsets == piece.offsets
            && t.color == piece.color
            && t.rotation == piece.rotation));
    }
}

#[test]
fn every_template_anchors_one_offset_on_the_anchor() {
    let templates = [
        template::o(),
        template::t(),
        template::l(),
        template::j(),
        template::s(),
        template::z(),
        template::i(),
    ];
    for t in templates {
        assert!(t.offsets.iter().any(|c| *c == C(0, 0)));
        assert_eq!(C(0, 0), t.coord);
    }
}
