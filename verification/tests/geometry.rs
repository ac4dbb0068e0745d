use tetris::conn::WireError;
use tetris::tetromino::{
    CardinalDirection, Color, Geometry, RotationDirection, Tetromino, TetrominoVariant,
};

fn line() -> Geometry {
    Geometry {
        shape: [(3, 19), (4, 19), (5, 19), (6, 19)],
        center: (4, 19),
        direction: CardinalDirection::North,
    }
}

#[test]
fn transform_moves_cells_and_center() {
    let mut geometry = line();
    geometry.transform(1, -2);
    assert_eq!(geometry.shape, [(4, 17), (5, 17), (6, 17), (7, 17)]);
    assert_eq!(geometry.center, (5, 17));
    assert_eq!(geometry.direction, CardinalDirection::North);
}

#[test]
fn transform_by_nothing_changes_nothing() {
    let mut geometry = line();
    geometry.transform(0, 0);
    assert_eq!(geometry, line());
}

#[test]
fn rotate_clockwise_turns_about_the_center() {
    let mut geometry = line();
    geometry.rotate(RotationDirection::Clockwise);
    assert_eq!(geometry.shape, [(4, 20), (4, 19), (4, 18), (4, 17)]);
    assert_eq!(geometry.center, (4, 19));
    assert_eq!(geometry.direction, CardinalDirection::East);
}

#[test]
fn rotate_counter_clockwise_turns_about_the_center() {
    let mut geometry = line();
    geometry.rotate(RotationDirection::CounterClockwise);
    assert_eq!(geometry.shape, [(4, 18), (4, 19), (4, 20), (4, 21)]);
    assert_eq!(geometry.center, (4, 19));
    assert_eq!(geometry.direction, CardinalDirection::West);
}

#[test]
fn four_quarter_turns_are_no_turn() {
    for variant in TetrominoVariant::list() {
        let start = Tetromino::new(variant).geometry;
        let mut clockwise = start;
        let mut counter = start;
        for _ in 0..4 {
            clockwise.rotate(RotationDirection::Clockwise);
            counter.rotate(RotationDirection::CounterClockwise);
        }
        assert_eq!(clockwise, start);
        assert_eq!(counter, start);
    }
}

#[test]
fn a_turn_and_its_opposite_cancel() {
    let mut geometry = line();
    geometry.rotate(RotationDirection::Clockwise);
    geometry.rotate(RotationDirection::CounterClockwise);
    assert_eq!(geometry, line());
}

#[test]
fn the_facing_goes_round_the_compass() {
    let mut facing = CardinalDirection::North;
    facing = facing.turn(RotationDirection::Clockwise);
    assert_eq!(facing, CardinalDirection::East);
    facing = facing.turn(RotationDirection::Clockwise);
    assert_eq!(facing, CardinalDirection::South);
    facing = facing.turn(RotationDirection::Clockwise);
    assert_eq!(facing, CardinalDirection::West);
    facing = facing.turn(RotationDirection::Clockwise);
    assert_eq!(facing, CardinalDirection::North);
    facing = facing.turn(RotationDirection::CounterClockwise);
    assert_eq!(facing, CardinalDirection::West);
}

#[test]
fn facings_are_numbered_from_north() {
    assert_eq!(CardinalDirection::North.to_u8(), 0);
    assert_eq!(CardinalDirection::East.to_u8(), 1);
    assert_eq!(CardinalDirection::South.to_u8(), 2);
    assert_eq!(CardinalDirection::West.to_u8(), 3);
    assert_eq!(CardinalDirection::from_u8(0), Some(CardinalDirection::North));
    assert_eq!(CardinalDirection::from_u8(1), Some(CardinalDirection::East));
    assert_eq!(CardinalDirection::from_u8(2), Some(CardinalDirection::South));
    assert_eq!(CardinalDirection::from_u8(3), Some(CardinalDirection::West));
    assert_eq!(CardinalDirection::from_u8(4), None);
    assert_eq!(CardinalDirection::from_u8(255), None);
}

fn odd() -> Geometry {
    Geometry {
        shape: [(-1, 2), (0, 0), (1, 258), (65536, -2)],
        center: (3, -1),
        direction: CardinalDirection::South,
    }
}

#[test]
fn to_bytes_lays_out_41_bytes() {
    let bytes = odd().to_bytes();
    let expected: Vec<u8> = vec![
        2, // facing
        3, 0, 0, 0, 255, 255, 255, 255, // center
        255, 255, 255, 255, 2, 0, 0, 0, // first cell
        0, 0, 0, 0, 0, 0, 0, 0, // second cell
        1, 0, 0, 0, 2, 1, 0, 0, // third cell
        0, 0, 1, 0, 254, 255, 255, 255, // fourth cell
    ];
    assert_eq!(bytes.len(), 41);
    assert_eq!(bytes, expected);
}

#[test]
fn to_bytes_of_the_extremes() {
    let geometry = Geometry {
        shape: [(i32::MAX, i32::MIN), (0, 0), (0, 0), (0, 0)],
        center: (0, 0),
        direction: CardinalDirection::West,
    };
    let bytes = geometry.to_bytes();
    assert_eq!(bytes[0], 3);
    assert_eq!(&bytes[9..13], &[255, 255, 255, 127]);
    assert_eq!(&bytes[13..17], &[0, 0, 0, 128]);
    let mut buf = [0u8; 41];
    buf.copy_from_slice(&bytes);
    assert_eq!(Geometry::from_bytes(buf), Ok(geometry));
}

#[test]
fn from_bytes_reads_back_what_to_bytes_wrote() {
    let bytes = odd().to_bytes();
    let mut buf = [0u8; 41];
    buf.copy_from_slice(&bytes);
    assert_eq!(Geometry::from_bytes(buf), Ok(odd()));
}

#[test]
fn round_trip_of_every_variant_in_every_facing() {
    for variant in TetrominoVariant::list() {
        let mut geometry = Tetromino::new(variant).geometry;
        geometry.transform(3, 18);
        for _ in 0..4 {
            geometry.rotate(RotationDirection::Clockwise);
            let bytes = geometry.to_bytes();
            let mut buf = [0u8; 41];
            buf.copy_from_slice(&bytes);
            assert_eq!(Geometry::from_bytes(buf), Ok(geometry));
        }
    }
}

#[test]
fn from_bytes_refuses_a_byte_that_is_no_facing() {
    let mut buf = [0u8; 41];
    buf[0] = 4;
    assert_eq!(Geometry::from_bytes(buf), Err(WireError::Direction(4)));
    buf[0] = 200;
    assert_eq!(Geometry::from_bytes(buf), Err(WireError::Direction(200)));
}

#[test]
fn from_bytes_of_zeros_is_the_origin_facing_north() {
    let decoded = Geometry::from_bytes([0u8; 41]);
    assert_eq!(
        decoded,
        Ok(Geometry {
            shape: [(0, 0); 4],
            center: (0, 0),
            direction: CardinalDirection::North
        })
    );
}

#[test]
fn the_catalog_holds_the_seven_variants() {
    let expected = [
        (TetrominoVariant::I, [(0, 1), (1, 1), (2, 1), (3, 1)], (1, 1), Color::Cyan),
        (TetrominoVariant::J, [(1, 1), (1, 0), (2, 0), (3, 0)], (2, 0), Color::Blue),
        (TetrominoVariant::L, [(1, 0), (2, 0), (3, 0), (3, 1)], (2, 0), Color::Orange),
        (TetrominoVariant::O, [(1, 0), (1, 1), (2, 0), (2, 1)], (1, 0), Color::Yellow),
        (TetrominoVariant::S, [(1, 0), (2, 0), (2, 1), (3, 1)], (2, 0), Color::Green),
        (TetrominoVariant::T, [(1, 0), (2, 0), (2, 1), (3, 0)], (2, 0), Color::Magenta),
        (TetrominoVariant::Z, [(1, 1), (2, 1), (2, 0), (3, 0)], (2, 0), Color::Red),
    ];
    for (variant, shape, center, color) in expected {
        let piece = Tetromino::new(variant);
        assert_eq!(piece.variant, variant);
        assert_eq!(piece.geometry.shape, shape);
        assert_eq!(piece.geometry.center, center);
        assert_eq!(piece.geometry.direction, CardinalDirection::North);
        assert_eq!(piece.color, color);
    }
}

#[test]
fn the_list_of_variants_is_in_order() {
    assert_eq!(
        TetrominoVariant::list(),
        vec![
            TetrominoVariant::I,
            TetrominoVariant::J,
            TetrominoVariant::L,
            TetrominoVariant::O,
            TetrominoVariant::S,
            TetrominoVariant::T,
            TetrominoVariant::Z
        ]
    );
}

#[test]
fn the_kick_tables_are_as_the_rotation_system_has_them() {
    assert_eq!(
        TetrominoVariant::I.kick_table_row(CardinalDirection::North),
        [(0, 0), (-1, 0), (2, 0), (-1, 0), (2, 0)]
    );
    assert_eq!(
        TetrominoVariant::I.kick_table_row(CardinalDirection::East),
        [(-1, 0), (0, 0), (0, 0), (0, 1), (0, -2)]
    );
    assert_eq!(
        TetrominoVariant::I.kick_table_row(CardinalDirection::South),
        [(-1, 1), (1, 1), (-2, 1), (1, 0), (-2, 0)]
    );
    assert_eq!(
        TetrominoVariant::I.kick_table_row(CardinalDirection::West),
        [(0, 1), (0, 1), (0, 1), (0, -1), (0, 2)]
    );
    assert_eq!(
        TetrominoVariant::O.kick_table_row(CardinalDirection::South),
        [(-1, -1), (0, 0), (0, 0), (0, 0), (0, 0)]
    );
    for variant in [
        TetrominoVariant::J,
        TetrominoVariant::L,
        TetrominoVariant::S,
        TetrominoVariant::T,
        TetrominoVariant::Z,
    ] {
        assert_eq!(variant.kick_table_row(CardinalDirection::North), [(0, 0); 5]);
        assert_eq!(
            variant.kick_table_row(CardinalDirection::East),
            [(0, 0), (1, 0), (1, -1), (0, 2), (1, 2)]
        );
        assert_eq!(variant.kick_table_row(CardinalDirection::South), [(0, 0); 5]);
        assert_eq!(
            variant.kick_table_row(CardinalDirection::West),
            [(0, 0), (-1, 0), (-1, -1), (0, 2), (-1, 2)]
        );
    }
}

#[test]
fn at_pos_covers_two_columns_for_each_cell() {
    // The cell (1, 0) of the T piece is drawn at the columns 3 and 4 of row 0.
    let piece = Tetromino::new(TetrominoVariant::T);
    assert!(piece.at_pos(4, 0, 0, 0));
    assert!(piece.at_pos(3, 0, 0, 0));
    assert!(!piece.at_pos(2, 0, 0, 0));
    // The cell (2, 1) is drawn at the columns 5 and 6 of row 1.
    assert!(piece.at_pos(6, 1, 0, 0));
    assert!(piece.at_pos(5, 1, 0, 0));
    assert!(!piece.at_pos(4, 1, 0, 0));
    assert!(!piece.at_pos(7, 1, 0, 0));
    // Offsets move the drawing.
    assert!(piece.at_pos(14, 7, 10, 7));
    assert!(!piece.at_pos(14, 7, 10, 6));
}
