use tetris_engine::{Color, Coord, Kind, Matrix, Offset, Piece, Rotation, HEIGHT, SIZE, WIDTH};

fn filled_count(m: &Matrix) -> usize {
    let mut n = 0;
    for y in 0..HEIGHT {
        for x in 0..WIDTH {
            if m.cell(Coord::new(x, y)).is_some() {
                n += 1;
            }
        }
    }
    n
}

#[test]
fn blank_board_is_empty() {
    let m = Matrix::blank();
    assert_eq!(filled_count(&m), 0);
    assert_eq!(SIZE, 200);
}

#[test]
fn bounds_and_index() {
    assert!(Matrix::in_matrix(Coord::new(0, 0)));
    assert!(Matrix::in_matrix(Coord::new(9, 19)));
    assert!(!Matrix::in_matrix(Coord::new(10, 0)));
    assert!(!Matrix::in_matrix(Coord::new(0, 20)));
    assert!(Matrix::valid_coord(Coord::new(9, 100)));
    assert!(!Matrix::valid_coord(Coord::new(10, 0)));
    assert_eq!(Matrix::index(Coord::new(3, 2)), 23);
    assert_eq!(Matrix::index(Coord::new(9, 19)), 199);
}

#[test]
fn blank_board_accepts_every_piece_within_bounds() {
    let m = Matrix::blank();
    for kind in [Kind::O, Kind::I, Kind::T, Kind::L, Kind::J, Kind::S, Kind::Z] {
        for rotation in [Rotation::N, Rotation::E, Rotation::S, Rotation::W] {
            let piece = Piece { kind, position: Offset::new(3, 8), rotation };
            assert!(m.is_placeable(&piece));
            assert!(!m.is_clipping(&piece));
        }
    }
}

#[test]
fn one_filled_cell_blocks_piece() {
    let piece = Piece { kind: Kind::L, position: Offset::new(2, 5), rotation: Rotation::E };
    let cells = piece.cells().unwrap();
    for c in cells {
        let mut m = Matrix::blank();
        m.set_cell(c, Some(Color::Red));
        assert!(!m.is_placeable(&piece));
        assert!(m.is_clipping(&piece));
    }
    let mut m = Matrix::blank();
    m.set_cell(Coord::new(0, 0), Some(Color::Red));
    assert!(m.is_placeable(&piece));
    assert!(!m.is_clipping(&piece));
}

#[test]
fn off_board_pieces_clip() {
    let m = Matrix::blank();
    let above = Piece { kind: Kind::T, position: Offset::new(3, 18), rotation: Rotation::N };
    assert!(above.cells().is_some());
    assert!(m.is_clipping(&above));
    assert!(!m.is_placeable(&above));
    let left = Piece { kind: Kind::T, position: Offset::new(-1, 3), rotation: Rotation::N };
    assert!(m.is_clipping(&left));
    assert!(!m.is_placeable(&left));
}

#[test]
fn commit_fills_exactly_four_cells() {
    let mut m = Matrix::blank();
    let piece = Piece { kind: Kind::Z, position: Offset::new(0, 0), rotation: Rotation::N };
    m.commit(&piece, Color::Red);
    assert_eq!(filled_count(&m), 4);
    for c in piece.cells().unwrap() {
        assert_eq!(m.cell(c), Some(Color::Red));
    }
    assert_eq!(m.cell(Coord::new(0, 1)), None);
    assert!(!m.is_placeable(&piece));
}

#[test]
fn clipping_is_the_opposite_of_placeable_at_edges() {
    let mut m = Matrix::blank();
    m.set_cell(Coord::new(0, 0), Some(Color::Blue));
    m.set_cell(Coord::new(9, 19), Some(Color::Blue));
    for kind in [Kind::O, Kind::I, Kind::T, Kind::L, Kind::J, Kind::S, Kind::Z] {
        for rotation in [Rotation::N, Rotation::E, Rotation::S, Rotation::W] {
            for x in -6..12 {
                for y in -6..24 {
                    let piece = Piece { kind, position: Offset::new(x, y), rotation };
                    assert_eq!(m.is_clipping(&piece), !m.is_placeable(&piece));
                }
            }
        }
    }
}
