//! Moves and turns on concrete pieces: what restores a piece, and where a
//! move or a turn is refused.

use tetris::shapes::{
    l_form_turn_left, line_turn_left, s_form_turn_left, s_mirrored_turn_left, t_form_turn_left,
    Direction, Position, Shape, ShapeType,
};

const FAMILIES: [ShapeType; 7] = [
    ShapeType::TForm,
    ShapeType::LForm,
    ShapeType::LMirrored,
    ShapeType::Line,
    ShapeType::SForm,
    ShapeType::SMirrored,
    ShapeType::Quadrat,
];

const FACINGS: [Direction; 4] =
    [Direction::Top, Direction::Bottom, Direction::Left, Direction::Right];

fn cells(s: &Shape) -> [(usize, usize); 4] {
    [
        (s.body[0].x, s.body[0].y),
        (s.body[1].x, s.body[1].y),
        (s.body[2].x, s.body[2].y),
        (s.body[3].x, s.body[3].y),
    ]
}

#[test]
fn position_new_keeps_column_and_row() {
    let p = Position::new(3, 17);
    assert_eq!(p.x, 3);
    assert_eq!(p.y, 17);
    assert_eq!(p, Position { x: 3, y: 17 });
}

#[test]
fn every_fresh_piece_has_four_distinct_cells_in_the_field() {
    for family in FAMILIES {
        for facing in FACINGS {
            let s = Shape::new(family, facing);
            let c = cells(&s);
            for i in 0..4 {
                assert!(c[i].0 < 10, "{:?} {:?}", family, facing);
                assert!(c[i].1 < 22, "{:?} {:?}", family, facing);
                for j in (i + 1)..4 {
                    assert_ne!(c[i], c[j], "{:?} {:?}", family, facing);
                }
            }
            assert_eq!(s.shape_type, family);
        }
    }
}

#[test]
fn fresh_pieces_match_their_layouts() {
    assert_eq!(
        cells(&Shape::new(ShapeType::Quadrat, Direction::Right)),
        [(4, 0), (5, 0), (4, 1), (5, 1)]
    );
    assert_eq!(
        cells(&Shape::new(ShapeType::Line, Direction::Bottom)),
        [(5, 0), (5, 1), (5, 2), (5, 3)]
    );
    assert_eq!(
        cells(&Shape::new(ShapeType::Line, Direction::Right)),
        [(2, 0), (3, 0), (4, 0), (5, 0)]
    );
    assert_eq!(
        cells(&Shape::new(ShapeType::TForm, Direction::Top)),
        [(5, 0), (4, 1), (5, 1), (6, 1)]
    );
    assert_eq!(
        cells(&Shape::new(ShapeType::LForm, Direction::Bottom)),
        [(4, 2), (4, 1), (4, 0), (3, 0)]
    );
    assert_eq!(
        cells(&Shape::new(ShapeType::LMirrored, Direction::Right)),
        [(7, 1), (6, 1), (5, 1), (5, 0)]
    );
    assert_eq!(
        cells(&Shape::new(ShapeType::SForm, Direction::Bottom)),
        [(4, 0), (4, 1), (5, 1), (5, 2)]
    );
    assert_eq!(
        cells(&Shape::new(ShapeType::SForm, Direction::Right)),
        [(3, 1), (4, 1), (4, 0), (5, 0)]
    );
    assert_eq!(
        cells(&Shape::new(ShapeType::SMirrored, Direction::Bottom)),
        [(5, 0), (5, 1), (4, 1), (4, 2)]
    );
    assert_eq!(
        cells(&Shape::new(ShapeType::SMirrored, Direction::Right)),
        [(4, 0), (5, 0), (5, 1), (6, 1)]
    );
}

#[test]
fn fresh_piece_keeps_its_facing_but_the_square_faces_top() {
    for family in FAMILIES {
        for facing in FACINGS {
            let s = Shape::new(family, facing);
            if family == ShapeType::Quadrat {
                assert_eq!(s.direction, Direction::Top);
            } else {
                assert_eq!(s.direction, facing);
            }
        }
    }
}

#[test]
fn four_turns_restore_every_piece() {
    for family in FAMILIES {
        for facing in FACINGS {
            let start = Shape::new(family, facing).translate(1, 3).unwrap();
            let mut s = start;
            for _ in 0..4 {
                s = s.turn_left().unwrap();
            }
            assert_eq!(s, start, "{:?} {:?}", family, facing);
        }
    }
}

#[test]
fn turns_run_through_top_left_bottom_right() {
    for family in FAMILIES {
        if family == ShapeType::Quadrat {
            continue;
        }
        let s = Shape::new(family, Direction::Top).translate(1, 3).unwrap();
        let a = s.turn_left().unwrap();
        assert_eq!(a.direction, Direction::Left, "{:?}", family);
        let b = a.turn_left().unwrap();
        assert_eq!(b.direction, Direction::Bottom, "{:?}", family);
        let c = b.turn_left().unwrap();
        assert_eq!(c.direction, Direction::Right, "{:?}", family);
        let d = c.turn_left().unwrap();
        assert_eq!(d.direction, Direction::Top, "{:?}", family);
    }
}

#[test]
fn a_turn_gives_the_layout_of_the_next_facing() {
    let pairs = [
        (Direction::Top, Direction::Left),
        (Direction::Left, Direction::Bottom),
        (Direction::Bottom, Direction::Right),
        (Direction::Right, Direction::Top),
    ];
    for family in FAMILIES {
        if family == ShapeType::Quadrat {
            continue;
        }
        for (from, to) in pairs {
            let turned = Shape::new(family, from).translate(1, 3).unwrap().turn_left().unwrap();
            let layout = Shape::new(family, to);
            let dx = turned.body[0].x as i64 - layout.body[0].x as i64;
            let dy = turned.body[0].y as i64 - layout.body[0].y as i64;
            for i in 0..4 {
                assert_eq!(turned.body[i].x as i64 - layout.body[i].x as i64, dx);
                assert_eq!(turned.body[i].y as i64 - layout.body[i].y as i64, dy);
            }
        }
    }
}

#[test]
fn the_square_turns_into_itself() {
    let s = Shape::new(ShapeType::Quadrat, Direction::Top);
    assert_eq!(s.turn_left(), Some(s));
    let far = Shape {
        body: [
            Position::new(0, 0),
            Position::new(usize::MAX, 0),
            Position::new(0, usize::MAX),
            Position::new(usize::MAX, usize::MAX),
        ],
        shape_type: ShapeType::Quadrat,
        direction: Direction::Left,
    };
    assert_eq!(far.turn_left(), Some(far));
}

#[test]
fn down_then_up_restores_the_piece() {
    for family in FAMILIES {
        for facing in FACINGS {
            let s = Shape::new(family, facing);
            let lower = s.translate(0, 1).unwrap();
            for i in 0..4 {
                assert_eq!(lower.body[i].x, s.body[i].x);
                assert_eq!(lower.body[i].y, s.body[i].y + 1);
            }
            assert_eq!(lower.translate(0, -1), Some(s));
        }
    }
}

#[test]
fn up_then_down_restores_a_piece_below_row_zero() {
    let s = Shape::new(ShapeType::SForm, Direction::Left).down().unwrap();
    let upper = s.translate(0, -1).unwrap();
    assert_eq!(upper, Shape::new(ShapeType::SForm, Direction::Left));
    assert_eq!(upper.down(), Some(s));
}

#[test]
fn translate_moves_every_cell_by_the_same_amount() {
    let s = Shape::new(ShapeType::TForm, Direction::Top);
    let t = s.translate(-4, 7).unwrap();
    assert_eq!(cells(&t), [(1, 7), (0, 8), (1, 8), (2, 8)]);
    assert_eq!(t.shape_type, ShapeType::TForm);
    assert_eq!(t.direction, Direction::Top);
    assert_eq!(s.translate(0, 0), Some(s));
    assert_eq!(s.left(), s.translate(-1, 0));
    assert_eq!(s.right(), s.translate(1, 0));
    assert_eq!(s.down(), s.translate(0, 1));
}

#[test]
fn a_move_below_zero_is_refused() {
    let s = Shape::new(ShapeType::TForm, Direction::Top);
    assert_eq!(s.translate(0, -1), None);
    assert_eq!(s.translate(-5, 0), None);
    assert!(s.translate(-4, 0).is_some());
    let at_wall = s.translate(-4, 0).unwrap();
    assert_eq!(at_wall.left(), None);
    assert_eq!(s.translate(isize::MIN, 0), None);
}

#[test]
fn a_move_beyond_the_largest_coordinate_is_refused() {
    let s = Shape {
        body: [
            Position::new(usize::MAX - 1, 5),
            Position::new(usize::MAX, 5),
            Position::new(usize::MAX - 1, 6),
            Position::new(usize::MAX, 6),
        ],
        shape_type: ShapeType::Quadrat,
        direction: Direction::Top,
    };
    assert_eq!(s.right(), None);
    assert!(s.left().is_some());
    let low = Shape {
        body: [
            Position::new(1, usize::MAX - 1),
            Position::new(2, usize::MAX - 1),
            Position::new(1, usize::MAX),
            Position::new(2, usize::MAX),
        ],
        shape_type: ShapeType::Quadrat,
        direction: Direction::Top,
    };
    assert_eq!(low.down(), None);
    assert_eq!(low.translate(0, isize::MAX), None);
    let origin = Shape::new(ShapeType::Quadrat, Direction::Top).translate(-4, 0).unwrap();
    let far = origin.translate(isize::MAX, isize::MAX).unwrap();
    assert_eq!(far.body[0], Position::new(isize::MAX as usize, isize::MAX as usize));
    assert_eq!(far.body[3], Position::new(isize::MAX as usize + 1, isize::MAX as usize + 1));
}

#[test]
fn a_turn_below_zero_is_refused() {
    assert_eq!(Shape::new(ShapeType::TForm, Direction::Bottom).turn_left(), None);
    assert!(Shape::new(ShapeType::TForm, Direction::Right).turn_left().is_some());
    assert_eq!(Shape::new(ShapeType::Line, Direction::Left).turn_left(), None);
    assert_eq!(Shape::new(ShapeType::LForm, Direction::Right).turn_left(), None);
    assert!(Shape::new(ShapeType::TForm, Direction::Top).turn_left().is_some());
    let at_wall = Shape::new(ShapeType::Line, Direction::Top).translate(-4, 0).unwrap();
    assert_eq!(at_wall.turn_left(), None);
}

#[test]
fn the_upright_line_turns_into_the_lying_line() {
    let f = Shape::new(ShapeType::Line, Direction::Top);
    assert_eq!(cells(&f), [(5, 0), (5, 1), (5, 2), (5, 3)]);
    let turned = f.turn_left().unwrap();
    assert_eq!(cells(&turned), [(3, 2), (4, 2), (5, 2), (6, 2)]);
    assert_eq!(turned.direction, Direction::Left);
    let lower = f.down().unwrap().turn_left().unwrap();
    assert_eq!(cells(&lower), [(3, 3), (4, 3), (5, 3), (6, 3)]);
}

#[test]
fn the_turn_of_one_family_moves_the_cells_of_any_piece() {
    let s = Shape::new(ShapeType::Quadrat, Direction::Top).translate(0, 3).unwrap();
    let t = t_form_turn_left(s).unwrap();
    assert_eq!(cells(&t), [(4, 3), (5, 3), (4, 4), (4, 5)]);
    assert_eq!(t.shape_type, ShapeType::Quadrat);
    assert_eq!(t.direction, Direction::Left);
    let l = line_turn_left(s).unwrap();
    assert_eq!(cells(&l), [(2, 5), (4, 4), (4, 4), (6, 3)]);
    let bent = l_form_turn_left(s).unwrap();
    assert_eq!(cells(&bent), [(3, 4), (5, 3), (5, 3), (5, 2)]);
    let z = s_form_turn_left(s).unwrap();
    assert_eq!(cells(&z), [(4, 4), (6, 3), (4, 3), (6, 2)]);
    let m = s_mirrored_turn_left(s).unwrap();
    assert_eq!(cells(&m), [(3, 3), (5, 2), (5, 4), (7, 3)]);
}
