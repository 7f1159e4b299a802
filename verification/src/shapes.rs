//! Pieces as sets of four grid cells: the spawn layout of every family and
//! facing, unit moves, and rotation to the left.
//!
//! Executable pieces ([`Shape`]) hold machine coordinates. Contracts speak of
//! their view, a [`Piece`] whose cells are pairs of mathematical integers, so
//! that a move can be described before asking whether its result still fits
//! into machine coordinates.

use vstd::prelude::*;

verus! {

/// The rotation state of a piece.
#[derive(Debug, Clone, Copy, PartialEq, Eq, Structural)]
pub enum Direction {
    Top,
    Bottom,
    Left,
    Right,
}

/// A grid coordinate: column `x` and row `y`, counted from the top-left corner.
#[derive(Debug, Clone, Copy, PartialEq, Eq, Structural)]
pub struct Position {
    pub x: usize,
    pub y: usize,
}

impl Position {
    pub fn new(x: usize, y: usize) -> (p: Self)
        ensures
            p.x == x,
            p.y == y,
    {
        Self { x, y }
    }
}

/// The four cells of a piece, in the fixed order of its layout table.
pub type ShapeBody = [Position; 4];

/// The seven piece families.
#[derive(Debug, Clone, Copy, PartialEq, Eq, Structural)]
pub enum ShapeType {
    TForm,
    LForm,
    LMirrored,
    Line,
    SForm,
    SMirrored,
    Quadrat,
}

/// A piece on the grid: its family, its facing and the four cells it covers.
#[derive(Debug, Clone, Copy, PartialEq, Eq)]
pub struct Shape {
    pub body: ShapeBody,
    pub shape_type: ShapeType,
    pub direction: Direction,
}

/// The mathematical model of a piece: cells are (column, row) pairs of
/// unbounded integers.
pub struct Piece {
    pub cells: Seq<(int, int)>,
    pub family: ShapeType,
    pub facing: Direction,
}

/// The cells of a body as pairs of integers, in the order of the body.
pub open spec fn body_cells(body: ShapeBody) -> Seq<(int, int)> {
    Seq::new(4, |i: int| (body[i].x as int, body[i].y as int))
}

impl View for Shape {
    type V = Piece;

    open spec fn view(&self) -> Piece {
        Piece {
            cells: body_cells(self.body),
            family: self.shape_type,
            facing: self.direction,
        }
    }
}

/// Whether `v` can be held in a machine coordinate.
pub open spec fn is_coordinate(v: int) -> bool {
    0 <= v <= usize::MAX
}

/// The cells that a fresh piece of `family` covers when it enters the grid
/// with `facing`. The square looks the same in every facing; the line and the
/// two S families look the same in opposite facings.
pub open spec fn spawn_cells(family: ShapeType, facing: Direction) -> Seq<(int, int)> {
    match family {
        ShapeType::Quadrat => seq![(4, 0), (5, 0), (4, 1), (5, 1)],
        ShapeType::Line => match facing {
            Direction::Top | Direction::Bottom => seq![(5, 0), (5, 1), (5, 2), (5, 3)],
            Direction::Left | Direction::Right => seq![(2, 0), (3, 0), (4, 0), (5, 0)],
        },
        ShapeType::TForm => match facing {
            Direction::Top => seq![(5, 0), (4, 1), (5, 1), (6, 1)],
            Direction::Bottom => seq![(5, 1), (4, 0), (5, 0), (6, 0)],
            Direction::Left => seq![(5, 0), (4, 1), (5, 1), (5, 2)],
            Direction::Right => seq![(5, 0), (5, 2), (5, 1), (6, 1)],
        },
        ShapeType::LForm => match facing {
            Direction::Top => seq![(4, 0), (4, 1), (4, 2), (5, 2)],
            Direction::Bottom => seq![(4, 2), (4, 1), (4, 0), (3, 0)],
            Direction::Left => seq![(2, 1), (3, 1), (4, 1), (4, 0)],
            Direction::Right => seq![(6, 0), (5, 0), (4, 0), (4, 1)],
        },
        ShapeType::LMirrored => match facing {
            Direction::Top => seq![(5, 0), (5, 1), (5, 2), (4, 2)],
            Direction::Bottom => seq![(5, 2), (5, 1), (5, 0), (6, 0)],
            Direction::Left => seq![(3, 0), (4, 0), (5, 0), (5, 1)],
            Direction::Right => seq![(7, 1), (6, 1), (5, 1), (5, 0)],
        },
        ShapeType::SForm => match facing {
            Direction::Top | Direction::Bottom => seq![(4, 0), (4, 1), (5, 1), (5, 2)],
            Direction::Left | Direction::Right => seq![(3, 1), (4, 1), (4, 0), (5, 0)],
        },
        ShapeType::SMirrored => match facing {
            Direction::Top | Direction::Bottom => seq![(5, 0), (5, 1), (4, 1), (4, 2)],
            Direction::Left | Direction::Right => seq![(4, 0), (5, 0), (5, 1), (6, 1)],
        },
    }
}

/// The facing after one turn to the left. The square has a single facing and
/// keeps it; every other family runs through Top, Left, Bottom, Right.
pub open spec fn next_facing(family: ShapeType, facing: Direction) -> Direction {
    if family is Quadrat {
        facing
    } else {
        match facing {
            Direction::Top => Direction::Left,
            Direction::Left => Direction::Bottom,
            Direction::Bottom => Direction::Right,
            Direction::Right => Direction::Top,
        }
    }
}

/// How far each of the four cells moves when a piece of `family` turns left
/// out of `facing`. The offsets are tuned per family so that the piece turns
/// in place around its own pivot.
pub open spec fn turn_deltas(family: ShapeType, facing: Direction) -> Seq<(int, int)> {
    match family {
        ShapeType::Quadrat => seq![(0, 0), (0, 0), (0, 0), (0, 0)],
        ShapeType::Line => match facing {
            Direction::Top | Direction::Bottom => seq![(-2, 2), (-1, 1), (0, 0), (1, -1)],
            Direction::Left | Direction::Right => seq![(2, -2), (1, -1), (0, 0), (-1, 1)],
        },
        ShapeType::TForm => match facing {
            Direction::Top => seq![(0, 0), (0, 0), (0, 0), (-1, 1)],
            Direction::Bottom => seq![(0, -2), (1, 1), (0, 0), (0, 0)],
            Direction::Left => seq![(0, 2), (0, 0), (0, 0), (1, -1)],
            Direction::Right => seq![(0, 0), (-1, -1), (0, 0), (0, 0)],
        },
        ShapeType::LForm => match facing {
            Direction::Top => seq![(-1, 1), (0, 0), (1, -1), (0, -2)],
            Direction::Bottom => seq![(1, -1), (0, 0), (-1, 1), (0, 2)],
            Direction::Left => seq![(1, 1), (0, 0), (-1, -1), (-2, 0)],
            Direction::Right => seq![(-1, -1), (0, 0), (1, 1), (2, 0)],
        },
        ShapeType::LMirrored => match facing {
            Direction::Top => seq![(-1, 1), (0, 0), (1, -1), (2, 0)],
            Direction::Bottom => seq![(1, -1), (0, 0), (-1, 1), (-2, 0)],
            Direction::Left => seq![(1, 1), (0, 0), (-1, -1), (0, -2)],
            Direction::Right => seq![(-1, -1), (0, 0), (1, 1), (0, 2)],
        },
        ShapeType::SForm => match facing {
            Direction::Top | Direction::Bottom => seq![(0, 1), (1, 0), (0, -1), (1, -2)],
            Direction::Left | Direction::Right => seq![(0, -1), (-1, 0), (0, 1), (-1, 2)],
        },
        ShapeType::SMirrored => match facing {
            Direction::Top | Direction::Bottom => seq![(-1, 0), (0, -1), (1, 0), (2, -1)],
            Direction::Left | Direction::Right => seq![(1, 0), (0, 1), (-1, 0), (-2, 1)],
        },
    }
}

impl Piece {
    /// A fresh piece. The square always enters facing Top.
    pub open spec fn spawn(family: ShapeType, facing: Direction) -> Piece {
        Piece {
            cells: spawn_cells(family, facing),
            family,
            facing: if family is Quadrat {
                Direction::Top
            } else {
                facing
            },
        }
    }

    /// Four cells, each of which a machine coordinate pair can hold.
    pub open spec fn fits(self) -> bool {
        &&& self.cells.len() == 4
        &&& forall|i: int|
            0 <= i < 4 ==> is_coordinate(#[trigger] self.cells[i].0) && is_coordinate(
                self.cells[i].1,
            )
    }

    /// Every cell moved by its own offset, the piece then facing `facing`.
    pub open spec fn displaced(self, deltas: Seq<(int, int)>, facing: Direction) -> Piece {
        Piece {
            cells: Seq::new(
                self.cells.len(),
                |i: int| (self.cells[i].0 + deltas[i].0, self.cells[i].1 + deltas[i].1),
            ),
            family: self.family,
            facing,
        }
    }

    /// Every cell moved by `dx` columns and `dy` rows.
    pub open spec fn translated(self, dx: int, dy: int) -> Piece {
        Piece {
            cells: Seq::new(
                self.cells.len(),
                |i: int| (self.cells[i].0 + dx, self.cells[i].1 + dy),
            ),
            family: self.family,
            facing: self.facing,
        }
    }

    /// One turn to the left by the offsets of `family`, which callers take to
    /// be the family of the piece itself.
    pub open spec fn turned_as(self, family: ShapeType) -> Piece {
        self.displaced(turn_deltas(family, self.facing), next_facing(family, self.facing))
    }

    /// One turn to the left.
    pub open spec fn turned(self) -> Piece {
        self.turned_as(self.family)
    }

    /// The piece is its family's layout for its facing, moved as a whole.
    pub open spec fn is_rigid(self) -> bool {
        let layout = spawn_cells(self.family, self.facing);
        &&& self.cells.len() == 4
        &&& self.cells =~= Seq::new(
            4,
            |i: int|
                (
                    layout[i].0 + (self.cells[0].0 - layout[0].0),
                    layout[i].1 + (self.cells[0].1 - layout[0].1),
                ),
        )
    }

    /// No two of the four cells coincide.
    pub open spec fn cells_distinct(self) -> bool {
        forall|i: int, j: int|
            0 <= i < j < self.cells.len() ==> #[trigger] self.cells[i] != #[trigger] self.cells[j]
    }
}

/// The offsets of a table as mathematical integers.
spec fn offsets(table: Seq<(isize, isize)>) -> Seq<(int, int)> {
    Seq::new(table.len(), |i: int| (table[i].0 as int, table[i].1 as int))
}

/// Moves one coordinate by a signed amount, if the result is a coordinate.
fn moved_coordinate(v: usize, d: isize) -> (r: Option<usize>)
    ensures
        r is Some <==> is_coordinate(v + d),
        r matches Some(w) ==> w == v + d,
{
    if d >= 0 {
        let up: usize = d as usize;
        if v <= usize::MAX - up {
            Some(v + up)
        } else {
            None
        }
    } else {
        let down: usize = ((-(d + 1)) as usize) + 1;
        if v >= down {
            Some(v - down)
        } else {
            None
        }
    }
}

/// Moves one cell, if both of its new coordinates are coordinates.
fn moved_position(p: Position, dx: isize, dy: isize) -> (r: Option<Position>)
    ensures
        r is Some <==> is_coordinate(p.x + dx) && is_coordinate(p.y + dy),
        r matches Some(q) ==> q.x == p.x + dx && q.y == p.y + dy,
{
    let x = moved_coordinate(p.x, dx)?;
    let y = moved_coordinate(p.y, dy)?;
    Some(Position::new(x, y))
}

/// Moves each cell of `s` by its entry in `table` and sets the facing; fails
/// as soon as one coordinate would leave the machine range.
fn displace(s: &Shape, table: &[(isize, isize); 4], facing: Direction) -> (r: Option<Shape>)
    ensures
        r is Some <==> s@.displaced(offsets(table@), facing).fits(),
        r matches Some(t) ==> t@ == s@.displaced(offsets(table@), facing),
{
    let ghost goal = s@.displaced(offsets(table@), facing);
    let b0 = moved_position(s.body[0], table[0].0, table[0].1);
    let b1 = moved_position(s.body[1], table[1].0, table[1].1);
    let b2 = moved_position(s.body[2], table[2].0, table[2].1);
    let b3 = moved_position(s.body[3], table[3].0, table[3].1);
    match (b0, b1, b2, b3) {
        (Some(c0), Some(c1), Some(c2), Some(c3)) => {
            let t = Shape { body: [c0, c1, c2, c3], shape_type: s.shape_type, direction: facing };
            assert(t@.cells =~= goal.cells);
            Some(t)
        },
        _ => {
            assert(!goal.fits()) by {
                if goal.fits() {
                    assert(is_coordinate(goal.cells[0].0) && is_coordinate(goal.cells[0].1));
                    assert(is_coordinate(goal.cells[1].0) && is_coordinate(goal.cells[1].1));
                    assert(is_coordinate(goal.cells[2].0) && is_coordinate(goal.cells[2].1));
                    assert(is_coordinate(goal.cells[3].0) && is_coordinate(goal.cells[3].1));
                }
            }
            None
        },
    }
}

impl Shape {
    /// A fresh piece of family `t` that enters the grid facing `d`.
    pub fn new(t: ShapeType, d: Direction) -> (s: Self)
        ensures
            s@ == Piece::spawn(t, d),
            s@.is_rigid(),
    {
        match t {
            ShapeType::Quadrat => quadrat(),
            ShapeType::Line => line(d),
            ShapeType::TForm => t_form(d),
            ShapeType::LForm => l_form(d),
            ShapeType::LMirrored => l_mirrored(d),
            ShapeType::SForm => s_form(d),
            ShapeType::SMirrored => s_mirrored(d),
        }
    }

    /// The piece moved by `dx` columns and `dy` rows, unless a coordinate
    /// would become negative or exceed the machine range. The grid's own
    /// bounds play no part here.
    pub fn translate(&self, dx: isize, dy: isize) -> (r: Option<Shape>)
        ensures
            r is Some <==> self@.translated(dx as int, dy as int).fits(),
            r matches Some(t) ==> t@ == self@.translated(dx as int, dy as int),
            r matches Some(t) ==> (self@.is_rigid() ==> t@.is_rigid()),
    {
        let table: [(isize, isize); 4] = [(dx, dy), (dx, dy), (dx, dy), (dx, dy)];
        assert(self@.displaced(offsets(table@), self.direction).cells =~= self@.translated(
            dx as int,
            dy as int,
        ).cells);
        displace(self, &table, self.direction)
    }

    /// One column to the left.
    pub fn left(&self) -> (r: Option<Shape>)
        ensures
            r is Some <==> self@.translated(-1, 0).fits(),
            r matches Some(t) ==> t@ == self@.translated(-1, 0),
            r matches Some(t) ==> (self@.is_rigid() ==> t@.is_rigid()),
    {
        self.translate(-1, 0)
    }

    /// One column to the right.
    pub fn right(&self) -> (r: Option<Shape>)
        ensures
            r is Some <==> self@.translated(1, 0).fits(),
            r matches Some(t) ==> t@ == self@.translated(1, 0),
            r matches Some(t) ==> (self@.is_rigid() ==> t@.is_rigid()),
    {
        self.translate(1, 0)
    }

    /// One row down.
    pub fn down(&self) -> (r: Option<Shape>)
        ensures
            r is Some <==> self@.translated(0, 1).fits(),
            r matches Some(t) ==> t@ == self@.translated(0, 1),
            r matches Some(t) ==> (self@.is_rigid() ==> t@.is_rigid()),
    {
        self.translate(0, 1)
    }

    /// One turn to the left, unless a coordinate would become negative or
    /// exceed the machine range. The square is returned as it is.
    pub fn turn_left(&self) -> (r: Option<Shape>)
        ensures
            r is Some <==> self@.turned().fits(),
            r matches Some(t) ==> t@ == self@.turned(),
            r matches Some(t) ==> (self@.is_rigid() ==> t@.is_rigid()),
    {
        let shape = *self;
        match self.shape_type {
            ShapeType::Line => line_turn_left(shape),
            ShapeType::TForm => t_form_turn_left(shape),
            ShapeType::LForm => l_form_turn_left(shape),
            ShapeType::LMirrored => l_mirrored_turn_left(shape),
            ShapeType::SForm => s_form_turn_left(shape),
            ShapeType::SMirrored => s_mirrored_turn_left(shape),
            ShapeType::Quadrat => {
                assert(shape@.turned().cells =~= shape@.cells);
                assert(shape@.fits());
                Some(shape)
            },
        }
    }
}

/// The square at its entry position.
pub fn quadrat() -> (s: Shape)
    ensures
        s@ == Piece::spawn(ShapeType::Quadrat, Direction::Top),
{
    let x: usize = 4;
    let y: usize = 0;
    let s = Shape {
        shape_type: ShapeType::Quadrat,
        direction: Direction::Top,
        body: [
            Position::new(x, y),
            Position::new(x + 1, y),
            Position::new(x, y + 1),
            Position::new(x + 1, y + 1),
        ],
    };
    assert(s@.cells =~= spawn_cells(ShapeType::Quadrat, Direction::Top));
    s
}

/// The line at its entry position: upright when facing Top or Bottom, lying
/// when facing Left or Right.
pub fn line(direction: Direction) -> (s: Shape)
    ensures
        s@ == Piece::spawn(ShapeType::Line, direction),
{
    let x: usize = match direction {
        Direction::Left | Direction::Right => 4,
        Direction::Top | Direction::Bottom => 5,
    };
    let y: usize = 0;
    let body = match direction {
        Direction::Top | Direction::Bottom => [
            Position::new(x, y),
            Position::new(x, y + 1),
            Position::new(x, y + 2),
            Position::new(x, y + 3),
        ],
        Direction::Left | Direction::Right => [
            Position::new(x - 2, y),
            Position::new(x - 1, y),
            Position::new(x, y),
            Position::new(x + 1, y),
        ],
    };
    let s = Shape { shape_type: ShapeType::Line, body, direction };
    assert(s@.cells =~= spawn_cells(ShapeType::Line, direction));
    s
}

/// Turns `s` left by the offsets of the line.
pub fn line_turn_left(s: Shape) -> (r: Option<Shape>)
    ensures
        r is Some <==> s@.turned_as(ShapeType::Line).fits(),
        r matches Some(t) ==> t@ == s@.turned_as(ShapeType::Line),
{
    let table: [(isize, isize); 4] = match s.direction {
        Direction::Top | Direction::Bottom => [(-2, 2), (-1, 1), (0, 0), (1, -1)],
        Direction::Left | Direction::Right => [(2, -2), (1, -1), (0, 0), (-1, 1)],
    };
    assert(offsets(table@) =~= turn_deltas(ShapeType::Line, s.direction));
    displace(&s, &table, turned_facing(s.direction))
}

/// The facing that follows `d` when a piece other than the square turns left.
fn turned_facing(d: Direction) -> (n: Direction)
    ensures
        forall|family: ShapeType| !(family is Quadrat) ==> n == #[trigger] next_facing(family, d),
{
    match d {
        Direction::Top => Direction::Left,
        Direction::Left => Direction::Bottom,
        Direction::Bottom => Direction::Right,
        Direction::Right => Direction::Top,
    }
}

/// The T at its entry position; the facing names the side of its stem.
pub fn t_form(direction: Direction) -> (s: Shape)
    ensures
        s@ == Piece::spawn(ShapeType::TForm, direction),
{
    let x: usize = 5;
    let y: usize = 0;
    let body = match direction {
        Direction::Top => [
            Position::new(x, y),
            Position::new(x - 1, y + 1),
            Position::new(x, y + 1),
            Position::new(x + 1, y + 1),
        ],
        Direction::Bottom => [
            Position::new(x, y + 1),
            Position::new(x - 1, y),
            Position::new(x, y),
            Position::new(x + 1, y),
        ],
        Direction::Left => [
            Position::new(x, y),
            Position::new(x - 1, y + 1),
            Position::new(x, y + 1),
            Position::new(x, y + 2),
        ],
        Direction::Right => [
            Position::new(x, y),
            Position::new(x, y + 2),
            Position::new(x, y + 1),
            Position::new(x + 1, y + 1),
        ],
    };
    let s = Shape { shape_type: ShapeType::TForm, body, direction };
    assert(s@.cells =~= spawn_cells(ShapeType::TForm, direction));
    s
}

/// Turns `s` left by the offsets of the T.
pub fn t_form_turn_left(s: Shape) -> (r: Option<Shape>)
    ensures
        r is Some <==> s@.turned_as(ShapeType::TForm).fits(),
        r matches Some(t) ==> t@ == s@.turned_as(ShapeType::TForm),
{
    let table: [(isize, isize); 4] = match s.direction {
        Direction::Top => [(0, 0), (0, 0), (0, 0), (-1, 1)],
        Direction::Bottom => [(0, -2), (1, 1), (0, 0), (0, 0)],
        Direction::Left => [(0, 2), (0, 0), (0, 0), (1, -1)],
        Direction::Right => [(0, 0), (-1, -1), (0, 0), (0, 0)],
    };
    assert(offsets(table@) =~= turn_deltas(ShapeType::TForm, s.direction));
    displace(&s, &table, turned_facing(s.direction))
}

/// The L at its entry position.
pub fn l_form(direction: Direction) -> (s: Shape)
    ensures
        s@ == Piece::spawn(ShapeType::LForm, direction),
{
    let x: usize = 4;
    let y: usize = 0;
    let body = match direction {
        Direction::Top => [
            Position::new(x, y),
            Position::new(x, y + 1),
            Position::new(x, y + 2),
            Position::new(x + 1, y + 2),
        ],
        Direction::Bottom => [
            Position::new(x, y + 2),
            Position::new(x, y + 1),
            Position::new(x, y),
            Position::new(x - 1, y),
        ],
        Direction::Left => [
            Position::new(x - 2, y + 1),
            Position::new(x - 1, y + 1),
            Position::new(x, y + 1),
            Position::new(x, y),
        ],
        Direction::Right => [
            Position::new(x + 2, y),
            Position::new(x + 1, y),
            Position::new(x, y),
            Position::new(x, y + 1),
        ],
    };
    let s = Shape { shape_type: ShapeType::LForm, body, direction };
    assert(s@.cells =~= spawn_cells(ShapeType::LForm, direction));
    s
}

/// Turns `s` left by the offsets of the L.
pub fn l_form_turn_left(s: Shape) -> (r: Option<Shape>)
    ensures
        r is Some <==> s@.turned_as(ShapeType::LForm).fits(),
        r matches Some(t) ==> t@ == s@.turned_as(ShapeType::LForm),
{
    let table: [(isize, isize); 4] = match s.direction {
        Direction::Top => [(-1, 1), (0, 0), (1, -1), (0, -2)],
        Direction::Bottom => [(1, -1), (0, 0), (-1, 1), (0, 2)],
        Direction::Left => [(1, 1), (0, 0), (-1, -1), (-2, 0)],
        Direction::Right => [(-1, -1), (0, 0), (1, 1), (2, 0)],
    };
    assert(offsets(table@) =~= turn_deltas(ShapeType::LForm, s.direction));
    displace(&s, &table, turned_facing(s.direction))
}

/// The mirrored L at its entry position.
pub fn l_mirrored(direction: Direction) -> (s: Shape)
    ensures
        s@ == Piece::spawn(ShapeType::LMirrored, direction),
{
    let x: usize = 5;
    let y: usize = 0;
    let body = match direction {
        Direction::Top => [
            Position::new(x, y),
            Position::new(x, y + 1),
            Position::new(x, y + 2),
            Position::new(x - 1, y + 2),
        ],
        Direction::Bottom => [
            Position::new(x, y + 2),
            Position::new(x, y + 1),
            Position::new(x, y),
            Position::new(x + 1, y),
        ],
        Direction::Left => [
            Position::new(x - 2, y),
            Position::new(x - 1, y),
            Position::new(x, y),
            Position::new(x, y + 1),
        ],
        Direction::Right => [
            Position::new(x + 2, y + 1),
            Position::new(x + 1, y + 1),
            Position::new(x, y + 1),
            Position::new(x, y),
        ],
    };
    let s = Shape { shape_type: ShapeType::LMirrored, body, direction };
    assert(s@.cells =~= spawn_cells(ShapeType::LMirrored, direction));
    s
}

/// Turns `s` left by the offsets of the mirrored L.
pub fn l_mirrored_turn_left(s: Shape) -> (r: Option<Shape>)
    ensures
        r is Some <==> s@.turned_as(ShapeType::LMirrored).fits(),
        r matches Some(t) ==> t@ == s@.turned_as(ShapeType::LMirrored),
{
    let table: [(isize, isize); 4] = match s.direction {
        Direction::Top => [(-1, 1), (0, 0), (1, -1), (2, 0)],
        Direction::Bottom => [(1, -1), (0, 0), (-1, 1), (-2, 0)],
        Direction::Left => [(1, 1), (0, 0), (-1, -1), (0, -2)],
        Direction::Right => [(-1, -1), (0, 0), (1, 1), (0, 2)],
    };
    assert(offsets(table@) =~= turn_deltas(ShapeType::LMirrored, s.direction));
    displace(&s, &table, turned_facing(s.direction))
}

/// The S at its entry position: upright when facing Top or Bottom, lying
/// when facing Left or Right.
pub fn s_form(direction: Direction) -> (s: Shape)
    ensures
        s@ == Piece::spawn(ShapeType::SForm, direction),
{
    let x: usize = 4;
    let y: usize = 0;
    let body = match direction {
        Direction::Top | Direction::Bottom => [
            Position::new(x, y),
            Position::new(x, y + 1),
            Position::new(x + 1, y + 1),
            Position::new(x + 1, y + 2),
        ],
        Direction::Left | Direction::Right => [
            Position::new(x - 1, y + 1),
            Position::new(x, y + 1),
            Position::new(x, y),
            Position::new(x + 1, y),
        ],
    };
    let s = Shape { shape_type: ShapeType::SForm, body, direction };
    assert(s@.cells =~= spawn_cells(ShapeType::SForm, direction));
    s
}

/// Turns `s` left by the offsets of the S.
pub fn s_form_turn_left(s: Shape) -> (r: Option<Shape>)
    ensures
        r is Some <==> s@.turned_as(ShapeType::SForm).fits(),
        r matches Some(t) ==> t@ == s@.turned_as(ShapeType::SForm),
{
    let table: [(isize, isize); 4] = match s.direction {
        Direction::Top | Direction::Bottom => [(0, 1), (1, 0), (0, -1), (1, -2)],
        Direction::Left | Direction::Right => [(0, -1), (-1, 0), (0, 1), (-1, 2)],
    };
    assert(offsets(table@) =~= turn_deltas(ShapeType::SForm, s.direction));
    displace(&s, &table, turned_facing(s.direction))
}

/// The mirrored S at its entry position: upright when facing Top or Bottom,
/// lying when facing Left or Right.
pub fn s_mirrored(direction: Direction) -> (s: Shape)
    ensures
        s@ == Piece::spawn(ShapeType::SMirrored, direction),
{
    let x: usize = 5;
    let y: usize = 0;
    let body = match direction {
        Direction::Top | Direction::Bottom => [
            Position::new(x, y),
            Position::new(x, y + 1),
            Position::new(x - 1, y + 1),
            Position::new(x - 1, y + 2),
        ],
        Direction::Left | Direction::Right => [
            Position::new(x - 1, y),
            Position::new(x, y),
            Position::new(x, y + 1),
            Position::new(x + 1, y + 1),
        ],
    };
    let s = Shape { shape_type: ShapeType::SMirrored, body, direction };
    assert(s@.cells =~= spawn_cells(ShapeType::SMirrored, direction));
    s
}

/// Turns `s` left by the offsets of the mirrored S.
pub fn s_mirrored_turn_left(s: Shape) -> (r: Option<Shape>)
    ensures
        r is Some <==> s@.turned_as(ShapeType::SMirrored).fits(),
        r matches Some(t) ==> t@ == s@.turned_as(ShapeType::SMirrored),
{
    let table: [(isize, isize); 4] = match s.direction {
        Direction::Top | Direction::Bottom => [(-1, 0), (0, -1), (1, 0), (2, -1)],
        Direction::Left | Direction::Right => [(1, 0), (0, 1), (-1, 0), (-2, 1)],
    };
    assert(offsets(table@) =~= turn_deltas(ShapeType::SMirrored, s.direction));
    displace(&s, &table, turned_facing(s.direction))
}

} // verus!
