//! The piece selector: which piece follows when one has locked.
//!
//! A draw is a number below 28. The numbers run through the seven families
//! four times, once per facing, so that every combination of family and
//! facing has exactly one number.

use crate::shapes::{Direction, Piece, Shape, ShapeType};
use rand::Rng;
use vstd::prelude::*;

verus! {

/// The number of combinations of family and facing.
pub const COMBINATIONS: u32 = 28;

/// The family of the draws `k`, `k + 7`, `k + 14` and `k + 21`.
pub open spec fn drawn_family(k: int) -> ShapeType {
    if k == 0 {
        ShapeType::SForm
    } else if k == 1 {
        ShapeType::Quadrat
    } else if k == 2 {
        ShapeType::LForm
    } else if k == 3 {
        ShapeType::Line
    } else if k == 4 {
        ShapeType::TForm
    } else if k == 5 {
        ShapeType::SMirrored
    } else {
        ShapeType::LMirrored
    }
}

/// The facing of the draws from `7 * k` to `7 * k + 6`.
pub open spec fn drawn_facing(k: int) -> Direction {
    if k == 0 {
        Direction::Top
    } else if k == 1 {
        Direction::Left
    } else if k == 2 {
        Direction::Bottom
    } else {
        Direction::Right
    }
}

/// The fresh piece that belongs to the draw `nr`. A number beyond the last
/// draw stands for the last draw.
pub open spec fn drawn(nr: int) -> Piece {
    if 0 <= nr < COMBINATIONS {
        Piece::spawn(drawn_family(nr % 7), drawn_facing(nr / 7))
    } else {
        Piece::spawn(ShapeType::LMirrored, Direction::Right)
    }
}

/// Asks the generator of the current thread, `rand::thread_rng()`, for a
/// number with `rand::Rng::gen_range` over the inclusive range from `low` to
/// `high`.
///
/// Taken on trust from `rand`: the range is not empty, which is all that
/// `gen_range` asks of its argument, and the number it returns lies in the
/// range. Nothing is said about which number it is, so two calls may give
/// different numbers; that every number of the range is equally likely is
/// `rand`'s promise and no part of this contract. The generator gives up
/// only when the operating system has no entropy to seed it with.
#[verifier::external_body]
fn draw(low: u32, high: u32) -> (nr: u32)
    requires
        low <= high,
    ensures
        low <= nr <= high,
{
    rand::thread_rng().gen_range(low..=high)
}

/// The fresh piece for the draw `nr`.
pub fn shape_for(nr: u32) -> (s: Shape)
    ensures
        s@ == drawn(nr as int),
{
    match nr {
        0 => Shape::new(ShapeType::SForm, Direction::Top),
        1 => Shape::new(ShapeType::Quadrat, Direction::Top),
        2 => Shape::new(ShapeType::LForm, Direction::Top),
        3 => Shape::new(ShapeType::Line, Direction::Top),
        4 => Shape::new(ShapeType::TForm, Direction::Top),
        5 => Shape::new(ShapeType::SMirrored, Direction::Top),
        6 => Shape::new(ShapeType::LMirrored, Direction::Top),
        7 => Shape::new(ShapeType::SForm, Direction::Left),
        8 => Shape::new(ShapeType::Quadrat, Direction::Left),
        9 => Shape::new(ShapeType::LForm, Direction::Left),
        10 => Shape::new(ShapeType::Line, Direction::Left),
        11 => Shape::new(ShapeType::TForm, Direction::Left),
        12 => Shape::new(ShapeType::SMirrored, Direction::Left),
        13 => Shape::new(ShapeType::LMirrored, Direction::Left),
        14 => Shape::new(ShapeType::SForm, Direction::Bottom),
        15 => Shape::new(ShapeType::Quadrat, Direction::Bottom),
        16 => Shape::new(ShapeType::LForm, Direction::Bottom),
        17 => Shape::new(ShapeType::Line, Direction::Bottom),
        18 => Shape::new(ShapeType::TForm, Direction::Bottom),
        19 => Shape::new(ShapeType::SMirrored, Direction::Bottom),
        20 => Shape::new(ShapeType::LMirrored, Direction::Bottom),
        21 => Shape::new(ShapeType::SForm, Direction::Right),
        22 => Shape::new(ShapeType::Quadrat, Direction::Right),
        23 => Shape::new(ShapeType::LForm, Direction::Right),
        24 => Shape::new(ShapeType::Line, Direction::Right),
        25 => Shape::new(ShapeType::TForm, Direction::Right),
        26 => Shape::new(ShapeType::SMirrored, Direction::Right),
        _ => Shape::new(ShapeType::LMirrored, Direction::Right),
    }
}

/// A fresh piece picked by a random draw over all 28 combinations of family
/// and facing.
pub fn random_shape() -> (s: Shape)
    ensures
        exists|nr: int| 0 <= nr < COMBINATIONS && s@ == #[trigger] drawn(nr),
{
    let nr = draw(0, COMBINATIONS - 1);
    shape_for(nr)
}

/// Every combination of family and facing has a draw.
pub proof fn lemma_draws_cover_all(family: ShapeType, facing: Direction)
    ensures
        exists|nr: int|
            0 <= nr < COMBINATIONS && drawn_family(nr % 7) == family && drawn_facing(nr / 7)
                == facing && #[trigger] drawn(nr) == Piece::spawn(family, facing),
{
    let k: int = match family {
        ShapeType::SForm => 0,
        ShapeType::Quadrat => 1,
        ShapeType::LForm => 2,
        ShapeType::Line => 3,
        ShapeType::TForm => 4,
        ShapeType::SMirrored => 5,
        ShapeType::LMirrored => 6,
    };
    let f: int = match facing {
        Direction::Top => 0,
        Direction::Left => 1,
        Direction::Bottom => 2,
        Direction::Right => 3,
    };
    let nr = 7 * f + k;
    assert(nr % 7 == k && nr / 7 == f);
    assert(drawn(nr) == Piece::spawn(family, facing));
}

/// Two different draws differ in family or in facing: each combination has
/// one draw only, so a fair draw favours no combination.
pub proof fn lemma_draws_differ(a: int, b: int)
    requires
        0 <= a < COMBINATIONS,
        0 <= b < COMBINATIONS,
        a != b,
    ensures
        drawn_family(a % 7) != drawn_family(b % 7) || drawn_facing(a / 7) != drawn_facing(b / 7),
{
}

} // verus!
