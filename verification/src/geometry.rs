//! Facts about piece geometry: what a view determines, which layouts are
//! rigid, and how moves and turns compose.

use crate::shapes::{spawn_cells, Direction, Piece, Shape, ShapeType};
use vstd::prelude::*;

verus! {

/// A piece is determined by its view: two pieces that cover the same cells in
/// the same order, with the same family and facing, are the same piece.
pub proof fn lemma_view_determines_shape(a: Shape, b: Shape)
    requires
        a@ == b@,
    ensures
        a == b,
{
    assert forall|i: int| 0 <= i < 4 implies a.body[i] == b.body[i] by {
        assert(a@.cells[i] == b@.cells[i]);
    }
    assert(a.body =~= b.body);
}

/// The view of every piece has four cells that machine coordinates hold.
pub proof fn lemma_view_fits(s: Shape)
    ensures
        s@.fits(),
{
}

/// Every fresh piece is a rigid layout of four distinct cells.
pub proof fn lemma_spawn_is_rigid(family: ShapeType, facing: Direction)
    ensures
        Piece::spawn(family, facing).cells.len() == 4,
        Piece::spawn(family, facing).is_rigid(),
        Piece::spawn(family, facing).cells_distinct(),
        Piece::spawn(family, facing).fits(),
{
}

/// The cells of a rigid piece are pairwise distinct.
pub proof fn lemma_rigid_cells_distinct(p: Piece)
    requires
        p.is_rigid(),
    ensures
        p.cells_distinct(),
{
    let layout = spawn_cells(p.family, p.facing);
    assert forall|i: int, j: int| 0 <= i < j < p.cells.len() implies p.cells[i] != p.cells[j] by {
        assert(layout[i] != layout[j]);
    }
}

/// Moving a rigid piece as a whole keeps it rigid.
pub proof fn lemma_translated_stays_rigid(p: Piece, dx: int, dy: int)
    requires
        p.is_rigid(),
    ensures
        p.translated(dx, dy).is_rigid(),
{
}

/// Turning a rigid piece left gives the rigid layout of the next facing: the
/// per-family offsets turn the piece in place and never bend it.
pub proof fn lemma_turned_stays_rigid(p: Piece)
    requires
        p.is_rigid(),
    ensures
        p.turned().is_rigid(),
{
}

/// A turn happens in place: the turned piece still covers a cell that the
/// piece covered before.
pub proof fn lemma_turn_in_place(p: Piece)
    requires
        p.is_rigid(),
    ensures
        exists|i: int, j: int|
            0 <= i < 4 && 0 <= j < 4 && #[trigger] p.turned().cells[i] == #[trigger] p.cells[j],
{
    let t = p.turned();
    let i: int = if t.cells[0] == p.cells[0] || t.cells[0] == p.cells[1] || t.cells[0]
        == p.cells[2] || t.cells[0] == p.cells[3] {
        0
    } else if t.cells[1] == p.cells[0] || t.cells[1] == p.cells[1] || t.cells[1] == p.cells[2]
        || t.cells[1] == p.cells[3] {
        1
    } else {
        2
    };
    let j: int = if t.cells[i] == p.cells[0] {
        0
    } else if t.cells[i] == p.cells[1] {
        1
    } else if t.cells[i] == p.cells[2] {
        2
    } else {
        3
    };
    assert(t.cells[i] == p.cells[j]);
}

/// Two moves in a row are one move by the sum of their amounts.
pub proof fn lemma_translations_add(p: Piece, ax: int, ay: int, bx: int, by: int)
    ensures
        p.translated(ax, ay).translated(bx, by) == p.translated(ax + bx, ay + by),
{
    assert(p.translated(ax, ay).translated(bx, by).cells =~= p.translated(ax + bx, ay + by).cells);
}

/// A turn does not depend on where the piece stands: moving and then
/// turning gives the same piece as turning and then moving.
pub proof fn lemma_turn_commutes_with_translation(p: Piece, dx: int, dy: int)
    requires
        p.cells.len() == 4,
    ensures
        p.translated(dx, dy).turned() == p.turned().translated(dx, dy),
{
    assert(p.translated(dx, dy).turned().cells =~= p.turned().translated(dx, dy).cells);
}

/// A move is undone by the opposite move.
pub proof fn lemma_translation_undone(p: Piece, dx: int, dy: int)
    ensures
        p.translated(dx, dy).translated(-dx, -dy) == p,
{
    assert(p.translated(dx, dy).translated(-dx, -dy).cells =~= p.cells);
}

/// One row down and one row up again restores the piece, and the way back
/// never fails.
pub proof fn lemma_down_then_up(s: Shape)
    ensures
        s@.translated(0, 1).translated(0, -1) == s@,
        s@.translated(0, 1).translated(0, -1).fits(),
{
    lemma_translation_undone(s@, 0, 1);
}

/// A piece with no cell in row 0 can move one row up, and one row down from
/// there restores it.
pub proof fn lemma_up_then_down(s: Shape)
    requires
        forall|i: int| 0 <= i < 4 ==> (#[trigger] s.body[i]).y > 0,
    ensures
        s@.translated(0, -1).fits(),
        s@.translated(0, -1).translated(0, 1) == s@,
{
    lemma_translation_undone(s@, 0, -1);
    assert forall|i: int| 0 <= i < 4 implies (#[trigger] s@.translated(0, -1).cells[i]).1 >= 0 by {
        assert(s.body[i].y > 0);
    }
}

/// Four turns to the left restore the cells and the facing of any piece. The
/// square is restored by every single turn.
pub proof fn lemma_four_turns_restore(s: Shape)
    ensures
        s@.turned().turned().turned().turned() == s@,
        s.shape_type is Quadrat ==> s@.turned() == s@,
{
    assert(s@.turned().turned().turned().turned().cells =~= s@.cells);
    if s.shape_type is Quadrat {
        assert(s@.turned().cells =~= s@.cells);
    }
}

} // verus!
