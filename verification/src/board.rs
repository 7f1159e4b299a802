//! The playing field: which cells are taken, where a piece may stand, how a
//! piece is written into the field, and how completed rows are removed.
//!
//! Contracts speak of the field as a grid, a sequence of rows that are
//! sequences of cell values, and of pieces by their cells.

use crate::shapes::{body_cells, Direction, Piece, Shape, ShapeBody, ShapeType};
use vstd::arithmetic::power2::{lemma_pow2_strictly_increases, lemma_pow2_unfold, lemma2_to64, pow2};
use vstd::prelude::*;

verus! {

/// Columns of the field.
pub const BOARD_WIDTH: usize = 10;

/// Rows of the field, the hidden entry rows included.
pub const BOARD_HEIGHT: usize = 22;

/// The topmost rows, where pieces enter. They are never shown, but a piece
/// that cannot stand there ends the game.
pub const HIDDEN_ROWS: usize = 2;

/// What the first row cleared in one pass is worth; each further row of the
/// same pass is worth twice the one before.
pub const LINE_REWARD: u32 = 10;

/// What the pass that clears every row of the field at once is worth.
pub const MAX_PASS_REWARD: u32 = 41_943_030;

/// One row of the field. A cell holds 0 when it is empty, else the number of
/// the family whose piece was locked there.
pub type Row = [u8; BOARD_WIDTH];

/// The field, top row first.
pub type Board = [Row; BOARD_HEIGHT];

/// The field as a sequence of rows of cell values.
pub open spec fn grid(board: Board) -> Seq<Seq<u8>> {
    Seq::new(BOARD_HEIGHT as nat, |y: int| board[y]@)
}

/// A grid of the field's size.
pub open spec fn is_grid(g: Seq<Seq<u8>>) -> bool {
    &&& g.len() == BOARD_HEIGHT
    &&& forall|y: int| 0 <= y < g.len() ==> (#[trigger] g[y]).len() == BOARD_WIDTH
}

/// The cell lies inside the field.
pub open spec fn in_field(cell: (int, int)) -> bool {
    0 <= cell.0 < BOARD_WIDTH && 0 <= cell.1 < BOARD_HEIGHT
}

/// All cells lie inside the field.
pub open spec fn all_in_field(cells: Seq<(int, int)>) -> bool {
    forall|i: int| 0 <= i < cells.len() ==> in_field(#[trigger] cells[i])
}

/// The cell lies inside the field and is empty.
pub open spec fn is_free(g: Seq<Seq<u8>>, cell: (int, int)) -> bool {
    in_field(cell) && g[cell.1][cell.0] == 0
}

/// A piece covering `cells` may stand in the field: every cell is inside and
/// empty.
pub open spec fn placeable(g: Seq<Seq<u8>>, cells: Seq<(int, int)>) -> bool {
    forall|i: int| 0 <= i < cells.len() ==> is_free(g, #[trigger] cells[i])
}

/// The number that marks the cells of a locked piece of `family`.
pub open spec fn family_id(family: ShapeType) -> u8 {
    match family {
        ShapeType::TForm => 1,
        ShapeType::LForm => 2,
        ShapeType::LMirrored => 3,
        ShapeType::Line => 4,
        ShapeType::SForm => 5,
        ShapeType::SMirrored => 6,
        ShapeType::Quadrat => 7,
    }
}

/// The grid with `value` written into each of `cells` and every other cell
/// as it was.
pub open spec fn stamped(g: Seq<Seq<u8>>, cells: Seq<(int, int)>, value: u8) -> Seq<Seq<u8>> {
    Seq::new(
        g.len(),
        |y: int|
            Seq::new(
                g[y].len(),
                |x: int|
                    if cells.contains((x, y)) {
                        value
                    } else {
                        g[y][x]
                    },
            ),
    )
}

/// A row is complete when none of its cells is empty.
pub open spec fn row_complete(row: Seq<u8>) -> bool {
    forall|x: int| 0 <= x < row.len() ==> #[trigger] row[x] != 0
}

/// The test that picks the rows which survive a clearing pass.
pub open spec fn survives() -> spec_fn(Seq<u8>) -> bool {
    |row: Seq<u8>| !row_complete(row)
}

/// How many rows of the grid are complete.
pub open spec fn completed_rows(g: Seq<Seq<u8>>) -> nat {
    (g.len() - g.filter(survives()).len()) as nat
}

/// A row of the field with every cell empty.
pub open spec fn empty_row() -> Seq<u8> {
    Seq::new(BOARD_WIDTH as nat, |x: int| 0u8)
}

/// The grid of the field with every cell empty.
pub open spec fn empty_grid() -> Seq<Seq<u8>> {
    Seq::new(BOARD_HEIGHT as nat, |y: int| empty_row())
}

/// The grid after a clearing pass: the rows that are not complete keep their
/// order and sink to the bottom, and as many empty rows as were removed
/// enter at the top.
pub open spec fn compacted(g: Seq<Seq<u8>>) -> Seq<Seq<u8>> {
    Seq::new(completed_rows(g), |y: int| empty_row()) + g.filter(survives())
}

/// What a pass that clears `lines` rows is worth: 10 for the first row, 20
/// for the second, 40 for the third, and so on, added up.
pub open spec fn reward(lines: nat) -> nat {
    (LINE_REWARD * (pow2(lines) - 1)) as nat
}

/// The piece may stand in each of the `rows` rows below it in turn.
pub open spec fn can_fall(g: Seq<Seq<u8>>, p: Piece, rows: int) -> bool {
    forall|j: int| 1 <= j <= rows ==> placeable(g, #[trigger] p.translated(0, j).cells)
}

/// `rows` is how far the piece falls when it is let go for at most `limit`
/// rows: it may stand after each row on the way, and it has used up the
/// limit or may not stand one row further. The fall ends at the first row
/// that is barred, whatever lies beyond it.
pub open spec fn is_fall(g: Seq<Seq<u8>>, p: Piece, limit: int, rows: int) -> bool {
    &&& 0 <= rows <= limit
    &&& can_fall(g, p, rows)
    &&& rows < limit ==> !placeable(g, p.translated(0, rows + 1).cells)
}

/// How far the piece falls within `limit` rows, counted one row at a time.
pub open spec fn fall_distance(g: Seq<Seq<u8>>, p: Piece, limit: nat) -> nat
    decreases limit,
{
    if limit > 0 && placeable(g, p.translated(0, 1).cells) {
        1 + fall_distance(g, p.translated(0, 1), (limit - 1) as nat)
    } else {
        0
    }
}

/// The number of rows a drop may cover: the given number, or the height of
/// the field when none is given.
pub open spec fn fall_limit(steps: Option<usize>) -> nat {
    match steps {
        Some(n) => n as nat,
        None => BOARD_HEIGHT as nat,
    }
}

/// Whether a piece covering `shape_pos` may stand in the field: every cell
/// must lie inside the field and be empty.
pub fn validate(board: &Board, shape_pos: &ShapeBody) -> (ok: bool)
    ensures
        ok == placeable(grid(*board), body_cells(*shape_pos)),
        !all_in_field(body_cells(*shape_pos)) ==> !ok,
{
    let ghost cells = body_cells(*shape_pos);
    let mut i: usize = 0;
    while i < 4
        invariant
            0 <= i <= 4,
            cells == body_cells(*shape_pos),
            forall|j: int| 0 <= j < i ==> is_free(grid(*board), #[trigger] cells[j]),
        decreases 4 - i,
    {
        let p = shape_pos[i];
        if p.x >= BOARD_WIDTH || p.y >= BOARD_HEIGHT || board[p.y][p.x] != 0 {
            assert(!is_free(grid(*board), cells[i as int]));
            return false;
        }
        i += 1;
    }
    true
}

/// Writes the piece into the field when `occupied` is set, and wipes its
/// cells when it is not. Cells are written whatever they held before.
pub fn change(board: &mut Board, shape: &Shape, occupied: bool)
    requires
        all_in_field(shape@.cells),
    ensures
        grid(*final(board)) == stamped(
            grid(*old(board)),
            shape@.cells,
            if occupied {
                family_id(shape.shape_type)
            } else {
                0
            },
        ),
{
    let value: u8 = if occupied {
        match shape.shape_type {
            ShapeType::TForm => 1,
            ShapeType::LForm => 2,
            ShapeType::LMirrored => 3,
            ShapeType::Line => 4,
            ShapeType::SForm => 5,
            ShapeType::SMirrored => 6,
            ShapeType::Quadrat => 7,
        }
    } else {
        0
    };
    let ghost before = grid(*board);
    let ghost cells = shape@.cells;
    let mut i: usize = 0;
    assert(grid(*board) =~~= stamped(before, cells.take(0), value)) by {
        assert(cells.take(0).len() == 0);
    }
    while i < 4
        invariant
            0 <= i <= 4,
            cells == shape@.cells,
            all_in_field(cells),
            is_grid(before),
            grid(*board) == stamped(before, cells.take(i as int), value),
        decreases 4 - i,
    {
        let p = shape.body[i];
        assert(in_field(cells[i as int]));
        let ghost done = cells.take(i as int);
        let ghost next = cells.take(i + 1);
        let ghost prior = grid(*board);
        board[p.y][p.x] = value;
        assert(grid(*board) =~~= stamped(before, next, value)) by {
            assert(next =~= done.push(cells[i as int]));
            assert forall|c: (int, int)| next.contains(c) <==> (done.contains(c) || c
                == cells[i as int]) by {
                if done.contains(c) {
                    let k = choose|k: int| 0 <= k < done.len() && done[k] == c;
                    assert(next[k] == c);
                }
                if c == cells[i as int] {
                    assert(next[i as int] == c);
                }
            }
            assert forall|y: int, x: int|
                0 <= y < BOARD_HEIGHT && 0 <= x < BOARD_WIDTH implies #[trigger] grid(
                *board,
            )[y][x] == stamped(before, next, value)[y][x] by {
                assert(prior[y][x] == stamped(before, done, value)[y][x]);
                if (x, y) == cells[i as int] {
                } else {
                    assert(grid(*board)[y][x] == prior[y][x]);
                }
            }
        }
        i += 1;
    }
    assert(cells.take(4) =~= cells);
}

/// Whether no cell of the row is empty.
fn is_complete(row: &Row) -> (full: bool)
    ensures
        full == row_complete(row@),
{
    let mut x: usize = 0;
    while x < BOARD_WIDTH
        invariant
            0 <= x <= BOARD_WIDTH,
            forall|k: int| 0 <= k < x ==> #[trigger] row@[k] != 0,
        decreases BOARD_WIDTH - x,
    {
        if row[x] == 0 {
            return false;
        }
        x += 1;
    }
    true
}

/// Removes every complete row in one pass from top to bottom. Each complete
/// row is taken out at once: the rows above it sink by one row and an empty
/// row enters at the top, while the rows below it stay as they are. Returns
/// what the pass is worth, 0 if no row was complete.
pub fn remove_completed_lines(board: &mut Board) -> (score: u32)
    ensures
        grid(*final(board)) == compacted(grid(*old(board))),
        score == reward(completed_rows(grid(*old(board)))),
{
    let ghost start = grid(*board);
    let ghost mut kept: Seq<Seq<u8>> = Seq::empty();
    let ghost mut cleared: int = 0;
    let mut score: u32 = 0;
    let mut add: u32 = LINE_REWARD;
    let mut y: usize = 0;
    proof {
        lemma2_to64();
        assert(start.take(0) =~= Seq::<Seq<u8>>::empty());
        reveal_with_fuel(Seq::filter, 1);
    }
    while y < BOARD_HEIGHT
        invariant
            0 <= y <= BOARD_HEIGHT,
            start == grid(*old(board)),
            kept == start.take(y as int).filter(survives()),
            cleared == y - kept.len(),
            0 <= cleared <= y,
            score == LINE_REWARD * (pow2(cleared as nat) - 1),
            add == LINE_REWARD * pow2(cleared as nat),
            forall|r: int| 0 <= r < cleared ==> #[trigger] grid(*board)[r] == empty_row(),
            forall|r: int| cleared <= r < y ==> #[trigger] grid(*board)[r] == kept[r - cleared],
            forall|r: int| y <= r < BOARD_HEIGHT ==> #[trigger] grid(*board)[r] == start[r],
        decreases BOARD_HEIGHT - y,
    {
        let ghost now = grid(*board);
        proof {
            assert(start.take(y + 1) =~= start.take(y as int).push(start[y as int]));
            start.take(y as int).lemma_filter_push(start[y as int], survives());
            assert(now[y as int] == start[y as int]);
        }
        if is_complete(&board[y]) {
            let mut prev: usize = y;
            while prev > 0
                invariant
                    0 <= prev <= y < BOARD_HEIGHT,
                    now.len() == BOARD_HEIGHT,
                    forall|r: int| prev < r <= y ==> #[trigger] grid(*board)[r] == now[r - 1],
                    forall|r: int|
                        (0 <= r <= prev || y < r < BOARD_HEIGHT) ==> #[trigger] grid(*board)[r]
                            == now[r],
                decreases prev,
            {
                let ghost mid = grid(*board);
                board[prev] = board[prev - 1];
                proof {
                    assert forall|r: int| 0 <= r < BOARD_HEIGHT && r != prev implies #[trigger] grid(
                        *board,
                    )[r] == mid[r] by {}
                    assert(grid(*board)[prev as int] == mid[prev - 1]);
                }
                prev -= 1;
            }
            let ghost mid = grid(*board);
            board[0] = [0; BOARD_WIDTH];
            proof {
                assert forall|r: int| 1 <= r < BOARD_HEIGHT implies #[trigger] grid(*board)[r]
                    == mid[r] by {}
                assert(grid(*board)[0] =~= empty_row());
                lemma2_to64();
                lemma_pow2_unfold((cleared + 1) as nat);
                if cleared + 1 < 22 {
                    lemma_pow2_strictly_increases((cleared + 1) as nat, 22);
                }
                assert(pow2((cleared + 1) as nat) <= 0x400000);
            }
            score += add;
            add *= 2;
            proof {
                cleared = cleared + 1;
                assert forall|r: int| cleared <= r < y + 1 implies #[trigger] grid(*board)[r]
                    == kept[r - cleared] by {
                    assert(grid(*board)[r] == now[r - 1]);
                }
                assert forall|r: int| 0 <= r < cleared implies #[trigger] grid(*board)[r]
                    == empty_row() by {
                    if r > 0 {
                        assert(grid(*board)[r] == now[r - 1]);
                    }
                }
            }
        } else {
            proof {
                kept = kept.push(start[y as int]);
            }
        }
        y += 1;
    }
    proof {
        assert(start.take(BOARD_HEIGHT as int) =~= start);
        assert(grid(*board) =~= compacted(start));
    }
    score
}

/// Lets the piece fall by at most `steps` rows, or by the height of the
/// field when `steps` is `None`. The piece goes down one row at a time and
/// stops in front of the first row where it may not stand; the result is the
/// piece where it came to rest, which is the piece itself when it cannot
/// move at all.
pub fn move_shape_down(shape: Shape, board: &Board, steps: Option<usize>) -> (r: Option<Shape>)
    ensures
        r matches Some(t) && {
            let rows = t@.cells[0].1 - shape@.cells[0].1;
            &&& t@ == shape@.translated(0, rows)
            &&& is_fall(grid(*board), shape@, fall_limit(steps) as int, rows)
            &&& rows == fall_distance(grid(*board), shape@, fall_limit(steps))
        },
{
    let mut steps: usize = match steps {
        Some(n) => n,
        None => BOARD_HEIGHT,
    };
    let ghost limit = steps as int;
    let ghost g = grid(*board);
    let ghost mut rows: int = 0;
    let mut current = shape;
    proof {
        assert(shape@.translated(0, 0).cells =~= shape@.cells);
    }
    while steps > 0
        invariant_except_break
            rows + steps == limit,
        invariant
            g == grid(*board),
            0 <= rows <= limit,
            current@ == shape@.translated(0, rows),
            can_fall(g, shape@, rows),
        ensures
            is_fall(g, shape@, limit, rows),
        decreases steps,
    {
        steps -= 1;
        let ghost below = shape@.translated(0, rows + 1);
        proof {
            assert(current@.translated(0, 1).cells =~= below.cells);
        }
        match current.down() {
            Some(next) => {
                if validate(board, &next.body) {
                    current = next;
                    proof {
                        rows = rows + 1;
                    }
                } else {
                    break ;
                }
            },
            None => {
                proof {
                    if placeable(g, below.cells) {
                        lemma_placeable_fits(g, below);
                    }
                }
                break ;
            },
        }
    }
    proof {
        lemma_fall_distance(g, shape@, limit as nat, rows);
    }
    Some(current)
}

/// A piece of four cells that may stand in the field has coordinates that a
/// machine coordinate holds.
pub proof fn lemma_placeable_fits(g: Seq<Seq<u8>>, p: Piece)
    requires
        p.cells.len() == 4,
        placeable(g, p.cells),
    ensures
        all_in_field(p.cells),
        p.fits(),
{
    assert forall|i: int| 0 <= i < 4 implies in_field(#[trigger] p.cells[i]) by {
        assert(is_free(g, p.cells[i]));
    }
}

/// The fall distance is the one number of rows that makes a fall: the piece
/// may stand after every row on the way and is barred from the next one,
/// unless the limit is used up.
pub proof fn lemma_fall_distance(g: Seq<Seq<u8>>, p: Piece, limit: nat, rows: int)
    ensures
        is_fall(g, p, limit as int, fall_distance(g, p, limit) as int),
        is_fall(g, p, limit as int, rows) ==> rows == fall_distance(g, p, limit),
    decreases limit,
{
    let below = p.translated(0, 1);
    if limit > 0 && placeable(g, below.cells) {
        let rest = fall_distance(g, below, (limit - 1) as nat) as int;
        lemma_fall_distance(g, below, (limit - 1) as nat, rows - 1);
        assert forall|j: int| 0 <= j implies #[trigger] below.translated(0, j).cells
            == p.translated(0, j + 1).cells by {
            assert(below.translated(0, j).cells =~= p.translated(0, j + 1).cells);
        }
        assert(can_fall(g, p, rest + 1)) by {
            assert forall|j: int| 1 <= j <= rest + 1 implies placeable(
                g,
                #[trigger] p.translated(0, j).cells,
            ) by {
                if j > 1 {
                    assert(placeable(g, below.translated(0, j - 1).cells));
                }
            }
        }
        assert(below.translated(0, rest + 1).cells == p.translated(0, rest + 2).cells);
        if is_fall(g, p, limit as int, rows) {
            if rows == 0 {
                assert(false);
            }
            assert(can_fall(g, below, rows - 1)) by {
                assert forall|j: int| 1 <= j <= rows - 1 implies placeable(
                    g,
                    #[trigger] below.translated(0, j).cells,
                ) by {
                    assert(placeable(g, p.translated(0, j + 1).cells));
                }
            }
            assert(below.translated(0, rows - 1 + 1).cells == p.translated(0, rows + 1).cells);
            assert(is_fall(g, below, limit - 1, rows - 1));
        }
    } else {
        if is_fall(g, p, limit as int, rows) && rows > 0 {
            assert(placeable(g, p.translated(0, 1).cells));
        }
    }
}

/// A drop with a smaller limit is the drop with the larger limit cut short:
/// a soft drop follows the path of the hard drop and ends after its limit
/// at the latest.
pub proof fn lemma_fall_distance_capped(g: Seq<Seq<u8>>, p: Piece, small: nat, large: nat)
    requires
        small <= large,
    ensures
        fall_distance(g, p, small) == if fall_distance(g, p, large) < small {
            fall_distance(g, p, large)
        } else {
            small
        },
    decreases small,
{
    if small > 0 && placeable(g, p.translated(0, 1).cells) {
        lemma_fall_distance_capped(
            g,
            p.translated(0, 1),
            (small - 1) as nat,
            (large - 1) as nat,
        );
    }
}

/// A hard drop brings the piece to rest: where it lands, it may not stand
/// one row further down.
pub proof fn lemma_hard_drop_comes_to_rest(g: Seq<Seq<u8>>, s: Shape)
    ensures
        !placeable(
            g,
            s@.translated(0, fall_distance(g, s@, BOARD_HEIGHT as nat) as int + 1).cells,
        ),
{
    let rows = fall_distance(g, s@, BOARD_HEIGHT as nat) as int;
    lemma_fall_distance(g, s@, BOARD_HEIGHT as nat, rows);
    if rows == BOARD_HEIGHT {
        let below = s@.translated(0, rows + 1);
        assert(below.cells[0].1 > BOARD_HEIGHT);
        assert(!is_free(g, below.cells[0]));
    }
}

/// A field is determined by its grid.
pub proof fn lemma_grid_determines_board(a: Board, b: Board)
    requires
        grid(a) == grid(b),
    ensures
        a == b,
{
    assert forall|y: int| 0 <= y < BOARD_HEIGHT implies a[y] == b[y] by {
        assert(grid(a)[y] == grid(b)[y]);
        assert(a[y] =~= b[y]);
    }
    assert(a =~= b);
}

/// A piece with a cell in the bottom row may not stand one row further
/// down, whatever the field holds, so it does not fall at all.
pub proof fn lemma_bottom_row_bars_descent(g: Seq<Seq<u8>>, p: Piece, limit: nat)
    requires
        exists|i: int| 0 <= i < p.cells.len() && (#[trigger] p.cells[i]).1 == BOARD_HEIGHT - 1,
    ensures
        !placeable(g, p.translated(0, 1).cells),
        fall_distance(g, p, limit) == 0,
{
    let i = choose|i: int| 0 <= i < p.cells.len() && (#[trigger] p.cells[i]).1 == BOARD_HEIGHT - 1;
    let below = p.translated(0, 1);
    assert(below.cells[i].1 == BOARD_HEIGHT);
    assert(!is_free(g, below.cells[i]));
}

/// When the entry rows are full, no fresh piece may stand in the field.
pub proof fn lemma_full_entry_rows_bar_spawn(
    g: Seq<Seq<u8>>,
    family: ShapeType,
    facing: Direction,
)
    requires
        is_grid(g),
        forall|y: int| 0 <= y < HIDDEN_ROWS ==> row_complete(#[trigger] g[y]),
    ensures
        !placeable(g, Piece::spawn(family, facing).cells),
{
    let cells = Piece::spawn(family, facing).cells;
    let i: int = if cells[0].1 == 0 {
        0
    } else if cells[1].1 == 0 {
        1
    } else if cells[2].1 == 0 {
        2
    } else {
        3
    };
    assert(cells[i].1 == 0 && in_field(cells[i]));
    assert(row_complete(g[cells[i].1]));
    assert(g[cells[i].1][cells[i].0] != 0);
    assert(!is_free(g, cells[i]));
}

/// Every fresh piece covers four distinct cells inside the field, near the
/// middle of its topmost rows.
pub proof fn lemma_spawn_in_field(family: ShapeType, facing: Direction)
    ensures
        Piece::spawn(family, facing).cells.len() == 4,
        Piece::spawn(family, facing).cells_distinct(),
        all_in_field(Piece::spawn(family, facing).cells),
        forall|i: int|
            0 <= i < 4 ==> 2 <= (#[trigger] Piece::spawn(family, facing).cells[i]).0 <= 7
                && Piece::spawn(family, facing).cells[i].1 <= 3,
{
}

/// A piece that is written into free cells and wiped again leaves the field
/// as it was: showing the falling piece does not change the field.
pub proof fn lemma_stamp_then_wipe(g: Seq<Seq<u8>>, cells: Seq<(int, int)>, value: u8)
    requires
        is_grid(g),
        placeable(g, cells),
    ensures
        stamped(stamped(g, cells, value), cells, 0) == g,
{
    let shown = stamped(g, cells, value);
    let wiped = stamped(shown, cells, 0);
    assert forall|y: int, x: int| 0 <= y < g.len() && 0 <= x < g[y].len() implies wiped[y][x]
        == g[y][x] by {
        if cells.contains((x, y)) {
            let i = choose|i: int| 0 <= i < cells.len() && cells[i] == (x, y);
            assert(is_free(g, cells[i]));
        }
    }
    assert(wiped =~~= g);
}

/// Rewards escalate: a pass that clears one row more is worth more by twice
/// the previous step, starting from 10 for the first row.
pub proof fn lemma_reward_escalates(lines: nat)
    ensures
        reward(0) == 0,
        reward(1) == LINE_REWARD,
        reward(lines + 2) - reward(lines + 1) == 2 * (reward(lines + 1) - reward(lines)),
        reward(lines + 1) - reward(lines) == LINE_REWARD * pow2(lines),
{
    lemma2_to64();
    lemma_pow2_unfold(lines + 1);
    lemma_pow2_unfold(lines + 2);
}

/// No pass over a grid of the field is worth more than the pass that clears
/// every row.
pub proof fn lemma_reward_bounded(g: Seq<Seq<u8>>)
    requires
        g.len() == BOARD_HEIGHT,
    ensures
        completed_rows(g) <= BOARD_HEIGHT,
        reward(completed_rows(g)) <= MAX_PASS_REWARD,
{
    lemma2_to64();
    g.lemma_filter_len(survives());
    if completed_rows(g) < 22 {
        lemma_pow2_strictly_increases(completed_rows(g), 22);
    }
}

/// Which rows survive among the first `n` rows of a grid whose only complete
/// row is row `r`.
proof fn lemma_survivors_around(g: Seq<Seq<u8>>, r: int, n: int)
    requires
        0 <= r < g.len(),
        0 <= n <= g.len(),
        forall|y: int| 0 <= y < g.len() ==> (row_complete(#[trigger] g[y]) <==> y == r),
    ensures
        g.take(n).filter(survives()) == if n <= r {
            g.take(n)
        } else {
            g.take(r) + g.subrange(r + 1, n)
        },
    decreases n,
{
    if n == 0 {
        reveal_with_fuel(Seq::filter, 1);
        assert(g.take(0).filter(survives()) =~= g.take(0));
    } else {
        lemma_survivors_around(g, r, n - 1);
        assert(g.take(n) =~= g.take(n - 1).push(g[n - 1]));
        g.take(n - 1).lemma_filter_push(g[n - 1], survives());
        if n - 1 < r {
        } else if n - 1 == r {
            assert(g.take(r) + g.subrange(r + 1, n) =~= g.take(r));
        } else {
            assert(g.take(r) + g.subrange(r + 1, n) =~= (g.take(r) + g.subrange(
                r + 1,
                n - 1,
            )).push(g[n - 1]));
        }
    }
}

/// When exactly one row of the field is complete, clearing is worth 10, an
/// empty row enters at the top, the rows above the complete row sink by one
/// row, and the rows below it stay where they are.
pub proof fn lemma_single_line_clear(g: Seq<Seq<u8>>, r: int)
    requires
        is_grid(g),
        0 <= r < BOARD_HEIGHT,
        forall|y: int| 0 <= y < BOARD_HEIGHT ==> (row_complete(#[trigger] g[y]) <==> y == r),
    ensures
        completed_rows(g) == 1,
        reward(completed_rows(g)) == LINE_REWARD,
        is_grid(compacted(g)),
        compacted(g)[0] == empty_row(),
        forall|y: int| 1 <= y <= r ==> #[trigger] compacted(g)[y] == g[y - 1],
        forall|y: int| r < y < BOARD_HEIGHT ==> #[trigger] compacted(g)[y] == g[y],
{
    lemma_survivors_around(g, r, g.len() as int);
    assert(g.take(g.len() as int) =~= g);
    lemma2_to64();
}

/// A pass over a grid without a complete row changes nothing and is worth
/// nothing.
pub proof fn lemma_nothing_to_clear(g: Seq<Seq<u8>>)
    requires
        forall|y: int| 0 <= y < g.len() ==> !row_complete(#[trigger] g[y]),
    ensures
        completed_rows(g) == 0,
        compacted(g) == g,
        reward(completed_rows(g)) == 0,
{
    lemma_all_survive(g, g.len() as int);
    assert(g.take(g.len() as int) =~= g);
    lemma2_to64();
    assert(compacted(g) =~= g);
}

/// After a clearing pass the grid has the size of the field again and none
/// of its rows is complete.
pub proof fn lemma_compacted_has_no_complete_row(g: Seq<Seq<u8>>)
    requires
        is_grid(g),
    ensures
        is_grid(compacted(g)),
        forall|y: int| 0 <= y < BOARD_HEIGHT ==> !row_complete(#[trigger] compacted(g)[y]),
        completed_rows(compacted(g)) == 0,
{
    let kept = g.filter(survives());
    let gone = completed_rows(g);
    let c = compacted(g);
    g.lemma_filter_len(survives());
    assert forall|y: int| 0 <= y < c.len() implies (#[trigger] c[y]).len() == BOARD_WIDTH
        && !row_complete(c[y]) by {
        if y < gone {
            assert(c[y] == empty_row());
            assert(empty_row()[0] == 0);
        } else {
            let k = y - gone;
            assert(c[y] == kept[k]);
            g.lemma_filter_pred(survives(), k);
            assert(kept.contains(kept[k]));
            g.lemma_filter_contains_rev(survives(), kept[k]);
            let from = choose|from: int| 0 <= from < g.len() && g[from] == kept[k];
            assert(g[from].len() == BOARD_WIDTH);
        }
    }
    lemma_all_survive(c, c.len() as int);
    assert(c.take(c.len() as int) =~= c);
}

/// Rows that are not complete all survive.
proof fn lemma_all_survive(g: Seq<Seq<u8>>, n: int)
    requires
        0 <= n <= g.len(),
        forall|y: int| 0 <= y < g.len() ==> !row_complete(#[trigger] g[y]),
    ensures
        g.take(n).filter(survives()) == g.take(n),
    decreases n,
{
    if n == 0 {
        reveal_with_fuel(Seq::filter, 1);
        assert(g.take(0).filter(survives()) =~= g.take(0));
    } else {
        lemma_all_survive(g, n - 1);
        assert(g.take(n) =~= g.take(n - 1).push(g[n - 1]));
        g.take(n - 1).lemma_filter_push(g[n - 1], survives());
    }
}

} // verus!
