//! The rules of play as a state machine: a game takes one event at a time,
//! a gravity tick, a speed-up tick or a key, and answers with what the
//! caller has to do next. Timers, the keyboard and the screen belong to the
//! caller.

use crate::board::{
    all_in_field, change, compacted, completed_rows, empty_grid, fall_distance, family_id, grid, in_field, is_grid,
    lemma_bottom_row_bars_descent, lemma_compacted_has_no_complete_row,
    lemma_full_entry_rows_bar_spawn, lemma_nothing_to_clear, lemma_placeable_fits,
    lemma_reward_bounded,
    lemma_spawn_in_field, move_shape_down, placeable, remove_completed_lines, reward,
    row_complete, stamped, validate, Board, BOARD_HEIGHT, BOARD_WIDTH, HIDDEN_ROWS,
    MAX_PASS_REWARD,
};
use crate::selector::{drawn, drawn_facing, drawn_family, random_shape, COMBINATIONS};
use crate::shapes::{Direction, Piece, Shape, ShapeType};
use vstd::prelude::*;

verus! {

/// Milliseconds between two gravity ticks when a game starts.
pub const INITIAL_FALL_INTERVAL: u64 = 1000;

/// The shortest time between two gravity ticks, in milliseconds.
pub const MIN_FALL_INTERVAL: u64 = 100;

/// By how many milliseconds a speed-up tick shortens the fall interval.
pub const SPEED_UP_STEP: u64 = 100;

/// Seconds between two speed-up ticks.
pub const SPEED_UP_SECONDS: u64 = 30;

/// Rows that one soft drop covers at most.
pub const SOFT_DROP_ROWS: usize = 3;

/// A key as the rules see it.
#[derive(Debug, Clone, Copy, PartialEq, Eq, Structural)]
pub enum Key {
    Left,
    Right,
    Up,
    Down,
    Space,
    Esc,
    Other,
}

/// What can happen while a game waits.
#[derive(Debug, Clone, Copy, PartialEq, Eq, Structural)]
pub enum Event {
    /// The gravity timer ran out.
    Gravity,
    /// The speed-up timer ran out.
    SpeedUp,
    /// A key was pressed.
    Key(Key),
}

/// What the caller has to do after an event.
#[derive(Debug, Clone, Copy, PartialEq, Eq)]
pub struct Action {
    /// Restart the gravity timer with this many milliseconds.
    pub gravity_timer: Option<u64>,
    /// Restart the speed-up timer with this many seconds.
    pub speed_up_timer: Option<u64>,
    /// Rows were cleared: show the field once without the falling piece.
    pub redraw: bool,
    /// The game is over; no further event changes it.
    pub finished: bool,
}

/// The state of a game as contracts see it.
pub struct GameView {
    /// The field without the falling piece.
    pub grid: Seq<Seq<u8>>,
    /// The falling piece.
    pub piece: Piece,
    pub score: nat,
    /// Milliseconds between two gravity ticks.
    pub fall_interval: nat,
    pub running: bool,
}

/// A game: the field, the falling piece, the score, the fall interval and
/// whether play goes on. The falling piece is no part of the field until it
/// locks. The state of a game is always sound (see [`GameView::sound`]);
/// every method that reads a game says so.
#[derive(Debug, Clone, Copy)]
pub struct Game {
    board: Board,
    shape: Shape,
    score: u32,
    down_delay: u64,
    running: bool,
}

impl View for Game {
    type V = GameView;

    closed spec fn view(&self) -> GameView {
        GameView {
            grid: grid(self.board),
            piece: self.shape@,
            score: self.score as nat,
            fall_interval: self.down_delay as nat,
            running: self.running,
        }
    }
}

/// Where the key asks a piece in the field to go. A soft drop and a hard
/// drop ask for the place where the piece comes to rest; the keys that move
/// nothing ask for the place where the piece is.
pub open spec fn key_target(g: Seq<Seq<u8>>, piece: Piece, key: Key) -> Piece {
    match key {
        Key::Left => piece.translated(-1, 0),
        Key::Right => piece.translated(1, 0),
        Key::Up => piece.turned(),
        Key::Down => piece.translated(0, fall_distance(g, piece, SOFT_DROP_ROWS as nat) as int),
        Key::Space => piece.translated(0, fall_distance(g, piece, BOARD_HEIGHT as nat) as int),
        Key::Esc | Key::Other => piece,
    }
}

impl GameView {
    /// A state that a game can be in: the falling piece lies inside the
    /// field and the fall interval is within its limits.
    pub open spec fn sound(self) -> bool {
        &&& is_grid(self.grid)
        &&& self.piece.cells.len() == 4
        &&& all_in_field(self.piece.cells)
        &&& MIN_FALL_INTERVAL <= self.fall_interval <= INITIAL_FALL_INTERVAL
    }

    /// Where the key asks the falling piece to go.
    pub open spec fn target(self, key: Key) -> Piece {
        key_target(self.grid, self.piece, key)
    }

    /// The falling piece goes to `candidate` if it may stand there; if not,
    /// nothing changes.
    pub open spec fn moved_to(self, candidate: Piece) -> GameView {
        if placeable(self.grid, candidate.cells) {
            GameView { piece: candidate, ..self }
        } else {
            self
        }
    }

    /// Complete rows are cleared and what they are worth is added to the
    /// score.
    pub open spec fn settled(self) -> GameView {
        GameView {
            grid: compacted(self.grid),
            score: self.score + reward(completed_rows(self.grid)),
            ..self
        }
    }

    /// The falling piece may not stand one row further down.
    pub open spec fn blocked(self) -> bool {
        !placeable(self.grid, self.piece.translated(0, 1).cells)
    }

    /// The falling piece locks and `next` enters. If `next` may stand in the
    /// field, play goes on with it and complete rows are cleared. If not,
    /// the game is over: `next` is written into the field all the same, for
    /// a last picture, and neither rows nor score change any more.
    pub open spec fn locked(self, next: Piece) -> GameView {
        let held = stamped(self.grid, self.piece.cells, family_id(self.piece.family));
        if placeable(held, next.cells) {
            GameView { grid: held, piece: next, ..self }.settled()
        } else {
            GameView {
                grid: stamped(held, next.cells, family_id(next.family)),
                piece: next,
                running: false,
                ..self
            }
        }
    }

    /// A gravity tick: the falling piece goes down by one row, or locks
    /// where it is when it cannot.
    pub open spec fn after_gravity(self, next: Piece) -> GameView {
        if self.blocked() {
            self.locked(next)
        } else {
            GameView { piece: self.piece.translated(0, 1), ..self }.settled()
        }
    }

    /// A speed-up tick: the fall interval shrinks by one step, but not
    /// below its minimum.
    pub open spec fn after_speed_up(self) -> GameView {
        GameView {
            fall_interval: if self.fall_interval >= MIN_FALL_INTERVAL + SPEED_UP_STEP {
                (self.fall_interval - SPEED_UP_STEP) as nat
            } else {
                MIN_FALL_INTERVAL as nat
            },
            ..self
        }.settled()
    }

    /// A key: Esc ends the game at once; every other key moves the falling
    /// piece to its target if it may stand there.
    pub open spec fn after_key(self, key: Key) -> GameView {
        if key is Esc {
            GameView { running: false, ..self }
        } else {
            self.moved_to(self.target(key)).settled()
        }
    }

    /// Whether the event makes the falling piece lock, so that the next
    /// piece is asked for.
    pub open spec fn locks_on(self, event: Event) -> bool {
        self.running && event is Gravity && self.blocked()
    }

    /// The state after `event`, where `next` is the piece that enters if the
    /// falling piece locks. A game that is over stays as it is.
    pub open spec fn after(self, event: Event, next: Piece) -> GameView {
        if !self.running {
            self
        } else {
            match event {
                Event::Gravity => self.after_gravity(next),
                Event::SpeedUp => self.after_speed_up(),
                Event::Key(key) => self.after_key(key),
            }
        }
    }

    /// What the caller is told after `event` took the game from `self` to
    /// `then`: the gravity timer restarts after a gravity tick, with the
    /// interval of that moment; the speed-up timer restarts after a speed-up
    /// tick; the field is shown once more when the score has grown.
    pub open spec fn action(self, event: Event, then: GameView) -> Action {
        Action {
            gravity_timer: if self.running && event is Gravity {
                Some(self.fall_interval as u64)
            } else {
                None
            },
            speed_up_timer: if self.running && event is SpeedUp {
                Some(SPEED_UP_SECONDS)
            } else {
                None
            },
            redraw: then.score > self.score,
            finished: !then.running,
        }
    }

    /// The state in which a game with the first piece `first` starts.
    pub open spec fn fresh(first: Piece) -> GameView {
        GameView {
            grid: empty_grid(),
            piece: first,
            score: 0,
            fall_interval: INITIAL_FALL_INTERVAL as nat,
            running: true,
        }
    }
}

impl Game {
    #[verifier::type_invariant]
    spec fn inv(self) -> bool {
        &&& all_in_field(self.shape@.cells)
        &&& MIN_FALL_INTERVAL <= self.down_delay <= INITIAL_FALL_INTERVAL
    }

    /// A running game made of the given parts, if they make a sound state.
    pub fn from_parts(board: Board, shape: Shape, score: u32, fall_interval: u64) -> (r: Option<
        Game,
    >)
        ensures
            r is Some <==> all_in_field(shape@.cells) && MIN_FALL_INTERVAL <= fall_interval
                <= INITIAL_FALL_INTERVAL,
            r matches Some(game) ==> game@ == (GameView {
                grid: grid(board),
                piece: shape@,
                score: score as nat,
                fall_interval: fall_interval as nat,
                running: true,
            }) && game@.sound(),
    {
        if inside(&shape) && MIN_FALL_INTERVAL <= fall_interval && fall_interval
            <= INITIAL_FALL_INTERVAL {
            Some(Game { board, shape, score, down_delay: fall_interval, running: true })
        } else {
            None
        }
    }

    /// A new game with a randomly drawn first piece: an empty field, no
    /// score, the initial fall interval.
    pub fn start() -> (game: Game)
        ensures
            exists|nr: int|
                0 <= nr < COMBINATIONS && game@ == GameView::fresh(#[trigger] drawn(nr)),
            game@.sound(),
    {
        let shape = random_shape();
        let board: Board = [[0u8; BOARD_WIDTH]; BOARD_HEIGHT];
        proof {
            let nr = choose|nr: int| 0 <= nr < COMBINATIONS && shape@ == #[trigger] drawn(nr);
            lemma_spawn_in_field(drawn_family(nr % 7), drawn_facing(nr / 7));
            assert(grid(board) =~~= GameView::fresh(shape@).grid);
        }
        Game { board, shape, score: 0, down_delay: INITIAL_FALL_INTERVAL, running: true }
    }

    /// Handles one event, with `next` as the piece that enters if the
    /// falling piece locks. The score must have room for what the event
    /// earns.
    pub fn step_with(&mut self, event: Event, next: Shape) -> (action: Action)
        requires
            old(self)@.locks_on(event) ==> all_in_field(next@.cells),
            old(self)@.after(event, next@).score <= u32::MAX,
        ensures
            final(self)@ == old(self)@.after(event, next@),
            action == old(self)@.action(event, final(self)@),
            final(self)@.sound(),
    {
        proof {
            use_type_invariant(&*self);
        }
        let ghost before = self@;
        if !self.running {
            return Action {
                gravity_timer: None,
                speed_up_timer: None,
                redraw: false,
                finished: true,
            };
        }
        let mut board = self.board;
        let mut shape = self.shape;
        let mut down_delay = self.down_delay;
        let mut gravity_timer: Option<u64> = None;
        let mut speed_up_timer: Option<u64> = None;
        match event {
            Event::SpeedUp => {
                down_delay = if down_delay >= MIN_FALL_INTERVAL + SPEED_UP_STEP {
                    down_delay - SPEED_UP_STEP
                } else {
                    MIN_FALL_INTERVAL
                };
                speed_up_timer = Some(SPEED_UP_SECONDS);
            },
            Event::Gravity => {
                gravity_timer = Some(down_delay);
                match descended(&shape, &board) {
                    Some(lower) => {
                        shape = lower;
                    },
                    None => {
                        change(&mut board, &shape, true);
                        shape = next;
                        if !validate(&board, &shape.body) {
                            change(&mut board, &shape, true);
                            *self = Game {
                                board,
                                shape,
                                score: self.score,
                                down_delay,
                                running: false,
                            };
                            return Action {
                                gravity_timer,
                                speed_up_timer,
                                redraw: false,
                                finished: true,
                            };
                        }
                    },
                }
            },
            Event::Key(key) => {
                match key {
                    Key::Esc => {
                        self.running = false;
                        return Action {
                            gravity_timer,
                            speed_up_timer,
                            redraw: false,
                            finished: true,
                        };
                    },
                    _ => {
                        shape = answered(shape, &board, key);
                    },
                }
            },
        }
        let new_score = remove_completed_lines(&mut board);
        let score = self.score + new_score;
        *self = Game { board, shape, score, down_delay, running: true };
        Action { gravity_timer, speed_up_timer, redraw: new_score > 0, finished: false }
    }

    /// Handles one event. If the falling piece locks, the piece that enters
    /// is drawn at random; whichever piece is drawn, the score must have
    /// room for what the event earns.
    pub fn step(&mut self, event: Event) -> (action: Action)
        requires
            forall|nr: int|
                0 <= nr < COMBINATIONS ==> old(self)@.after(event, #[trigger] drawn(nr)).score
                    <= u32::MAX,
        ensures
            exists|nr: int|
                0 <= nr < COMBINATIONS && final(self)@ == old(self)@.after(
                    event,
                    #[trigger] drawn(nr),
                ),
            action == old(self)@.action(event, final(self)@),
            final(self)@.sound(),
    {
        let ghost before = self@;
        let next = if self.locks_on(event) {
            random_shape()
        } else {
            self.shape
        };
        proof {
            if before.locks_on(event) {
                let nr = choose|nr: int| 0 <= nr < COMBINATIONS && next@ == #[trigger] drawn(nr);
                lemma_spawn_in_field(drawn_family(nr % 7), drawn_facing(nr / 7));
            } else {
                lemma_next_piece_unused(before, event, next@, drawn(0));
            }
        }
        self.step_with(event, next)
    }

    /// Whether the event makes the falling piece lock.
    fn locks_on(&self, event: Event) -> (b: bool)
        ensures
            b == self@.locks_on(event),
    {
        match event {
            Event::Gravity => self.running && descended(&self.shape, &self.board).is_none(),
            _ => false,
        }
    }

    /// The field without the falling piece.
    pub fn board(&self) -> (b: &Board)
        ensures
            grid(*b) == self@.grid,
            self@.sound(),
    {
        proof {
            use_type_invariant(self);
        }
        &self.board
    }

    /// The falling piece.
    pub fn shape(&self) -> (s: &Shape)
        ensures
            s@ == self@.piece,
            self@.sound(),
    {
        proof {
            use_type_invariant(self);
        }
        &self.shape
    }

    pub fn score(&self) -> (n: u32)
        ensures
            n == self@.score,
            self@.sound(),
    {
        proof {
            use_type_invariant(self);
        }
        self.score
    }

    /// Milliseconds between two gravity ticks.
    pub fn fall_interval(&self) -> (ms: u64)
        ensures
            ms == self@.fall_interval,
            self@.sound(),
    {
        proof {
            use_type_invariant(self);
        }
        self.down_delay
    }

    /// Whether play goes on.
    pub fn is_running(&self) -> (b: bool)
        ensures
            b == self@.running,
            self@.sound(),
    {
        proof {
            use_type_invariant(self);
        }
        self.running
    }

    /// The speed as it is shown to the player: it grows by 100 whenever the
    /// fall interval shrinks by 100, from 100 at the start to 1000.
    pub fn speed(&self) -> (v: u64)
        ensures
            v == INITIAL_FALL_INTERVAL + SPEED_UP_STEP - self@.fall_interval,
            self@.sound(),
    {
        proof {
            use_type_invariant(self);
        }
        INITIAL_FALL_INTERVAL + SPEED_UP_STEP - self.down_delay
    }

    /// The field as it is shown: the field with the falling piece written
    /// into it. The game itself is not changed.
    pub fn snapshot(&self) -> (shown: Board)
        ensures
            grid(shown) == stamped(self@.grid, self@.piece.cells, family_id(self@.piece.family)),
            self@.sound(),
    {
        proof {
            use_type_invariant(self);
        }
        let mut shown = self.board;
        change(&mut shown, &self.shape, true);
        shown
    }
}

/// The piece one row further down, if it may stand there.
fn descended(shape: &Shape, board: &Board) -> (r: Option<Shape>)
    ensures
        r is Some <==> placeable(grid(*board), shape@.translated(0, 1).cells),
        r matches Some(lower) ==> lower@ == shape@.translated(0, 1),
{
    match shape.down() {
        Some(lower) => {
            if validate(board, &lower.body) {
                Some(lower)
            } else {
                None
            }
        },
        None => {
            proof {
                if placeable(grid(*board), shape@.translated(0, 1).cells) {
                    lemma_placeable_fits(grid(*board), shape@.translated(0, 1));
                }
            }
            None
        },
    }
}

/// The piece after a key other than Esc: at the key's target if it may
/// stand there, else where it was.
fn answered(shape: Shape, board: &Board, key: Key) -> (s: Shape)
    requires
        !(key is Esc),
    ensures
        s@ == if placeable(grid(*board), key_target(grid(*board), shape@, key).cells) {
            key_target(grid(*board), shape@, key)
        } else {
            shape@
        },
{
    let ghost target = key_target(grid(*board), shape@, key);
    let candidate = match key {
        Key::Left => shape.left(),
        Key::Right => shape.right(),
        Key::Up => shape.turn_left(),
        Key::Down => move_shape_down(shape, board, Some(SOFT_DROP_ROWS)),
        Key::Space => move_shape_down(shape, board, None),
        Key::Esc | Key::Other => None,
    };
    match candidate {
        Some(c) => {
            if validate(board, &c.body) {
                c
            } else {
                shape
            }
        },
        None => {
            proof {
                if placeable(grid(*board), target.cells) && !(key is Other) {
                    lemma_placeable_fits(grid(*board), target);
                }
            }
            shape
        },
    }
}

/// Whether every cell of the piece lies inside the field.
fn inside(shape: &Shape) -> (ok: bool)
    ensures
        ok == all_in_field(shape@.cells),
{
    let mut i: usize = 0;
    while i < 4
        invariant
            0 <= i <= 4,
            forall|j: int| 0 <= j < i ==> in_field(#[trigger] shape@.cells[j]),
        decreases 4 - i,
    {
        if shape.body[i].x >= BOARD_WIDTH || shape.body[i].y >= BOARD_HEIGHT {
            assert(!in_field(shape@.cells[i as int]));
            return false;
        }
        i += 1;
    }
    true
}

/// The piece that would enter plays no part unless the falling piece locks.
pub proof fn lemma_next_piece_unused(v: GameView, event: Event, a: Piece, b: Piece)
    requires
        !v.locks_on(event),
    ensures
        v.after(event, a) == v.after(event, b),
{
}

/// Every event takes a sound state to a sound state. The fall interval
/// never grows and the score never shrinks; a game that is over stays as it
/// is and never resumes; and while play goes on, no complete row is left in
/// the field.
pub proof fn lemma_step_keeps_sound(v: GameView, event: Event, next: Piece)
    requires
        v.sound(),
        v.locks_on(event) ==> next.cells.len() == 4 && all_in_field(next.cells),
    ensures
        v.after(event, next).sound(),
        v.after(event, next).fall_interval <= v.fall_interval,
        v.after(event, next).score >= v.score,
        v.after(event, next).running ==> v.running,
        !v.running ==> v.after(event, next) == v,
        v.running && v.after(event, next).running ==> completed_rows(v.after(event, next).grid)
            == 0,
{
    if v.running {
        let held = stamped(v.grid, v.piece.cells, family_id(v.piece.family));
        lemma_compacted_has_no_complete_row(v.grid);
        assert(is_grid(held));
        lemma_compacted_has_no_complete_row(held);
        assert(is_grid(stamped(held, next.cells, family_id(next.family))));
        match event {
            Event::Gravity => {
                let lower = v.piece.translated(0, 1);
                if placeable(v.grid, lower.cells) {
                    lemma_placeable_fits(v.grid, lower);
                }
            },
            Event::SpeedUp => {},
            Event::Key(key) => {
                let target = v.target(key);
                if placeable(v.grid, target.cells) {
                    lemma_placeable_fits(v.grid, target);
                }
            },
        }
    }
}

/// The field changes only when a piece locks or a complete row is cleared:
/// an event that does neither leaves the field and the score as they are.
pub proof fn lemma_field_kept(v: GameView, event: Event, next: Piece)
    requires
        !v.locks_on(event),
        forall|y: int| 0 <= y < v.grid.len() ==> !row_complete(#[trigger] v.grid[y]),
    ensures
        v.after(event, next).grid == v.grid,
        v.after(event, next).score == v.score,
{
    lemma_nothing_to_clear(v.grid);
}

/// A score that leaves room for the best possible pass has room for what
/// any event earns.
pub proof fn lemma_score_has_room(v: GameView, event: Event, next: Piece)
    requires
        v.sound(),
        v.score + MAX_PASS_REWARD <= u32::MAX,
    ensures
        v.after(event, next).score <= u32::MAX,
{
    let held = stamped(v.grid, v.piece.cells, family_id(v.piece.family));
    lemma_reward_bounded(v.grid);
    lemma_reward_bounded(held);
}

/// A piece with a cell in the bottom row locks on the next gravity tick.
pub proof fn lemma_bottom_row_locks(v: GameView, next: Piece)
    requires
        v.running,
        exists|i: int|
            0 <= i < v.piece.cells.len() && (#[trigger] v.piece.cells[i]).1 == BOARD_HEIGHT - 1,
    ensures
        v.locks_on(Event::Gravity),
        v.after(Event::Gravity, next) == v.locked(next),
{
    lemma_bottom_row_bars_descent(v.grid, v.piece, 1);
}

/// When the falling piece locks while the entry rows are full, the game is
/// over whatever piece is drawn, and the score stays as it is.
pub proof fn lemma_full_entry_rows_end_game(
    v: GameView,
    family: ShapeType,
    facing: Direction,
)
    requires
        v.sound(),
        v.locks_on(Event::Gravity),
        forall|y: int| 0 <= y < HIDDEN_ROWS ==> row_complete(#[trigger] v.grid[y]),
    ensures
        !v.after(Event::Gravity, Piece::spawn(family, facing)).running,
        v.after(Event::Gravity, Piece::spawn(family, facing)).score == v.score,
{
    let held = stamped(v.grid, v.piece.cells, family_id(v.piece.family));
    assert forall|y: int| 0 <= y < HIDDEN_ROWS implies row_complete(#[trigger] held[y]) by {
        assert(row_complete(v.grid[y]));
        assert forall|x: int| 0 <= x < held[y].len() implies #[trigger] held[y][x] != 0 by {
            assert(v.grid[y][x] != 0);
        }
    }
    lemma_full_entry_rows_bar_spawn(held, family, facing);
}

} // verus!
