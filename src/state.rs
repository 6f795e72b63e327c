use vstd::prelude::*;
use crate::geometry::{cell, in_bounds, room_behind, step_back, Direction, Position, UNIT};

verus! {

/// The board spans cells `0..=BOARD_LAST` on both axes; its outer ring is wall.
pub const BOARD_LAST: i32 = 10;

/// Fruit lands on cells `FRUIT_FIRST..=FRUIT_LAST` on both axes.
pub const FRUIT_FIRST: i32 = 1;

pub const FRUIT_LAST: i32 = 8;

/// The whole mutable record of one game.
pub struct PlayState {
    /// The board's outer ring, fixed once the game starts.
    pub walls: Vec<Position>,
    /// The snake, head first.
    pub parts: Vec<Position>,
    /// The current direction we are headed.
    pub direction: Direction,
    /// The direction we will switch to at next movement.
    pub next_direction: Direction,
    pub fruit: Position,
    /// Time gathered towards the next move, in microseconds.
    pub time_since_last_move: u64,
    pub dead: bool,
}

/// What a `PlayState` holds, with its vectors seen as sequences.
pub struct GameView {
    pub walls: Seq<Position>,
    pub parts: Seq<Position>,
    pub direction: Direction,
    pub next_direction: Direction,
    pub fruit: Position,
    pub timer: nat,
    pub dead: bool,
}

impl View for PlayState {
    type V = GameView;

    open spec fn view(&self) -> GameView {
        GameView {
            walls: self.walls@,
            parts: self.parts@,
            direction: self.direction,
            next_direction: self.next_direction,
            fruit: self.fruit,
            timer: self.time_since_last_move as nat,
            dead: self.dead,
        }
    }
}

/// The `i`th wall of the ring as a fresh game lists it: the top and bottom
/// rows in pairs for x in `0..=10`, then the left and right columns in pairs
/// for y in `1..=9`.
pub open spec fn wall_at(i: int) -> Position {
    if i < 2 * (BOARD_LAST + 1) {
        if i % 2 == 0 {
            cell(i / 2, 0)
        } else {
            cell(i / 2, BOARD_LAST as int)
        }
    } else {
        let c = (i - 2 * (BOARD_LAST + 1)) / 2 + 1;
        if i % 2 == 0 {
            cell(0, c)
        } else {
            cell(BOARD_LAST as int, c)
        }
    }
}

pub open spec fn wall_count() -> int {
    2 * (BOARD_LAST + 1) + 2 * (BOARD_LAST - 1)
}

/// The wall ring of a fresh game, in the order it is built.
pub open spec fn ring_walls() -> Seq<Position> {
    Seq::new(wall_count() as nat, |i: int| wall_at(i))
}

/// Whether `p` is exactly one of the cells on the board's outer ring.
pub open spec fn perimeter_cell(p: Position) -> bool {
    &&& 0 <= p.x <= BOARD_LAST * UNIT
    &&& 0 <= p.y <= BOARD_LAST * UNIT
    &&& p.x % UNIT == 0
    &&& p.y % UNIT == 0
    &&& (p.x == 0 || p.x == BOARD_LAST * UNIT || p.y == 0 || p.y == BOARD_LAST * UNIT)
}

/// Whether `p` is a cell where fruit may be placed.
pub open spec fn fruit_cell(p: Position) -> bool {
    &&& FRUIT_FIRST * UNIT <= p.x <= FRUIT_LAST * UNIT
    &&& FRUIT_FIRST * UNIT <= p.y <= FRUIT_LAST * UNIT
    &&& p.x % UNIT == 0
    &&& p.y % UNIT == 0
}

/// The two segments a fresh snake starts with, head first.
pub open spec fn start_body() -> Seq<Position> {
    seq![cell(2, 1), cell(1, 1)]
}

/// A fresh game with its fruit at `fruit`.
pub open spec fn fresh_game(fruit: Position) -> GameView {
    GameView {
        walls: ring_walls(),
        parts: start_body(),
        direction: Direction::East,
        next_direction: Direction::East,
        fruit,
        timer: 0,
        dead: false,
    }
}

/// Every segment of the body leaves room for a step of one cell either way.
pub open spec fn body_in_bounds(parts: Seq<Position>) -> bool {
    forall|i: int| 0 <= i < parts.len() ==> in_bounds(#[trigger] parts[i])
}

/// Relies on quad_rand's `gen_range` (as `macroquad::rand::gen_range`): for
/// `i32` it scales a draw in `[0, 1)` onto `low..high` and truncates, which
/// stays in `low..high` while both bounds are small and non-negative.
#[verifier::external_body]
fn gen_range(low: i32, high: i32) -> (r: i32)
    requires
        0 <= low < high <= 1024,
    ensures
        low <= r < high,
{
    macroquad::rand::gen_range(low, high)
}

/// The position of the fruit cell (`cx`, `cy`).
pub fn fruit_position(cx: i32, cy: i32) -> (r: Position)
    requires
        FRUIT_FIRST <= cx <= FRUIT_LAST,
        FRUIT_FIRST <= cy <= FRUIT_LAST,
    ensures
        r == cell(cx as int, cy as int),
        fruit_cell(r),
{
    Position { x: cx * UNIT, y: cy * UNIT }
}

/// A cell drawn at random from the fruit area: the first draw gives its
/// column, the second its row.
pub fn random_position_on_board() -> (r: Position)
    ensures
        fruit_cell(r),
        exists|cx: int, cy: int|
            FRUIT_FIRST <= cx <= FRUIT_LAST && FRUIT_FIRST <= cy <= FRUIT_LAST && r == cell(cx, cy),
{
    let x = gen_range(FRUIT_FIRST, FRUIT_LAST + 1);
    let y = gen_range(FRUIT_FIRST, FRUIT_LAST + 1);
    fruit_position(x, y)
}

/// A fresh game with its fruit at `fruit`.
pub fn initial_state(fruit: Position) -> (r: PlayState)
    ensures
        r@ == fresh_game(fruit),
{
    let mut walls: Vec<Position> = Vec::new();
    let mut x: i32 = 0;
    while x <= BOARD_LAST
        invariant
            0 <= x <= BOARD_LAST + 1,
            walls@.len() == 2 * x,
            forall|k: int| 0 <= k < 2 * x ==> #[trigger] walls@[k] == wall_at(k),
        decreases BOARD_LAST + 1 - x,
    {
        walls.push(Position { x: x * UNIT, y: 0 });
        walls.push(Position { x: x * UNIT, y: BOARD_LAST * UNIT });
        x = x + 1;
    }
    let mut y: i32 = 1;
    while y < BOARD_LAST
        invariant
            1 <= y <= BOARD_LAST,
            walls@.len() == 2 * (BOARD_LAST + 1) + 2 * (y - 1),
            forall|k: int| 0 <= k < walls@.len() ==> #[trigger] walls@[k] == wall_at(k),
        decreases BOARD_LAST - y,
    {
        walls.push(Position { x: 0, y: y * UNIT });
        walls.push(Position { x: BOARD_LAST * UNIT, y: y * UNIT });
        y = y + 1;
    }
    assert(walls@ =~= ring_walls());
    let parts = vec![Position { x: 2 * UNIT, y: UNIT }, Position { x: UNIT, y: UNIT }];
    assert(parts@ =~= start_body());
    PlayState {
        walls,
        parts,
        direction: Direction::East,
        next_direction: Direction::East,
        fruit,
        time_since_last_move: 0,
        dead: false,
    }
}

pub fn reset_state() -> (r: PlayState)
    ensures
        fruit_cell(r.fruit),
        r@ == fresh_game(r.fruit),
{
    initial_state(random_position_on_board())
}

/// Appends one segment behind the tail, against the current heading.
pub fn extend_snake_body(state: &mut PlayState)
    requires
        old(state).parts@.len() > 0 ==> room_behind(old(state).parts@.last(), old(state).direction),
    ensures
        old(state).parts@.len() == 0 ==> final(state)@ == old(state)@,
        old(state).parts@.len() > 0 ==> final(state)@ == (GameView {
            parts: old(state).parts@.push(step_back(old(state).parts@.last(), old(state).direction)),
            ..old(state)@
        }),
{
    let n = state.parts.len();
    if n == 0 {
        return;
    }
    let tail = state.parts[n - 1];
    let new_part = match state.direction {
        Direction::North => Position { x: tail.x, y: tail.y + UNIT },
        Direction::South => Position { x: tail.x, y: tail.y - UNIT },
        Direction::West => Position { x: tail.x + UNIT, y: tail.y },
        Direction::East => Position { x: tail.x - UNIT, y: tail.y },
    };
    state.parts.push(new_part);
}

/// The walls of a fresh game are exactly the cells of the board's outer ring:
/// every listed wall is on the ring, and every ring cell is listed.
pub proof fn lemma_ring_walls_are_perimeter(p: Position)
    ensures
        ring_walls().contains(p) <==> perimeter_cell(p),
{
    if ring_walls().contains(p) {
        let i = choose|i: int| 0 <= i < ring_walls().len() && ring_walls()[i] == p;
        assert(p == wall_at(i));
    }
    if perimeter_cell(p) {
        let cx = p.x / UNIT;
        let cy = p.y / UNIT;
        let i: int = if p.y == 0 {
            2 * cx
        } else if p.y == BOARD_LAST * UNIT {
            2 * cx + 1
        } else if p.x == 0 {
            2 * (BOARD_LAST + 1) + 2 * (cy - 1)
        } else {
            2 * (BOARD_LAST + 1) + 2 * (cy - 1) + 1
        };
        assert(ring_walls()[i] == p);
    }
}

/// Every cell where fruit may land lies strictly inside the wall ring.
pub proof fn lemma_fruit_cells_inside_ring(p: Position)
    requires
        fruit_cell(p),
    ensures
        !perimeter_cell(p),
        !ring_walls().contains(p),
{
    lemma_ring_walls_are_perimeter(p);
}

} // verus!
