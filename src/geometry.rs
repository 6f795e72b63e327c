use vstd::prelude::*;

verus! {

/// Length of one grid cell, in the fixed-point unit of `Position`.
pub const UNIT: i32 = 100;

/// Two coordinates closer than this on both axes count as the same cell.
pub const TOLERANCE: i64 = 10;

/// A compass heading on the board. The y axis grows downward.
#[derive(Clone, Copy, Debug, PartialEq, Eq, Structural)]
pub enum Direction {
    North,
    South,
    West,
    East,
}

/// A point on the board in fixed point: `UNIT` steps make one grid cell,
/// so the cell (3, 4) is `Position { x: 300, y: 400 }`.
#[derive(Clone, Copy, Debug, PartialEq, Eq, Structural)]
pub struct Position {
    pub x: i32,
    pub y: i32,
}

/// The position of the grid cell (`cx`, `cy`).
pub open spec fn cell(cx: int, cy: int) -> Position {
    Position { x: (cx * UNIT) as i32, y: (cy * UNIT) as i32 }
}

/// Whether `a` and `b` point exactly against each other.
pub open spec fn opposite(a: Direction, b: Direction) -> bool {
    match (a, b) {
        (Direction::North, Direction::South) | (Direction::South, Direction::North) => true,
        (Direction::East, Direction::West) | (Direction::West, Direction::East) => true,
        _ => false,
    }
}

/// Tolerance equality: both axis differences lie strictly inside the tolerance band.
pub open spec fn near(a: Position, b: Position) -> bool {
    let dx = a.x - b.x;
    let dy = a.y - b.y;
    -TOLERANCE < dx < TOLERANCE && -TOLERANCE < dy < TOLERANCE
}

/// Both coordinates leave room for a step of one cell either way.
pub open spec fn in_bounds(p: Position) -> bool {
    i32::MIN + UNIT <= p.x <= i32::MAX - UNIT && i32::MIN + UNIT <= p.y <= i32::MAX - UNIT
}

/// The position one cell from `p` towards `d`.
pub open spec fn step(p: Position, d: Direction) -> Position {
    match d {
        Direction::North => Position { x: p.x, y: (p.y - UNIT) as i32 },
        Direction::South => Position { x: p.x, y: (p.y + UNIT) as i32 },
        Direction::West => Position { x: (p.x - UNIT) as i32, y: p.y },
        Direction::East => Position { x: (p.x + UNIT) as i32, y: p.y },
    }
}

/// Whether the coordinate that a step against `d` changes has room for it.
pub open spec fn room_behind(p: Position, d: Direction) -> bool {
    match d {
        Direction::North => p.y <= i32::MAX - UNIT,
        Direction::South => p.y >= i32::MIN + UNIT,
        Direction::West => p.x <= i32::MAX - UNIT,
        Direction::East => p.x >= i32::MIN + UNIT,
    }
}

/// The position one cell from `p` against `d`: where a segment trailing `p` sits.
pub open spec fn step_back(p: Position, d: Direction) -> Position {
    match d {
        Direction::North => Position { x: p.x, y: (p.y + UNIT) as i32 },
        Direction::South => Position { x: p.x, y: (p.y - UNIT) as i32 },
        Direction::West => Position { x: (p.x + UNIT) as i32, y: p.y },
        Direction::East => Position { x: (p.x - UNIT) as i32, y: p.y },
    }
}

pub fn is_opposite_of(one: Direction, other: Direction) -> (r: bool)
    ensures
        r == opposite(one, other),
{
    match (one, other) {
        (Direction::East, Direction::West) | (Direction::West, Direction::East) => true,
        (Direction::North, Direction::South) | (Direction::South, Direction::North) => true,
        _ => false,
    }
}

pub fn are_basically_eq(this: Position, other: Position) -> (r: bool)
    ensures
        r == near(this, other),
{
    let dx: i64 = this.x as i64 - other.x as i64;
    let dy: i64 = this.y as i64 - other.y as i64;
    dx > -TOLERANCE && dx < TOLERANCE && dy > -TOLERANCE && dy < TOLERANCE
}

pub fn next_position(from: Position, direction: Direction) -> (r: Position)
    requires
        in_bounds(from),
    ensures
        r == step(from, direction),
{
    match direction {
        Direction::North => Position { x: from.x, y: from.y - UNIT },
        Direction::South => Position { x: from.x, y: from.y + UNIT },
        Direction::West => Position { x: from.x - UNIT, y: from.y },
        Direction::East => Position { x: from.x + UNIT, y: from.y },
    }
}

/// No direction is opposite to itself, and being opposite is symmetric.
pub proof fn lemma_opposite_irreflexive_symmetric(a: Direction, b: Direction)
    ensures
        !opposite(a, a),
        opposite(a, b) == opposite(b, a),
{
}

/// A step moves along exactly one axis, by exactly one cell, and leaves the
/// other axis as it was.
pub proof fn lemma_step_moves_one_axis(p: Position, d: Direction)
    requires
        in_bounds(p),
    ensures
        ({
            let q = step(p, d);
            (q.x == p.x && (q.y == p.y + UNIT || q.y == p.y - UNIT)) || (q.y == p.y && (q.x
                == p.x + UNIT || q.x == p.x - UNIT))
        }),
        (d == Direction::North || d == Direction::South) ==> step(p, d).x == p.x,
        (d == Direction::East || d == Direction::West) ==> step(p, d).y == p.y,
{
}

/// Tolerance equality holds of every position against itself, and against
/// a second position exactly when the second holds against the first.
pub proof fn lemma_near_reflexive_symmetric(a: Position, b: Position)
    ensures
        near(a, a),
        near(a, b) == near(b, a),
{
}

} // verus!
