use vstd::prelude::*;
use crate::geometry::{
    are_basically_eq, in_bounds, room_behind, is_opposite_of, near, next_position, opposite, step, step_back,
    Direction, Position, UNIT,
};
use crate::state::{
    body_in_bounds, extend_snake_body, fresh_game, fruit_cell, random_position_on_board,
    initial_state, GameView, PlayState,
};

verus! {

/// Time between two grid steps, in microseconds.
pub const MOVE_INTERVAL: u64 = 200_000;

/// What the player and the clock supply for one frame.
#[derive(Clone, Copy, Debug, PartialEq, Eq, Structural)]
pub struct FrameInput {
    /// The restart key was newly pressed.
    pub restart: bool,
    pub left: bool,
    pub right: bool,
    pub up: bool,
    pub down: bool,
    /// Time since the previous frame, in microseconds.
    pub elapsed: u64,
}

/// `mapping` when its key is pressed and it does not reverse `current`.
pub open spec fn accepted_turn(current: Direction, pressed: bool, mapping: Direction) -> Option<
    Direction,
> {
    if pressed && !opposite(mapping, current) {
        Some(mapping)
    } else {
        None
    }
}

/// The pending direction after sampling the keys in the order left, right,
/// up, down: the first acceptable turn, else the pending one kept.
pub open spec fn buffered_direction(current: Direction, pending: Direction, input: FrameInput) -> Direction {
    if accepted_turn(current, input.left, Direction::West) is Some {
        Direction::West
    } else if accepted_turn(current, input.right, Direction::East) is Some {
        Direction::East
    } else if accepted_turn(current, input.up, Direction::North) is Some {
        Direction::North
    } else if accepted_turn(current, input.down, Direction::South) is Some {
        Direction::South
    } else {
        pending
    }
}

/// The body after its head moves to `head`: each segment takes the place of
/// the one in front of it.
pub open spec fn shifted(parts: Seq<Position>, head: Position) -> Seq<Position> {
    seq![head] + parts.drop_last()
}

/// Whether `head` meets a segment of `parts` other than the first, or a wall.
pub open spec fn collides(head: Position, parts: Seq<Position>, walls: Seq<Position>) -> bool {
    (exists|i: int| 1 <= i < parts.len() && near(#[trigger] parts[i], head)) || (exists|j: int|
        0 <= j < walls.len() && near(#[trigger] walls[j], head))
}

/// Whether this frame reaches a grid step.
pub open spec fn triggers(m: GameView, input: FrameInput) -> bool {
    m.timer + input.elapsed >= MOVE_INTERVAL
}

/// The head position the next grid step would reach.
pub open spec fn next_head(m: GameView, input: FrameInput) -> Position {
    step(m.parts[0], buffered_direction(m.direction, m.next_direction, input))
}

/// The game after one frame, where `fresh` is the newly drawn position used
/// by a restart or when fruit is eaten.
pub open spec fn advanced(m: GameView, input: FrameInput, fresh: Position) -> GameView {
    if input.restart {
        fresh_game(fresh)
    } else if m.dead {
        m
    } else {
        let pending = buffered_direction(m.direction, m.next_direction, input);
        if !triggers(m, input) {
            GameView { next_direction: pending, timer: (m.timer + input.elapsed) as nat, ..m }
        } else {
            let head = step(m.parts[0], pending);
            let moved = shifted(m.parts, head);
            let eats = near(head, m.fruit);
            GameView {
                walls: m.walls,
                parts: if eats {
                    moved.push(step_back(moved.last(), pending))
                } else {
                    moved
                },
                direction: pending,
                next_direction: pending,
                fruit: if eats {
                    fresh
                } else {
                    m.fruit
                },
                timer: 0,
                dead: collides(head, moved, m.walls),
            }
        }
    }
}

/// Whether a frame draws a new position: on restart, or when a living snake
/// steps onto the fruit.
pub open spec fn fresh_needed(m: GameView, input: FrameInput) -> bool {
    input.restart || (!m.dead && triggers(m, input) && near(next_head(m, input), m.fruit))
}

/// What a frame needs of the state: a head, and room for one more step.
pub open spec fn ready(m: GameView) -> bool {
    m.parts.len() > 0 && body_in_bounds(m.parts)
}

pub fn input_to_direction(current: Direction, pressed: bool, mapping: Direction) -> (r: Option<
    Direction,
>)
    ensures
        r == accepted_turn(current, pressed, mapping),
{
    if pressed && !is_opposite_of(mapping, current) {
        Some(mapping)
    } else {
        None
    }
}

fn pending_direction(current: Direction, pending: Direction, input: &FrameInput) -> (r: Direction)
    ensures
        r == buffered_direction(current, pending, *input),
{
    if let Some(d) = input_to_direction(current, input.left, Direction::West) {
        d
    } else if let Some(d) = input_to_direction(current, input.right, Direction::East) {
        d
    } else if let Some(d) = input_to_direction(current, input.up, Direction::North) {
        d
    } else if let Some(d) = input_to_direction(current, input.down, Direction::South) {
        d
    } else {
        pending
    }
}

/// Whether the state allows the next frame to run: it has a head, and every
/// segment leaves room for one more step.
pub fn is_ready(state: &PlayState) -> (r: bool)
    ensures
        r == ready(state@),
{
    let n = state.parts.len();
    if n == 0 {
        return false;
    }
    let mut i: usize = 0;
    while i < n
        invariant
            n == state.parts@.len(),
            0 <= i <= n,
            forall|k: int| 0 <= k < i ==> in_bounds(#[trigger] state.parts@[k]),
        decreases n - i,
    {
        let p = state.parts[i];
        if !(p.x >= i32::MIN + UNIT && p.x <= i32::MAX - UNIT && p.y >= i32::MIN + UNIT && p.y
            <= i32::MAX - UNIT) {
            return false;
        }
        i = i + 1;
    }
    true
}

/// Whether `head` meets a segment other than the first, or a wall.
fn hits_something(head: Position, parts: &Vec<Position>, walls: &Vec<Position>) -> (r: bool)
    ensures
        r == collides(head, parts@, walls@),
{
    let mut i: usize = 1;
    while i < parts.len()
        invariant
            1 <= i <= parts@.len() || parts@.len() == 0,
            forall|k: int| 1 <= k < i && k < parts@.len() ==> !near(#[trigger] parts@[k], head),
        decreases parts@.len() - i,
    {
        if are_basically_eq(parts[i], head) {
            return true;
        }
        i = i + 1;
    }
    let mut j: usize = 0;
    while j < walls.len()
        invariant
            0 <= j <= walls@.len(),
            forall|k: int| 1 <= k < parts@.len() ==> !near(#[trigger] parts@[k], head),
            forall|k: int| 0 <= k < j ==> !near(#[trigger] walls@[k], head),
        decreases walls@.len() - j,
    {
        if are_basically_eq(walls[j], head) {
            return true;
        }
        j = j + 1;
    }
    false
}

/// Runs one frame with `fresh` as the position drawn for a restart or a new fruit.
pub fn advance(state: &mut PlayState, input: &FrameInput, fresh: Position)
    requires
        input.restart || ready(old(state)@),
    ensures
        final(state)@ == advanced(old(state)@, *input, fresh),
{
    if input.restart {
        *state = initial_state(fresh);
        return;
    }
    if state.dead {
        return;
    }
    let ghost m = state@;
    let pending = pending_direction(state.direction, state.next_direction, input);
    state.next_direction = pending;
    if state.time_since_last_move < MOVE_INTERVAL && input.elapsed < MOVE_INTERVAL
        - state.time_since_last_move {
        state.time_since_last_move = state.time_since_last_move + input.elapsed;
        assert(state@ == advanced(m, *input, fresh));
        return;
    }
    state.time_since_last_move = 0;
    state.direction = pending;
    let head = next_position(state.parts[0], pending);
    let n = state.parts.len();
    let mut carry = head;
    let mut i: usize = 0;
    while i < n
        invariant
            n == m.parts.len(),
            n > 0,
            0 <= i <= n,
            state.parts@.len() == n,
            state.walls@ == m.walls,
            state.fruit == m.fruit,
            state.direction == pending,
            state.next_direction == pending,
            state.time_since_last_move == 0,
            state.dead == m.dead,
            forall|k: int| 0 <= k < i ==> #[trigger] state.parts@[k] == shifted(m.parts, head)[k],
            forall|k: int| i <= k < n ==> #[trigger] state.parts@[k] == m.parts[k],
            i == 0 ==> carry == head,
            i > 0 ==> carry == m.parts[i - 1],
        decreases n - i,
    {
        let here = state.parts[i];
        state.parts.set(i, carry);
        carry = here;
        i = i + 1;
    }
    let ghost moved = shifted(m.parts, head);
    assert(state.parts@ =~= moved);
    if hits_something(head, &state.parts, &state.walls) {
        state.dead = true;
    }
    if are_basically_eq(head, state.fruit) {
        assert(room_behind(moved.last(), pending)) by {
            if n > 1 {
                assert(moved.last() == m.parts[n - 2]);
            }
        }
        extend_snake_body(state);
        state.fruit = fresh;
    }
    assert(state@ == advanced(m, *input, fresh));
}

/// Whether the frame described by `input` will draw a new position.
pub fn needs_fresh_position(state: &PlayState, input: &FrameInput) -> (r: bool)
    requires
        input.restart || ready(state@),
    ensures
        r == fresh_needed(state@, *input),
{
    if input.restart {
        return true;
    }
    if state.dead {
        return false;
    }
    let reaches = state.time_since_last_move >= MOVE_INTERVAL || input.elapsed >= MOVE_INTERVAL
        - state.time_since_last_move;
    if !reaches {
        return false;
    }
    let pending = pending_direction(state.direction, state.next_direction, input);
    let head = next_position(state.parts[0], pending);
    are_basically_eq(head, state.fruit)
}

/// Runs one frame: restart, direction buffering, the timed grid step,
/// collisions and eating. A restart or an eaten fruit draws a new position.
pub fn update(state: &mut PlayState, input: &FrameInput)
    requires
        input.restart || ready(old(state)@),
    ensures
        exists|fresh: Position|
            fruit_cell(fresh) && final(state)@ == advanced(old(state)@, *input, fresh),
        !fresh_needed(old(state)@, *input) ==> final(state)@ == advanced(
            old(state)@,
            *input,
            old(state).fruit,
        ),
{
    let ghost m = state@;
    let fresh = if needs_fresh_position(state, input) {
        random_position_on_board()
    } else {
        Position { x: UNIT, y: UNIT }
    };
    advance(state, input, fresh);
    assert(fruit_cell(fresh));
    assert(advanced(m, *input, fresh) == advanced(m, *input, m.fruit) || fresh_needed(m, *input));
}

/// The game after a run of frames, frame `k` drawing `fresh[k]` where it
/// needs a position.
pub open spec fn run(m: GameView, inputs: Seq<FrameInput>, fresh: Seq<Position>) -> GameView
    decreases inputs.len(),
{
    if inputs.len() == 0 || fresh.len() == 0 {
        m
    } else {
        run(advanced(m, inputs[0], fresh[0]), inputs.drop_first(), fresh.drop_first())
    }
}

/// The time that a run of frames supplies, in microseconds.
pub open spec fn total_elapsed(inputs: Seq<FrameInput>) -> nat
    decreases inputs.len(),
{
    if inputs.len() == 0 {
        0
    } else {
        (inputs[0].elapsed + total_elapsed(inputs.drop_first())) as nat
    }
}

/// Frames whose time, added to the timer, stays below the move interval never
/// move the snake: without a restart the body, heading, walls, fruit and death
/// flag stay as they were, and the timer of a living snake only accumulates.
pub proof fn lemma_below_interval_keeps_body(
    m: GameView,
    inputs: Seq<FrameInput>,
    fresh: Seq<Position>,
)
    requires
        fresh.len() == inputs.len(),
        forall|k: int| 0 <= k < inputs.len() ==> !(#[trigger] inputs[k]).restart,
        m.timer + total_elapsed(inputs) < MOVE_INTERVAL,
    ensures
        run(m, inputs, fresh).parts == m.parts,
        run(m, inputs, fresh).walls == m.walls,
        run(m, inputs, fresh).direction == m.direction,
        run(m, inputs, fresh).fruit == m.fruit,
        run(m, inputs, fresh).dead == m.dead,
        !m.dead ==> run(m, inputs, fresh).timer == m.timer + total_elapsed(inputs),
        m.dead ==> run(m, inputs, fresh) == m,
    decreases inputs.len(),
{
    if inputs.len() > 0 {
        assert(!inputs[0].restart);
        let rest = inputs.drop_first();
        assert forall|k: int| 0 <= k < rest.len() implies !(#[trigger] rest[k]).restart by {
            assert(rest[k] == inputs[k + 1]);
        }
        lemma_below_interval_keeps_body(advanced(m, inputs[0], fresh[0]), rest, fresh.drop_first());
    }
}

/// A restart gives a fresh game whatever the state was: dead or alive, of any
/// length.
pub proof fn lemma_restart_resets(m: GameView, input: FrameInput, fresh: Position)
    requires
        input.restart,
    ensures
        advanced(m, input, fresh) == fresh_game(fresh),
{
}

/// Once dead, the game stays as it is until a restart.
pub proof fn lemma_dead_state_frozen(m: GameView, input: FrameInput, fresh: Position)
    requires
        m.dead,
        !input.restart,
    ensures
        advanced(m, input, fresh) == m,
{
}

} // verus!
