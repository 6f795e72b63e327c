use snake::geometry::{are_basically_eq, is_opposite_of, next_position, Direction, Position};
use snake::render::{render_blocks, status, Block, BlockKind, Status};
use snake::state::{extend_snake_body, fruit_position, initial_state, random_position_on_board, reset_state, PlayState};
use snake::update::{
    advance, input_to_direction, is_ready, needs_fresh_position, update, FrameInput,
    MOVE_INTERVAL,
};

const ALL: [Direction; 4] = [Direction::North, Direction::South, Direction::West, Direction::East];

fn pos(x: i32, y: i32) -> Position {
    Position { x, y }
}

fn cell(x: i32, y: i32) -> Position {
    Position { x: x * 100, y: y * 100 }
}

fn idle(elapsed: u64) -> FrameInput {
    FrameInput { restart: false, left: false, right: false, up: false, down: false, elapsed }
}

fn restart() -> FrameInput {
    FrameInput { restart: true, ..idle(0) }
}

fn is_fruit_cell(p: Position) -> bool {
    p.x % 100 == 0 && p.y % 100 == 0 && (100..=800).contains(&p.x) && (100..=800).contains(&p.y)
}

fn state_with(parts: Vec<Position>, direction: Direction, fruit: Position) -> PlayState {
    let mut s = initial_state(fruit);
    s.parts = parts;
    s.direction = direction;
    s.next_direction = direction;
    s
}

fn assert_fresh(s: &PlayState) {
    assert_eq!(s.parts, vec![cell(2, 1), cell(1, 1)]);
    assert_eq!(s.direction, Direction::East);
    assert_eq!(s.next_direction, Direction::East);
    assert_eq!(s.time_since_last_move, 0);
    assert!(!s.dead);
    assert!(is_fruit_cell(s.fruit));
    assert_eq!(s.walls.len(), 40);
    for x in 0..=10 {
        for y in 0..=10 {
            let on_ring = x == 0 || x == 10 || y == 0 || y == 10;
            assert_eq!(s.walls.contains(&cell(x, y)), on_ring, "cell ({}, {})", x, y);
        }
    }
}

#[test]
fn opposite_is_irreflexive_and_symmetric() {
    for a in ALL {
        assert!(!is_opposite_of(a, a));
        for b in ALL {
            assert_eq!(is_opposite_of(a, b), is_opposite_of(b, a));
        }
    }
    assert!(is_opposite_of(Direction::North, Direction::South));
    assert!(is_opposite_of(Direction::West, Direction::East));
    assert!(!is_opposite_of(Direction::North, Direction::East));
}

#[test]
fn next_position_moves_one_axis_by_one_cell() {
    let p = cell(4, 6);
    assert_eq!(next_position(p, Direction::North), cell(4, 5));
    assert_eq!(next_position(p, Direction::South), cell(4, 7));
    assert_eq!(next_position(p, Direction::West), cell(3, 6));
    assert_eq!(next_position(p, Direction::East), cell(5, 6));
    let q = pos(-250, 1234);
    for d in ALL {
        let r = next_position(q, d);
        let dx = (r.x - q.x).abs();
        let dy = (r.y - q.y).abs();
        assert!((dx == 100 && dy == 0) || (dx == 0 && dy == 100));
    }
}

#[test]
fn basically_eq_uses_tolerance_band() {
    assert!(are_basically_eq(cell(1, 1), pos(105, 95)));
    assert!(!are_basically_eq(cell(1, 1), pos(120, 100)));
    assert!(!are_basically_eq(cell(1, 1), pos(110, 100)));
    assert!(are_basically_eq(cell(1, 1), pos(109, 91)));
    let p = pos(-37, 512);
    let mirror = pos(512, -37);
    assert!(are_basically_eq(p, p));
    assert!(are_basically_eq(mirror, mirror));
    assert_eq!(are_basically_eq(p, mirror), are_basically_eq(mirror, p));
    assert!(are_basically_eq(pos(i32::MAX, i32::MIN), pos(i32::MAX, i32::MIN)));
    assert!(!are_basically_eq(pos(i32::MAX, 0), pos(i32::MIN, 0)));
}

#[test]
fn reset_state_builds_fresh_game() {
    for _ in 0..20 {
        assert_fresh(&reset_state());
    }
    let s = initial_state(cell(3, 7));
    assert_eq!(s.fruit, cell(3, 7));
    assert_eq!(s.walls[0], cell(0, 0));
    assert_eq!(s.walls[1], cell(0, 10));
    assert_eq!(s.walls[22], cell(0, 1));
    assert_eq!(s.walls[39], cell(10, 9));
}

#[test]
fn random_positions_stay_on_fruit_cells() {
    let mut seen_other_than_first = false;
    let first = random_position_on_board();
    for _ in 0..500 {
        let p = random_position_on_board();
        assert!(is_fruit_cell(p), "{:?}", p);
        if p != first {
            seen_other_than_first = true;
        }
    }
    assert!(seen_other_than_first);
}

#[test]
fn short_frames_only_accumulate_time() {
    let mut s = initial_state(cell(6, 6));
    let body = s.parts.clone();
    for k in 1..=3u64 {
        update(&mut s, &idle(50_000));
        assert_eq!(s.parts, body);
        assert_eq!(s.time_since_last_move, 50_000 * k);
        assert!(!s.dead);
    }
    update(&mut s, &idle(49_999));
    assert_eq!(s.parts, body);
    assert_eq!(s.time_since_last_move, 199_999);
    update(&mut s, &idle(1));
    assert_eq!(s.parts, vec![cell(3, 1), cell(2, 1)]);
    assert_eq!(s.time_since_last_move, 0);
}

#[test]
fn eating_fruit_grows_body() {
    let mut s = initial_state(cell(3, 1));
    update(&mut s, &idle(MOVE_INTERVAL));
    assert_eq!(s.parts.len(), 3);
    assert_eq!(s.parts, vec![cell(3, 1), cell(2, 1), cell(1, 1)]);
    assert!(!s.dead);
    assert!(is_fruit_cell(s.fruit));
}

#[test]
fn eating_fruit_takes_given_position() {
    let mut s = initial_state(cell(3, 1));
    assert!(needs_fresh_position(&s, &idle(MOVE_INTERVAL)));
    advance(&mut s, &idle(MOVE_INTERVAL), cell(7, 2));
    assert_eq!(s.fruit, cell(7, 2));
    assert_eq!(s.parts.len(), 3);
}

#[test]
fn eating_within_tolerance_counts() {
    let mut s = initial_state(pos(305, 95));
    advance(&mut s, &idle(MOVE_INTERVAL), cell(5, 5));
    assert_eq!(s.parts.len(), 3);
    assert_eq!(s.fruit, cell(5, 5));
}

#[test]
fn self_collision_kills_and_freezes() {
    let mut s = state_with(
        vec![cell(2, 2), cell(3, 2), cell(2, 3), cell(1, 3)],
        Direction::South,
        cell(8, 8),
    );
    assert_eq!(next_position(s.parts[0], Direction::South), s.parts[2]);
    update(&mut s, &idle(MOVE_INTERVAL));
    assert!(s.dead);
    assert_eq!(s.parts, vec![cell(2, 3), cell(2, 2), cell(3, 2), cell(2, 3)]);
    let frozen = s.parts.clone();
    for _ in 0..3 {
        let left = FrameInput { left: true, ..idle(MOVE_INTERVAL) };
        update(&mut s, &left);
        assert!(s.dead);
        assert_eq!(s.parts, frozen);
        assert_eq!(s.direction, Direction::South);
    }
}

#[test]
fn wall_collision_kills() {
    let mut s = state_with(vec![cell(1, 1), cell(2, 1)], Direction::West, cell(8, 8));
    assert!(s.walls.contains(&cell(0, 1)));
    update(&mut s, &idle(MOVE_INTERVAL));
    assert!(s.dead);
    assert_eq!(s.parts[0], cell(0, 1));
}

#[test]
fn restart_always_gives_fresh_game() {
    let mut s = state_with(
        vec![cell(5, 5), cell(5, 6), cell(5, 7), cell(5, 8), cell(6, 8)],
        Direction::North,
        cell(2, 2),
    );
    s.dead = true;
    s.time_since_last_move = 123;
    update(&mut s, &restart());
    assert_fresh(&s);

    let mut alive = initial_state(cell(4, 4));
    update(&mut alive, &FrameInput { elapsed: MOVE_INTERVAL * 3, ..restart() });
    assert_fresh(&alive);

    let mut empty = initial_state(cell(4, 4));
    empty.parts.clear();
    assert!(!is_ready(&empty));
    update(&mut empty, &restart());
    assert_fresh(&empty);
}

#[test]
fn reversal_is_ignored_and_turns_are_buffered() {
    let mut s = initial_state(cell(8, 8));
    update(&mut s, &FrameInput { left: true, ..idle(10_000) });
    assert_eq!(s.next_direction, Direction::East);
    update(&mut s, &FrameInput { down: true, ..idle(10_000) });
    assert_eq!(s.next_direction, Direction::South);
    assert_eq!(s.direction, Direction::East);
    update(&mut s, &idle(10_000));
    assert_eq!(s.next_direction, Direction::South);
    update(&mut s, &idle(MOVE_INTERVAL));
    assert_eq!(s.direction, Direction::South);
    assert_eq!(s.parts, vec![cell(2, 2), cell(2, 1)]);
}

#[test]
fn first_acceptable_key_wins() {
    let mut s = state_with(vec![cell(4, 4), cell(4, 5)], Direction::North, cell(8, 8));
    let all = FrameInput { left: true, right: true, up: true, down: true, ..idle(0) };
    update(&mut s, &all);
    assert_eq!(s.next_direction, Direction::West);
    let mut t = state_with(vec![cell(4, 4), cell(3, 4)], Direction::East, cell(8, 8));
    let lr_down = FrameInput { left: true, down: true, ..idle(0) };
    update(&mut t, &lr_down);
    assert_eq!(t.next_direction, Direction::South);
}

#[test]
fn input_to_direction_rejects_reversal() {
    assert_eq!(input_to_direction(Direction::East, true, Direction::North), Some(Direction::North));
    assert_eq!(input_to_direction(Direction::East, true, Direction::West), None);
    assert_eq!(input_to_direction(Direction::East, false, Direction::North), None);
    assert_eq!(input_to_direction(Direction::South, true, Direction::South), Some(Direction::South));
}

#[test]
fn extend_adds_segment_behind_tail() {
    let expected = [
        (Direction::North, cell(4, 5)),
        (Direction::South, cell(4, 3)),
        (Direction::West, cell(5, 4)),
        (Direction::East, cell(3, 4)),
    ];
    for (d, tail) in expected {
        let mut s = state_with(vec![cell(5, 5), cell(4, 4)], d, cell(8, 8));
        extend_snake_body(&mut s);
        assert_eq!(s.parts, vec![cell(5, 5), cell(4, 4), tail]);
    }
    let mut empty = state_with(Vec::new(), Direction::East, cell(8, 8));
    extend_snake_body(&mut empty);
    assert!(empty.parts.is_empty());
}

#[test]
fn single_segment_snake_grows_behind_itself() {
    let mut s = state_with(vec![cell(4, 4)], Direction::East, cell(5, 4));
    advance(&mut s, &idle(MOVE_INTERVAL), cell(1, 1));
    assert_eq!(s.parts, vec![cell(5, 4), cell(4, 4)]);
    assert!(!s.dead);
}

#[test]
fn readiness_needs_room_to_step() {
    assert!(is_ready(&initial_state(cell(1, 1))));
    let s = state_with(vec![cell(1, 1), pos(i32::MAX, 0)], Direction::East, cell(8, 8));
    assert!(!is_ready(&s));
}

#[test]
fn blocks_list_walls_body_then_fruit() {
    let s = state_with(vec![cell(3, 3), cell(3, 4), cell(3, 5)], Direction::North, cell(6, 6));
    let blocks = render_blocks(&s);
    assert_eq!(blocks.len(), 40 + 3 + 1);
    assert!(blocks[..40].iter().all(|b| b.kind == BlockKind::Wall));
    assert_eq!(blocks[40], Block { position: cell(3, 3), kind: BlockKind::Head });
    assert_eq!(blocks[41], Block { position: cell(3, 4), kind: BlockKind::Body });
    assert_eq!(blocks[42], Block { position: cell(3, 5), kind: BlockKind::Body });
    assert_eq!(blocks[43], Block { position: cell(6, 6), kind: BlockKind::Fruit });
}

#[test]
fn status_reports_length_or_death() {
    let mut s = initial_state(cell(3, 1));
    assert_eq!(status(&s), Status::Playing(2));
    update(&mut s, &idle(MOVE_INTERVAL));
    assert_eq!(status(&s), Status::Playing(3));
    s.dead = true;
    assert_eq!(status(&s), Status::Dead);
}

#[test]
fn fruit_position_maps_cell_indices() {
    assert_eq!(fruit_position(1, 1), cell(1, 1));
    assert_eq!(fruit_position(3, 7), cell(3, 7));
    assert_eq!(fruit_position(8, 2), pos(800, 200));
}
