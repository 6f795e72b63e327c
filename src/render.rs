use vstd::prelude::*;
use crate::geometry::Position;
use crate::state::{GameView, PlayState};

verus! {

/// What a drawn cell shows; each kind has its own colour.
#[derive(Clone, Copy, Debug, PartialEq, Eq, Structural)]
pub enum BlockKind {
    Wall,
    Head,
    Body,
    Fruit,
}

/// One cell to draw.
#[derive(Clone, Copy, Debug, PartialEq, Eq, Structural)]
pub struct Block {
    pub position: Position,
    pub kind: BlockKind,
}

/// The status line under the board.
#[derive(Clone, Copy, Debug, PartialEq, Eq, Structural)]
pub enum Status {
    /// The snake lives and has this many segments.
    Playing(usize),
    /// The snake died; only a restart goes on.
    Dead,
}

/// The kind of the `i`th segment of the body: the first is the head.
pub open spec fn segment_kind(i: int) -> BlockKind {
    if i == 0 {
        BlockKind::Head
    } else {
        BlockKind::Body
    }
}

/// The cells of a frame in drawing order: walls, then the body head first,
/// then the fruit.
pub open spec fn drawn_blocks(m: GameView) -> Seq<Block> {
    Seq::new(m.walls.len(), |i: int| Block { position: m.walls[i], kind: BlockKind::Wall })
        + Seq::new(m.parts.len(), |i: int| Block { position: m.parts[i], kind: segment_kind(i) })
        + seq![Block { position: m.fruit, kind: BlockKind::Fruit }]
}

/// The cells to draw for `state`, in order.
pub fn render_blocks(state: &PlayState) -> (r: Vec<Block>)
    ensures
        r@ == drawn_blocks(state@),
{
    let mut out: Vec<Block> = Vec::new();
    let nw = state.walls.len();
    let mut i: usize = 0;
    while i < nw
        invariant
            nw == state.walls@.len(),
            0 <= i <= nw,
            out@.len() == i,
            forall|k: int|
                0 <= k < i ==> #[trigger] out@[k] == (Block {
                    position: state.walls@[k],
                    kind: BlockKind::Wall,
                }),
        decreases nw - i,
    {
        out.push(Block { position: state.walls[i], kind: BlockKind::Wall });
        i = i + 1;
    }
    let np = state.parts.len();
    let mut j: usize = 0;
    while j < np
        invariant
            nw == state.walls@.len(),
            np == state.parts@.len(),
            0 <= j <= np,
            out@.len() == nw + j,
            forall|k: int|
                0 <= k < nw ==> #[trigger] out@[k] == (Block {
                    position: state.walls@[k],
                    kind: BlockKind::Wall,
                }),
            forall|k: int|
                0 <= k < j ==> #[trigger] out@[nw + k] == (Block {
                    position: state.parts@[k],
                    kind: segment_kind(k),
                }),
        decreases np - j,
    {
        let kind = if j == 0 {
            BlockKind::Head
        } else {
            BlockKind::Body
        };
        out.push(Block { position: state.parts[j], kind });
        j = j + 1;
    }
    out.push(Block { position: state.fruit, kind: BlockKind::Fruit });
    assert(out@ =~= drawn_blocks(state@)) by {
        let d = drawn_blocks(state@);
        assert forall|k: int| nw <= k < nw + np implies out@[k] == d[k] by {
            assert(out@[nw + (k - nw)] == d[k]);
        }
    }
    out
}

/// The status to show for `state`.
pub fn status(state: &PlayState) -> (r: Status)
    ensures
        r == (if state.dead {
            Status::Dead
        } else {
            Status::Playing(state.parts@.len() as usize)
        }),
{
    if state.dead {
        Status::Dead
    } else {
        Status::Playing(state.parts.len())
    }
}

} // verus!
