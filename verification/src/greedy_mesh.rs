//! Greedy meshing: merging the visible faces of a chunk's blocks into rectangles.
//!
//! Blocks are laid out in a flat array whose cell of coordinates `(x, y, z)` is
//! `x + y * GRID_EDGE + z * GRID_EDGE * GRID_EDGE`. Faces are handled one layer at a time:
//! a layer is the slice at one coordinate along an axis, with one facing direction.

use vstd::prelude::*;
use crate::world_types::BlockId;

verus! {

/// Edge of the block grid that cell indices are laid out for.
pub const GRID_EDGE: usize = 50;

/// Flat cell index of the coordinates whose `axis` component is `layer`, whose `u_axis`
/// component is `u` and whose `v_axis` component is `v` (later components win where two axes
/// coincide; unnamed components are 0).
pub open spec fn grid_index(axis: int, layer: int, u: int, v: int, u_axis: int, v_axis: int) -> int {
    let c0 = if v_axis == 0 { v } else if u_axis == 0 { u } else if axis == 0 { layer } else { 0 };
    let c1 = if v_axis == 1 { v } else if u_axis == 1 { u } else if axis == 1 { layer } else { 0 };
    let c2 = if v_axis == 2 { v } else if u_axis == 2 { u } else if axis == 2 { layer } else { 0 };
    c0 + c1 * 50 + c2 * 2500
}

/// Flat cell index of the given coordinates.
pub fn get_block_index(
    axis: usize,
    layer: usize,
    u: usize,
    v: usize,
    u_axis: usize,
    v_axis: usize,
) -> (r: usize)
    requires
        axis < 3,
        u_axis < 3,
        v_axis < 3,
        layer * 2551 <= usize::MAX,
        u * 2551 <= usize::MAX,
        v * 2551 <= usize::MAX,
    ensures
        r == grid_index(axis as int, layer as int, u as int, v as int, u_axis as int, v_axis as int),
{
    let c0 = if v_axis == 0 { v } else if u_axis == 0 { u } else if axis == 0 { layer } else { 0 };
    let c1 = if v_axis == 1 { v } else if u_axis == 1 { u } else if axis == 1 { layer } else { 0 };
    let c2 = if v_axis == 2 { v } else if u_axis == 2 { u } else if axis == 2 { layer } else { 0 };
    assert(c0 * 2551 <= usize::MAX && c1 * 2551 <= usize::MAX && c2 * 2551 <= usize::MAX);
    assert(c0 + c1 * 50 + c2 * 2500 <= usize::MAX) by (nonlinear_arith)
        requires
            c0 * 2551 <= usize::MAX,
            c1 * 2551 <= usize::MAX,
            c2 * 2551 <= usize::MAX,
    ;
    c0 + c1 * GRID_EDGE + c2 * (GRID_EDGE * GRID_EDGE)
}

/// One layer of faces: the faces that look along `axis` (towards lower coordinates where
/// `direction` is 0, towards higher ones otherwise) of the blocks at coordinate `layer`, with
/// `u_axis` and `v_axis` spanning the layer.
#[derive(Clone, Copy, Debug, PartialEq, Eq, Structural)]
pub struct FaceLayer {
    pub chunk_size: usize,
    pub axis: usize,
    pub direction: usize,
    pub layer: usize,
    pub u_axis: usize,
    pub v_axis: usize,
}

impl FaceLayer {
    /// The axes are axes, the layer lies in the chunk and every cell index of the chunk fits
    /// in a `usize`.
    pub open spec fn wf(self) -> bool {
        &&& self.axis < 3
        &&& self.u_axis < 3
        &&& self.v_axis < 3
        &&& self.layer < self.chunk_size
        &&& self.chunk_size * 2551 <= usize::MAX
    }

    /// Cell index of the position `(u, v)` of this layer.
    pub open spec fn idx(self, u: int, v: int) -> int {
        grid_index(self.axis as int, self.layer as int, u, v, self.u_axis as int, self.v_axis as int)
    }

    /// Whether `(u, v)` lies in the layer.
    pub open spec fn inside(self, u: int, v: int) -> bool {
        0 <= u < self.chunk_size && 0 <= v < self.chunk_size
    }
}

/// A rectangle of merged faces: `width` cells along the layer's `u` axis and `height` along
/// its `v` axis from `(u, v)`, all of block `block`; `light` is the light level sampled at
/// the rectangle's centre, where the light data reaches it.
#[derive(Clone, Copy, Debug, PartialEq, Eq, Structural)]
pub struct GreedyQuad {
    pub axis: usize,
    pub direction: usize,
    pub layer: usize,
    pub u: usize,
    pub v: usize,
    pub width: usize,
    pub height: usize,
    pub block: BlockId,
    pub light: Option<u8>,
}

/// Whether the face of the block at `(u, v)` is exposed: it lies on the chunk's border in its
/// direction, or the neighbouring cell is outside the block array or holds air.
pub open spec fn face_visible(l: FaceLayer, blocks: Seq<BlockId>, u: int, v: int) -> bool {
    if l.direction == 0 {
        l.layer == 0 || {
            let n = grid_index(l.axis as int, l.layer - 1, u, v, l.u_axis as int, l.v_axis as int);
            n >= blocks.len() || blocks[n].0 == 0
        }
    } else {
        l.layer == l.chunk_size - 1 || {
            let n = grid_index(l.axis as int, l.layer + 1, u, v, l.u_axis as int, l.v_axis as int);
            n >= blocks.len() || blocks[n].0 == 0
        }
    }
}

/// Whether `(u, v)` starts a face: it lies in the layer and in the block array, holds a
/// block other than air, and its face is exposed.
pub open spec fn eligible(l: FaceLayer, blocks: Seq<BlockId>, u: int, v: int) -> bool {
    &&& l.inside(u, v)
    &&& l.idx(u, v) < blocks.len()
    &&& blocks[l.idx(u, v)].0 != 0
    &&& face_visible(l, blocks, u, v)
}

/// Whether the cell index `i` is one of the cells of the rectangle of `width` by `height`
/// positions from `(u0, v0)`.
#[verifier::opaque]
pub open spec fn in_rect(l: FaceLayer, u0: int, v0: int, width: int, height: int, i: int) -> bool {
    exists|u: int, v: int|
        u0 <= u < u0 + width && v0 <= v < v0 + height && #[trigger] l.idx(u, v) == i
}

/// Whether the cell index `i` is one of the cells of the rectangle `q`.
pub open spec fn in_quad(l: FaceLayer, q: GreedyQuad, i: int) -> bool {
    in_rect(l, q.u as int, q.v as int, q.width as int, q.height as int, i)
}

/// Whether the cell index `i` is covered by one of the rectangles `qs`.
pub open spec fn covered(l: FaceLayer, qs: Seq<GreedyQuad>, i: int) -> bool
    decreases qs.len(),
{
    if qs.len() == 0 {
        false
    } else {
        covered(l, qs.drop_last(), i) || in_quad(l, qs.last(), i)
    }
}

/// Whether a rectangle may grow over `(u, v)`: it lies in the layer and the block array, is
/// not covered yet, and holds `block`.
pub open spec fn fits(
    l: FaceLayer,
    blocks: Seq<BlockId>,
    prefix: Seq<GreedyQuad>,
    u: int,
    v: int,
    block: BlockId,
) -> bool {
    &&& l.inside(u, v)
    &&& l.idx(u, v) < blocks.len()
    &&& !covered(l, prefix, l.idx(u, v))
    &&& blocks[l.idx(u, v)] == block
}

/// The rectangle `q` grows first along `u` as far as cells fit, then along `v` as far as
/// whole rows fit.
pub open spec fn maximal_rect(
    l: FaceLayer,
    blocks: Seq<BlockId>,
    prefix: Seq<GreedyQuad>,
    q: GreedyQuad,
) -> bool {
    &&& 1 <= q.width && q.u + q.width <= l.chunk_size
    &&& 1 <= q.height && q.v + q.height <= l.chunk_size
    &&& forall|u: int| q.u <= u < q.u + q.width ==> #[trigger] fits(l, blocks, prefix, u, q.v as int, q.block)
    &&& (q.u + q.width == l.chunk_size || !fits(l, blocks, prefix, q.u + q.width, q.v as int, q.block))
    &&& forall|u: int, v: int| q.u <= u < q.u + q.width && q.v < v < q.v + q.height
        ==> #[trigger] fits(l, blocks, prefix, u, v, q.block)
    &&& (q.v + q.height == l.chunk_size || exists|u: int| q.u <= u < q.u + q.width
        && !#[trigger] fits(l, blocks, prefix, u, q.v + q.height, q.block))
}

/// The light level at `(u, v)`, where the light data reaches it.
pub open spec fn light_at(l: FaceLayer, lights: Seq<u8>, u: int, v: int) -> Option<u8> {
    if l.idx(u, v) < lights.len() {
        Some(lights[l.idx(u, v)])
    } else {
        None
    }
}

/// Whether `(u, v)` comes before `(su, sv)` in the scan order (by `u`, then by `v`).
pub open spec fn scan_before(u: int, v: int, su: int, sv: int) -> bool {
    u < su || (u == su && v < sv)
}

/// Whether `q` is the rectangle the scan emits after the rectangles `prefix`: it starts at
/// the first position, in scan order, that starts a face and is not covered yet, and is the
/// maximal rectangle from there.
pub open spec fn greedy_step(
    l: FaceLayer,
    blocks: Seq<BlockId>,
    lights: Seq<u8>,
    prefix: Seq<GreedyQuad>,
    q: GreedyQuad,
) -> bool {
    &&& q.axis == l.axis && q.direction == l.direction && q.layer == l.layer
    &&& eligible(l, blocks, q.u as int, q.v as int)
    &&& !covered(l, prefix, l.idx(q.u as int, q.v as int))
    &&& forall|u: int, v: int| scan_before(u, v, q.u as int, q.v as int) && #[trigger] eligible(
        l,
        blocks,
        u,
        v,
    ) ==> covered(l, prefix, l.idx(u, v))
    &&& q.block == blocks[l.idx(q.u as int, q.v as int)]
    &&& maximal_rect(l, blocks, prefix, q)
    &&& q.light == light_at(l, lights, q.u + q.width / 2, q.v + q.height / 2)
}

/// Whether `qs` is what greedy meshing makes of the layer: each rectangle is the next step
/// after those before it, and together they cover every position that starts a face.
pub open spec fn is_greedy_layer(
    l: FaceLayer,
    blocks: Seq<BlockId>,
    lights: Seq<u8>,
    qs: Seq<GreedyQuad>,
) -> bool {
    &&& forall|k: int| 0 <= k < qs.len() ==> greedy_step(l, blocks, lights, qs.take(k), #[trigger] qs[k])
    &&& forall|u: int, v: int| #[trigger] eligible(l, blocks, u, v) ==> covered(l, qs, l.idx(u, v))
}

/// Every cell index of the layer fits the bounds `get_block_index` needs.
proof fn lemma_index_bound(l: FaceLayer, layer: int, u: int, v: int)
    requires
        l.wf(),
        0 <= layer < l.chunk_size,
        0 <= u < l.chunk_size,
        0 <= v < l.chunk_size,
    ensures
        0 <= grid_index(l.axis as int, layer, u, v, l.u_axis as int, l.v_axis as int) <= usize::MAX,
        layer * 2551 <= usize::MAX,
        u * 2551 <= usize::MAX,
        v * 2551 <= usize::MAX,
{
}

/// Adding a rectangle covers what was covered and the rectangle's cells.
proof fn lemma_covered_push(l: FaceLayer, qs: Seq<GreedyQuad>, q: GreedyQuad, i: int)
    ensures
        covered(l, qs.push(q), i) == (covered(l, qs, i) || in_quad(l, q, i)),
{
    assert(qs.push(q).drop_last() =~= qs);
}

/// Whether the face of the block at `(u, v)` is exposed.
pub fn should_render_face(blocks: &[BlockId], l: &FaceLayer, u: usize, v: usize) -> (r: bool)
    requires
        l.wf(),
        u < l.chunk_size,
        v < l.chunk_size,
    ensures
        r == face_visible(*l, blocks@, u as int, v as int),
{
    let neighbor_layer = if l.direction == 0 {
        if l.layer == 0 {
            return true;
        }
        l.layer - 1
    } else {
        if l.layer == l.chunk_size - 1 {
            return true;
        }
        l.layer + 1
    };
    proof {
        lemma_index_bound(*l, neighbor_layer as int, u as int, v as int);
    }
    let neighbor_index = get_block_index(l.axis, neighbor_layer, u, v, l.u_axis, l.v_axis);
    if neighbor_index >= blocks.len() {
        return true;
    }
    blocks[neighbor_index].0 == 0
}

/// Whether a rectangle may grow over `(u, v)`, judged by the visited marks.
pub open spec fn fits_unvisited(
    l: FaceLayer,
    blocks: Seq<BlockId>,
    visited: Seq<bool>,
    u: int,
    v: int,
    block: BlockId,
) -> bool {
    &&& l.inside(u, v)
    &&& l.idx(u, v) < blocks.len()
    &&& !visited[l.idx(u, v)]
    &&& blocks[l.idx(u, v)] == block
}

/// Whether the cell `(u, v)` fits, read from the arrays.
fn cell_fits(
    visited: &Vec<bool>,
    blocks: &[BlockId],
    l: &FaceLayer,
    u: usize,
    v: usize,
    block: BlockId,
) -> (r: bool)
    requires
        l.wf(),
        u < l.chunk_size,
        v < l.chunk_size,
        blocks.len() <= visited.len(),
    ensures
        r == fits_unvisited(*l, blocks@, visited@, u as int, v as int, block),
{
    proof {
        lemma_index_bound(*l, l.layer as int, u as int, v as int);
    }
    let index = get_block_index(l.axis, l.layer, u, v, l.u_axis, l.v_axis);
    index < blocks.len() && !visited[index] && blocks[index] == block
}

/// The largest rectangle of `block` from `(start_u, start_v)` over unvisited cells: first as
/// wide as cells fit along `u`, then as tall as whole rows fit along `v`.
pub fn find_quad_size(
    visited: &Vec<bool>,
    blocks: &[BlockId],
    l: &FaceLayer,
    start_u: usize,
    start_v: usize,
    block: BlockId,
) -> (r: (usize, usize))
    requires
        l.wf(),
        start_u < l.chunk_size,
        start_v < l.chunk_size,
        blocks.len() <= visited.len(),
    ensures
        1 <= r.0 && start_u + r.0 <= l.chunk_size,
        1 <= r.1 && start_v + r.1 <= l.chunk_size,
        forall|u: int|
            start_u < u < start_u + r.0 ==> #[trigger] fits_unvisited(
                *l,
                blocks@,
                visited@,
                u,
                start_v as int,
                block,
            ),
        start_u + r.0 == l.chunk_size || !fits_unvisited(
            *l,
            blocks@,
            visited@,
            start_u + r.0,
            start_v as int,
            block,
        ),
        forall|u: int, v: int|
            start_u <= u < start_u + r.0 && start_v < v < start_v + r.1 ==> #[trigger] fits_unvisited(
                *l,
                blocks@,
                visited@,
                u,
                v,
                block,
            ),
        start_v + r.1 == l.chunk_size || exists|u: int|
            start_u <= u < start_u + r.0 && !#[trigger] fits_unvisited(
                *l,
                blocks@,
                visited@,
                u,
                start_v + r.1,
                block,
            ),
{
    let cs = l.chunk_size;
    let mut width: usize = 1;
    while start_u + width < cs
        invariant
            l.wf(),
            cs == l.chunk_size,
            start_u < cs,
            start_v < cs,
            blocks.len() <= visited.len(),
            1 <= width,
            start_u + width <= cs,
            forall|u: int|
                start_u < u < start_u + width ==> #[trigger] fits_unvisited(
                    *l,
                    blocks@,
                    visited@,
                    u,
                    start_v as int,
                    block,
                ),
        ensures
            start_u + width == cs || !fits_unvisited(
                *l,
                blocks@,
                visited@,
                start_u + width,
                start_v as int,
                block,
            ),
        decreases cs - width,
    {
        if !cell_fits(visited, blocks, l, start_u + width, start_v, block) {
            break;
        }
        width += 1;
    }
    let mut height: usize = 1;
    while start_v + height < cs
        invariant
            l.wf(),
            cs == l.chunk_size,
            start_u < cs,
            start_v < cs,
            blocks.len() <= visited.len(),
            1 <= width,
            start_u + width <= cs,
            1 <= height,
            start_v + height <= cs,
            forall|u: int, v: int|
                start_u <= u < start_u + width && start_v < v < start_v + height
                    ==> #[trigger] fits_unvisited(*l, blocks@, visited@, u, v, block),
        ensures
            start_v + height == cs || exists|u: int|
                start_u <= u < start_u + width && !#[trigger] fits_unvisited(
                    *l,
                    blocks@,
                    visited@,
                    u,
                    start_v + height,
                    block,
                ),
        decreases cs - height,
    {
        let row = start_v + height;
        let mut offset: usize = 0;
        let mut row_fits = true;
        while offset < width
            invariant_except_break
                row_fits,
            invariant
                l.wf(),
                cs == l.chunk_size,
                start_u + width <= cs,
                row < cs,
                blocks.len() <= visited.len(),
                offset <= width,
                forall|u: int|
                    start_u <= u < start_u + offset ==> #[trigger] fits_unvisited(
                        *l,
                        blocks@,
                        visited@,
                        u,
                        row as int,
                        block,
                    ),
            ensures
                row_fits ==> forall|u: int|
                    start_u <= u < start_u + width ==> #[trigger] fits_unvisited(
                        *l,
                        blocks@,
                        visited@,
                        u,
                        row as int,
                        block,
                    ),
                !row_fits ==> exists|u: int|
                    start_u <= u < start_u + width && !#[trigger] fits_unvisited(
                        *l,
                        blocks@,
                        visited@,
                        u,
                        row as int,
                        block,
                    ),
            decreases width - offset,
        {
            if !cell_fits(visited, blocks, l, start_u + offset, row, block) {
                row_fits = false;
                break;
            }
            offset += 1;
        }
        if !row_fits {
            break;
        }
        height += 1;
    }
    (width, height)
}

/// The marks agree with the rectangles: a cell of the layer is marked exactly when a
/// rectangle covers its index.
pub open spec fn marks_agree(l: FaceLayer, visited: Seq<bool>, qs: Seq<GreedyQuad>) -> bool {
    forall|u: int, v: int|
        #![trigger l.idx(u, v)]
        l.inside(u, v) && 0 <= l.idx(u, v) < visited.len() ==> visited[l.idx(u, v)] == covered(
            l,
            qs,
            l.idx(u, v),
        )
}

/// Each rectangle is the greedy step after those before it.
pub open spec fn steps_agree(
    l: FaceLayer,
    blocks: Seq<BlockId>,
    lights: Seq<u8>,
    qs: Seq<GreedyQuad>,
) -> bool {
    forall|k: int| 0 <= k < qs.len() ==> greedy_step(l, blocks, lights, qs.take(k), #[trigger] qs[k])
}

/// A rectangle without width or height has no cells.
proof fn lemma_rect_empty(l: FaceLayer, u0: int, v0: int, w: int, h: int, i: int)
    requires
        w <= 0 || h <= 0,
    ensures
        !in_rect(l, u0, v0, w, h, i),
{
    reveal(in_rect);
}

/// A rectangle one column wider is the old one and the new column.
proof fn lemma_rect_wider(l: FaceLayer, u0: int, v0: int, w: int, w1: int, h: int, i: int)
    requires
        0 <= w,
        w1 == w + 1,
    ensures
        in_rect(l, u0, v0, w1, h, i) == (in_rect(l, u0, v0, w, h, i) || in_rect(
            l,
            u0 + w,
            v0,
            1,
            h,
            i,
        )),
{
    reveal(in_rect);
    if in_rect(l, u0, v0, w + 1, h, i) {
        let (u, v) = choose|u: int, v: int|
            u0 <= u < u0 + w + 1 && v0 <= v < v0 + h && #[trigger] l.idx(u, v) == i;
        if u < u0 + w {
            assert(u0 <= u < u0 + w && v0 <= v < v0 + h && l.idx(u, v) == i);
        } else {
            assert(u0 + w <= u < u0 + w + 1 && v0 <= v < v0 + h && l.idx(u, v) == i);
        }
    }
    if in_rect(l, u0, v0, w, h, i) {
        let (u, v) = choose|u: int, v: int|
            u0 <= u < u0 + w && v0 <= v < v0 + h && #[trigger] l.idx(u, v) == i;
        assert(u0 <= u < u0 + w + 1 && v0 <= v < v0 + h && l.idx(u, v) == i);
    }
    if in_rect(l, u0 + w, v0, 1, h, i) {
        let (u, v) = choose|u: int, v: int|
            u0 + w <= u < u0 + w + 1 && v0 <= v < v0 + h && #[trigger] l.idx(u, v) == i;
        assert(u0 <= u < u0 + w + 1 && v0 <= v < v0 + h && l.idx(u, v) == i);
    }
}

/// A column one cell taller is the old column and the new cell.
proof fn lemma_column_taller(l: FaceLayer, u0: int, v0: int, h: int, h1: int, i: int)
    requires
        0 <= h,
        h1 == h + 1,
    ensures
        in_rect(l, u0, v0, 1, h1, i) == (in_rect(l, u0, v0, 1, h, i) || l.idx(u0, v0 + h) == i),
{
    reveal(in_rect);
    if in_rect(l, u0, v0, 1, h + 1, i) {
        let (u, v) = choose|u: int, v: int|
            u0 <= u < u0 + 1 && v0 <= v < v0 + h + 1 && #[trigger] l.idx(u, v) == i;
        if v < v0 + h {
            assert(u0 <= u < u0 + 1 && v0 <= v < v0 + h && l.idx(u, v) == i);
        }
    }
    if in_rect(l, u0, v0, 1, h, i) {
        let (u, v) = choose|u: int, v: int|
            u0 <= u < u0 + 1 && v0 <= v < v0 + h && #[trigger] l.idx(u, v) == i;
        assert(u0 <= u < u0 + 1 && v0 <= v < v0 + h + 1 && l.idx(u, v) == i);
    }
    if l.idx(u0, v0 + h) == i {
        assert(u0 <= u0 < u0 + 1 && v0 <= v0 + h < v0 + h + 1 && l.idx(u0, v0 + h) == i);
    }
}

/// Marks every cell of the rectangle of `width` by `height` positions from `(u, v)`.
fn mark_visited(
    visited: &mut Vec<bool>,
    l: &FaceLayer,
    u: usize,
    v: usize,
    width: usize,
    height: usize,
)
    requires
        l.wf(),
        u + width <= l.chunk_size,
        v + height <= l.chunk_size,
    ensures
        final(visited).len() == old(visited).len(),
        forall|i: int|
            #![trigger final(visited)@[i]]
            0 <= i < old(visited).len() ==> final(visited)@[i] == (old(visited)@[i] || in_rect(
                *l,
                u as int,
                v as int,
                width as int,
                height as int,
                i,
            )),
{
    let ghost start = visited@;
    let mut du: usize = 0;
    assert forall|i: int| #![trigger visited@[i]] 0 <= i < start.len() implies visited@[i] == (start[i] || in_rect(
        *l,
        u as int,
        v as int,
        du as int,
        height as int,
        i,
    )) by {
        lemma_rect_empty(*l, u as int, v as int, 0, height as int, i);
    }
    while du < width
        invariant
            l.wf(),
            u + width <= l.chunk_size,
            v + height <= l.chunk_size,
            du <= width,
            visited.len() == start.len(),
            forall|i: int|
                #![trigger visited@[i]]
                0 <= i < start.len() ==> visited@[i] == (start[i] || in_rect(
                    *l,
                    u as int,
                    v as int,
                    du as int,
                    height as int,
                    i,
                )),
        decreases width - du,
    {
        let mut dv: usize = 0;
        assert forall|i: int| #![trigger visited@[i]] 0 <= i < start.len() implies visited@[i] == (start[i] || in_rect(
            *l,
            u as int,
            v as int,
            du as int,
            height as int,
            i,
        ) || in_rect(*l, u + du, v as int, 1, dv as int, i)) by {
            lemma_rect_empty(*l, u + du, v as int, 1, 0, i);
        }
        while dv < height
            invariant
                l.wf(),
                u + width <= l.chunk_size,
                v + height <= l.chunk_size,
                du < width,
                dv <= height,
                visited.len() == start.len(),
                forall|i: int|
                #![trigger visited@[i]]
                    0 <= i < start.len() ==> visited@[i] == (start[i] || in_rect(
                        *l,
                        u as int,
                        v as int,
                        du as int,
                        height as int,
                        i,
                    ) || in_rect(*l, u + du, v as int, 1, dv as int, i)),
            decreases height - dv,
        {
            proof {
                lemma_index_bound(*l, l.layer as int, (u + du) as int, (v + dv) as int);
            }
            let index = get_block_index(l.axis, l.layer, u + du, v + dv, l.u_axis, l.v_axis);
            let ghost prev = visited@;
            if index < visited.len() {
                visited.set(index, true);
            }
            let ghost old_dv = dv as int;
            dv += 1;
            proof {
                assert forall|i: int| #![trigger visited@[i]] 0 <= i < start.len() implies visited@[i] == (start[i]
                    || in_rect(*l, u as int, v as int, du as int, height as int, i) || in_rect(
                    *l,
                    u + du,
                    v as int,
                    1,
                    dv as int,
                    i,
                )) by {
                    assert(prev[i] == (start[i] || in_rect(
                        *l,
                        u as int,
                        v as int,
                        du as int,
                        height as int,
                        i,
                    ) || in_rect(*l, u + du, v as int, 1, old_dv, i)));
                    lemma_column_taller(*l, u + du, v as int, old_dv, dv as int, i);
                    assert(index == l.idx(u + du, v + old_dv));
                    if index < start.len() && i == index {
                        assert(visited@[i]);
                    } else {
                        assert(visited@[i] == prev[i]);
                    }
                }
            }
        }
        let ghost old_du = du as int;
        du += 1;
        proof {
            assert forall|i: int| #![trigger visited@[i]] 0 <= i < start.len() implies visited@[i] == (start[i] || in_rect(
                *l,
                u as int,
                v as int,
                du as int,
                height as int,
                i,
            )) by {
                lemma_rect_wider(*l, u as int, v as int, old_du, du as int, height as int, i);
            }
        }
    }
}

/// Where the marks agree with the rectangles, a cell fits by the marks exactly when it fits
/// by the rectangles.
proof fn lemma_fits_agree(
    l: FaceLayer,
    blocks: Seq<BlockId>,
    visited: Seq<bool>,
    qs: Seq<GreedyQuad>,
    block: BlockId,
)
    requires
        marks_agree(l, visited, qs),
        blocks.len() <= visited.len(),
    ensures
        forall|u: int, v: int|
            #![trigger fits(l, blocks, qs, u, v, block)]
            #![trigger fits_unvisited(l, blocks, visited, u, v, block)]
            fits(l, blocks, qs, u, v, block) == fits_unvisited(l, blocks, visited, u, v, block),
{
    assert forall|u: int, v: int|
        fits(l, blocks, qs, u, v, block) == fits_unvisited(l, blocks, visited, u, v, block) by {
        if l.inside(u, v) && l.idx(u, v) < blocks.len() {
            assert(0 <= l.idx(u, v));
        }
    }
}

/// The rectangle found from an uncovered starting position is the next greedy step.
proof fn lemma_new_quad_step(
    l: FaceLayer,
    blocks: Seq<BlockId>,
    lights: Seq<u8>,
    visited: Seq<bool>,
    qs: Seq<GreedyQuad>,
    q: GreedyQuad,
)
    requires
        l.wf(),
        marks_agree(l, visited, qs),
        blocks.len() <= visited.len(),
        q.axis == l.axis && q.direction == l.direction && q.layer == l.layer,
        eligible(l, blocks, q.u as int, q.v as int),
        !visited[l.idx(q.u as int, q.v as int)],
        q.block == blocks[l.idx(q.u as int, q.v as int)],
        forall|u: int, v: int|
            scan_before(u, v, q.u as int, q.v as int) && #[trigger] eligible(l, blocks, u, v)
                ==> covered(l, qs, l.idx(u, v)),
        1 <= q.width && q.u + q.width <= l.chunk_size,
        1 <= q.height && q.v + q.height <= l.chunk_size,
        forall|u: int|
            q.u < u < q.u + q.width ==> #[trigger] fits_unvisited(
                l,
                blocks,
                visited,
                u,
                q.v as int,
                q.block,
            ),
        q.u + q.width == l.chunk_size || !fits_unvisited(
            l,
            blocks,
            visited,
            q.u + q.width,
            q.v as int,
            q.block,
        ),
        forall|u: int, v: int|
            q.u <= u < q.u + q.width && q.v < v < q.v + q.height ==> #[trigger] fits_unvisited(
                l,
                blocks,
                visited,
                u,
                v,
                q.block,
            ),
        q.v + q.height == l.chunk_size || exists|u: int|
            q.u <= u < q.u + q.width && !#[trigger] fits_unvisited(
                l,
                blocks,
                visited,
                u,
                q.v + q.height,
                q.block,
            ),
        q.light == light_at(l, lights, q.u + q.width / 2, q.v + q.height / 2),
    ensures
        greedy_step(l, blocks, lights, qs, q),
{
    lemma_fits_agree(l, blocks, visited, qs, q.block);
    assert(fits_unvisited(l, blocks, visited, q.u as int, q.v as int, q.block));
    assert forall|u: int| q.u <= u < q.u + q.width implies #[trigger] fits(
        l,
        blocks,
        qs,
        u,
        q.v as int,
        q.block,
    ) by {
        assert(fits_unvisited(l, blocks, visited, u, q.v as int, q.block));
    }
    if q.v + q.height != l.chunk_size {
        let w = choose|u: int|
            q.u <= u < q.u + q.width && !#[trigger] fits_unvisited(
                l,
                blocks,
                visited,
                u,
                q.v + q.height,
                q.block,
            );
        assert(!fits(l, blocks, qs, w, q.v + q.height, q.block));
    }
    assert(maximal_rect(l, blocks, qs, q));
}

/// Adding the next greedy step keeps every rectangle a greedy step.
proof fn lemma_steps_push(
    l: FaceLayer,
    blocks: Seq<BlockId>,
    lights: Seq<u8>,
    qs: Seq<GreedyQuad>,
    q: GreedyQuad,
)
    requires
        steps_agree(l, blocks, lights, qs),
        greedy_step(l, blocks, lights, qs, q),
    ensures
        steps_agree(l, blocks, lights, qs.push(q)),
{
    let new_qs = qs.push(q);
    assert forall|k: int| 0 <= k < new_qs.len() implies greedy_step(
        l,
        blocks,
        lights,
        new_qs.take(k),
        #[trigger] new_qs[k],
    ) by {
        if k < qs.len() {
            assert(new_qs.take(k) =~= qs.take(k));
        } else {
            assert(new_qs.take(k) =~= qs);
        }
    }
}

/// Marking the cells of a new rectangle keeps the marks in agreement.
proof fn lemma_marks_push(
    l: FaceLayer,
    before: Seq<bool>,
    after: Seq<bool>,
    qs: Seq<GreedyQuad>,
    q: GreedyQuad,
)
    requires
        marks_agree(l, before, qs),
        after.len() == before.len(),
        forall|i: int| 0 <= i < before.len() ==> after[i] == (before[i] || in_quad(l, q, i)),
    ensures
        marks_agree(l, after, qs.push(q)),
{
    assert forall|u: int, v: int|
        #![trigger l.idx(u, v)]
        l.inside(u, v) && 0 <= l.idx(u, v) < after.len() implies after[l.idx(u, v)] == covered(
            l,
            qs.push(q),
            l.idx(u, v),
        ) by {
        lemma_covered_push(l, qs, q, l.idx(u, v));
    }
}

/// After the position `(u, v)` is handled, every position up to it that starts a face is
/// covered.
proof fn lemma_scan_push(
    l: FaceLayer,
    blocks: Seq<BlockId>,
    qs: Seq<GreedyQuad>,
    q: GreedyQuad,
    u: int,
    v: int,
)
    requires
        forall|uu: int, vv: int|
            scan_before(uu, vv, u, v) && #[trigger] eligible(l, blocks, uu, vv) ==> covered(
                l,
                qs,
                l.idx(uu, vv),
            ),
        q.u == u && q.v == v && 1 <= q.width && 1 <= q.height,
    ensures
        forall|uu: int, vv: int|
            scan_before(uu, vv, u, v + 1) && #[trigger] eligible(l, blocks, uu, vv) ==> covered(
                l,
                qs.push(q),
                l.idx(uu, vv),
            ),
{
    reveal(in_rect);
    assert forall|uu: int, vv: int|
        scan_before(uu, vv, u, v + 1) && #[trigger] eligible(l, blocks, uu, vv) implies covered(
        l,
        qs.push(q),
        l.idx(uu, vv),
    ) by {
        lemma_covered_push(l, qs, q, l.idx(uu, vv));
        if uu == u && vv == v {
            assert(q.u <= uu < q.u + q.width && q.v <= vv < q.v + q.height && l.idx(uu, vv)
                == l.idx(uu, vv));
        }
    }
}

/// The rectangles greedy meshing makes of one layer, in scan order. `visited` is scratch
/// space for the marks of covered cells and keeps its length.
pub fn build_layer_quads(
    visited: &mut Vec<bool>,
    blocks: &[BlockId],
    light_data: &[u8],
    l: &FaceLayer,
) -> (qs: Vec<GreedyQuad>)
    requires
        l.wf(),
        blocks.len() <= old(visited).len(),
    ensures
        final(visited).len() == old(visited).len(),
        is_greedy_layer(*l, blocks@, light_data@, qs@),
{
    let cs = l.chunk_size;
    let ghost n = visited.len();
    for u in 0..cs
        invariant
            l.wf(),
            cs == l.chunk_size,
            visited.len() == n,
            blocks.len() <= n,
            forall|uu: int, vv: int|
                #![trigger l.idx(uu, vv)]
                0 <= uu < u && 0 <= vv < cs && 0 <= l.idx(uu, vv) < n ==> !visited@[l.idx(uu, vv)],
    {
        for v in 0..cs
            invariant
                l.wf(),
                cs == l.chunk_size,
                u < cs,
                visited.len() == n,
                blocks.len() <= n,
                forall|uu: int, vv: int|
                    #![trigger l.idx(uu, vv)]
                    0 <= uu < u && 0 <= vv < cs && 0 <= l.idx(uu, vv) < n ==> !visited@[l.idx(
                        uu,
                        vv,
                    )],
                forall|vv: int|
                    #![trigger l.idx(u as int, vv)]
                    0 <= vv < v && 0 <= l.idx(u as int, vv) < n ==> !visited@[l.idx(u as int, vv)],
        {
            proof {
                lemma_index_bound(*l, l.layer as int, u as int, v as int);
            }
            let index = get_block_index(l.axis, l.layer, u, v, l.u_axis, l.v_axis);
            if index < visited.len() {
                visited.set(index, false);
            }
        }
    }
    let mut qs: Vec<GreedyQuad> = Vec::new();
    proof {
        assert forall|uu: int, vv: int|
            #![trigger l.idx(uu, vv)]
            l.inside(uu, vv) && 0 <= l.idx(uu, vv) < visited@.len() implies visited@[l.idx(uu, vv)]
            == covered(*l, qs@, l.idx(uu, vv)) by {}
    }
    for u in 0..cs
        invariant
            l.wf(),
            cs == l.chunk_size,
            visited.len() == n,
            blocks.len() <= n,
            marks_agree(*l, visited@, qs@),
            steps_agree(*l, blocks@, light_data@, qs@),
            forall|uu: int, vv: int|
                uu < u && #[trigger] eligible(*l, blocks@, uu, vv) ==> covered(
                    *l,
                    qs@,
                    l.idx(uu, vv),
                ),
    {
        for v in 0..cs
            invariant
                l.wf(),
                cs == l.chunk_size,
                u < cs,
                visited.len() == n,
                blocks.len() <= n,
                marks_agree(*l, visited@, qs@),
                steps_agree(*l, blocks@, light_data@, qs@),
                forall|uu: int, vv: int|
                    scan_before(uu, vv, u as int, v as int) && #[trigger] eligible(
                        *l,
                        blocks@,
                        uu,
                        vv,
                    ) ==> covered(*l, qs@, l.idx(uu, vv)),
        {
            proof {
                lemma_index_bound(*l, l.layer as int, u as int, v as int);
            }
            let index = get_block_index(l.axis, l.layer, u, v, l.u_axis, l.v_axis);
            if index < blocks.len() && !visited[index] && blocks[index].0 != 0
                && should_render_face(blocks, l, u, v) {
                let block = blocks[index];
                let (width, height) = find_quad_size(visited, blocks, l, u, v, block);
                let ghost before = visited@;
                mark_visited(visited, l, u, v, width, height);
                proof {
                    lemma_index_bound(
                        *l,
                        l.layer as int,
                        (u + width / 2) as int,
                        (v + height / 2) as int,
                    );
                }
                let light_index = get_block_index(
                    l.axis,
                    l.layer,
                    u + width / 2,
                    v + height / 2,
                    l.u_axis,
                    l.v_axis,
                );
                let light = if light_index < light_data.len() {
                    Some(light_data[light_index])
                } else {
                    None
                };
                let q = GreedyQuad {
                    axis: l.axis,
                    direction: l.direction,
                    layer: l.layer,
                    u,
                    v,
                    width,
                    height,
                    block,
                    light,
                };
                proof {
                    if v + height != cs {
                        let w = choose|w: int|
                            u <= w < u + width && !#[trigger] fits_unvisited(
                                *l,
                                blocks@,
                                before,
                                w,
                                v + height,
                                block,
                            );
                        assert(q.u <= w < q.u + q.width && !fits_unvisited(
                            *l,
                            blocks@,
                            before,
                            w,
                            q.v + q.height,
                            q.block,
                        ));
                    }
                    lemma_new_quad_step(*l, blocks@, light_data@, before, qs@, q);
                    lemma_steps_push(*l, blocks@, light_data@, qs@, q);
                    lemma_marks_push(*l, before, visited@, qs@, q);
                    lemma_scan_push(*l, blocks@, qs@, q, u as int, v as int);
                }
                qs.push(q);
            } else {
                proof {
                    assert forall|uu: int, vv: int|
                        scan_before(uu, vv, u as int, v + 1) && #[trigger] eligible(
                            *l,
                            blocks@,
                            uu,
                            vv,
                        ) implies covered(*l, qs@, l.idx(uu, vv)) by {
                        if uu == u && vv == v {
                            assert(visited@[l.idx(uu, vv)] == covered(*l, qs@, l.idx(uu, vv)));
                        }
                    }
                }
            }
        }
    }
    qs
}

/// The axes that span the layers along `axis`: the other two, in order.
pub open spec fn plane_axes(axis: int) -> (int, int) {
    if axis == 0 {
        (1, 2)
    } else if axis == 1 {
        (0, 2)
    } else {
        (0, 1)
    }
}

/// The axes that span the layers along `axis`.
pub fn layer_axes(axis: usize) -> (r: (usize, usize))
    ensures
        r.0 == plane_axes(axis as int).0,
        r.1 == plane_axes(axis as int).1,
{
    match axis {
        0 => (1, 2),
        1 => (0, 2),
        _ => (0, 1),
    }
}

/// Coordinate `i` of corner `k` of a quad: along the quad's axis its layer (one further
/// for a quad facing the positive way), along its `u` axis `u` (plus the width for
/// corners 1 and 2), along its `v` axis `v` (plus the height for corners 2 and 3).
pub open spec fn quad_coordinate(q: GreedyQuad, k: int, i: int) -> int {
    if i == q.axis as int {
        q.layer + if q.direction == 1 { 1int } else { 0int }
    } else if i == plane_axes(q.axis as int).0 {
        q.u + if k == 1 || k == 2 { q.width as int } else { 0int }
    } else {
        q.v + if k == 2 || k == 3 { q.height as int } else { 0int }
    }
}

/// Corner `k` of a quad, counter-clockwise from its origin.
pub open spec fn quad_corner(q: GreedyQuad, k: int) -> (int, int, int) {
    (quad_coordinate(q, k, 0), quad_coordinate(q, k, 1), quad_coordinate(q, k, 2))
}

/// The four corners of a quad, in the order of its two triangles (0, 1, 2 and 0, 2, 3).
pub fn quad_corners(q: &GreedyQuad) -> (r: Vec<(usize, usize, usize)>)
    requires
        q.axis < 3,
        q.direction == 1 ==> q.layer + 1 <= usize::MAX,
        q.u + q.width <= usize::MAX,
        q.v + q.height <= usize::MAX,
    ensures
        r@.len() == 4,
        forall|k: int| #![trigger r@[k]] 0 <= k < 4 ==> r@[k].0 == quad_corner(*q, k).0
            && r@[k].1 == quad_corner(*q, k).1 && r@[k].2 == quad_corner(*q, k).2,
{
    let (u_axis, _v_axis) = layer_axes(q.axis);
    let along: usize = if q.direction == 1 { q.layer + 1 } else { q.layer };
    let mut r: Vec<(usize, usize, usize)> = Vec::with_capacity(4);
    let mut k: usize = 0;
    while k < 4
        invariant
            k <= 4,
            q.axis < 3,
            q.u + q.width <= usize::MAX,
            q.v + q.height <= usize::MAX,
            u_axis == plane_axes(q.axis as int).0,
            along == q.layer + if q.direction == 1 { 1int } else { 0int },
            r@.len() == k,
            forall|j: int| #![trigger r@[j]] 0 <= j < k ==> r@[j].0 == quad_corner(*q, j).0
                && r@[j].1 == quad_corner(*q, j).1 && r@[j].2 == quad_corner(*q, j).2,
        decreases 4 - k,
    {
        let cu: usize = if k == 1 || k == 2 { q.u + q.width } else { q.u };
        let cv: usize = if k == 2 || k == 3 { q.v + q.height } else { q.v };
        let mut c: [usize; 3] = [0, 0, 0];
        let mut i: usize = 0;
        while i < 3
            invariant
                i <= 3,
                q.axis < 3,
                u_axis == plane_axes(q.axis as int).0,
                along == q.layer + if q.direction == 1 { 1int } else { 0int },
                cu == q.u + if k == 1 || k == 2 { q.width as int } else { 0int },
                cv == q.v + if k == 2 || k == 3 { q.height as int } else { 0int },
                forall|j: int| 0 <= j < i ==> #[trigger] c@[j] == quad_coordinate(*q, k as int, j),
            decreases 3 - i,
        {
            let value = if i == q.axis {
                along
            } else if i == u_axis {
                cu
            } else {
                cv
            };
            c[i] = value;
            i += 1;
        }
        r.push((c[0], c[1], c[2]));
        k += 1;
    }
    r
}

/// The face layer at coordinate `layer` along `axis`, facing `direction`.
pub open spec fn face_layer(chunk_size: usize, axis: int, direction: int, layer: int) -> FaceLayer {
    FaceLayer {
        chunk_size,
        axis: axis as usize,
        direction: direction as usize,
        layer: layer as usize,
        u_axis: plane_axes(axis).0 as usize,
        v_axis: plane_axes(axis).1 as usize,
    }
}

/// The layers of one axis and direction, in order of coordinate.
pub open spec fn axis_layers(chunk_size: usize, axis: int, direction: int) -> Seq<FaceLayer> {
    Seq::new(chunk_size as nat, |layer: int| face_layer(chunk_size, axis, direction, layer))
}

/// The layers of the first `combos` axis-and-direction pairs, taken by axis and then by
/// direction.
pub open spec fn combo_layers(chunk_size: usize, combos: int) -> Seq<FaceLayer>
    decreases combos,
{
    if combos <= 0 {
        Seq::empty()
    } else {
        combo_layers(chunk_size, combos - 1) + axis_layers(
            chunk_size,
            (combos - 1) / 2,
            (combos - 1) % 2,
        )
    }
}

/// Every face layer of a chunk, in the order greedy meshing visits them.
pub open spec fn all_face_layers(chunk_size: usize) -> Seq<FaceLayer> {
    combo_layers(chunk_size, 6)
}

/// The rectangles of all parts, one part after the other.
pub open spec fn concat_quads(parts: Seq<Seq<GreedyQuad>>) -> Seq<GreedyQuad>
    decreases parts.len(),
{
    if parts.len() == 0 {
        Seq::empty()
    } else {
        concat_quads(parts.drop_last()) + parts.last()
    }
}

/// Working state of greedy meshing: the chunk size it was made for and the marks of cells
/// already merged into a rectangle.
pub struct GreedyMeshBuilder {
    pub chunk_size: usize,
    pub visited: Vec<bool>,
}

/// A builder for chunks of `chunk_size` cubed blocks, with no cell marked.
pub fn create_greedy_mesh_builder(chunk_size: usize) -> (r: GreedyMeshBuilder)
    requires
        chunk_size * chunk_size * chunk_size <= usize::MAX,
    ensures
        r.chunk_size == chunk_size,
        r.visited@.len() == chunk_size * chunk_size * chunk_size,
        forall|i: int| 0 <= i < r.visited@.len() ==> !r.visited@[i],
{
    assert(chunk_size * chunk_size <= chunk_size * chunk_size * chunk_size || chunk_size == 0)
        by (nonlinear_arith);
    let cells = chunk_size * chunk_size * chunk_size;
    GreedyMeshBuilder { chunk_size, visited: vec![false; cells] }
}

/// Clears every mark.
fn clear_marks(visited: &mut Vec<bool>)
    ensures
        final(visited)@.len() == old(visited)@.len(),
        forall|i: int| 0 <= i < final(visited)@.len() ==> !final(visited)@[i],
{
    let n = visited.len();
    let mut i: usize = 0;
    while i < n
        invariant
            visited.len() == n,
            i <= n,
            forall|j: int| 0 <= j < i ==> !visited@[j],
        decreases n - i,
    {
        visited.set(i, false);
        i += 1;
    }
}

/// Greedy meshing of a whole chunk: the rectangles of every face layer, by axis, then by
/// direction, then by coordinate. The builder's marks are scratch space and keep their length.
pub fn build_greedy_mesh(
    data: &mut GreedyMeshBuilder,
    blocks: &[BlockId],
    light_data: &[u8],
    chunk_size: usize,
) -> (r: Vec<GreedyQuad>)
    requires
        blocks.len() <= old(data).visited.len(),
        chunk_size * 2551 <= usize::MAX,
    ensures
        final(data).chunk_size == old(data).chunk_size,
        final(data).visited.len() == old(data).visited.len(),
        exists|parts: Seq<Seq<GreedyQuad>>|
            {
                &&& parts.len() == all_face_layers(chunk_size).len()
                &&& r@ == concat_quads(parts)
                &&& forall|j: int|
                    0 <= j < parts.len() ==> is_greedy_layer(
                        all_face_layers(chunk_size)[j],
                        blocks@,
                        light_data@,
                        #[trigger] parts[j],
                    )
            },
{
    clear_marks(&mut data.visited);
    let ghost n = data.visited.len();
    let mut quads: Vec<GreedyQuad> = Vec::new();
    let ghost mut parts: Seq<Seq<GreedyQuad>> = Seq::empty();
    let ghost mut layers: Seq<FaceLayer> = Seq::empty();
    let mut combo: usize = 0;
    while combo < 6
        invariant
            combo <= 6,
            chunk_size * 2551 <= usize::MAX,
            data.visited.len() == n,
            blocks.len() <= n,
            data.chunk_size == old(data).chunk_size,
            n == old(data).visited.len(),
            layers == combo_layers(chunk_size, combo as int),
            parts.len() == layers.len(),
            quads@ == concat_quads(parts),
            forall|j: int|
                0 <= j < parts.len() ==> is_greedy_layer(
                    layers[j],
                    blocks@,
                    light_data@,
                    #[trigger] parts[j],
                ),
        decreases 6 - combo,
    {
        let axis = combo / 2;
        let direction = combo % 2;
        let (u_axis, v_axis) = layer_axes(axis);
        let ghost before = layers;
        let mut layer: usize = 0;
        while layer < chunk_size
            invariant
                combo < 6,
                axis == combo / 2,
                direction == combo % 2,
                u_axis == plane_axes(axis as int).0,
                v_axis == plane_axes(axis as int).1,
                layer <= chunk_size,
                chunk_size * 2551 <= usize::MAX,
                data.visited.len() == n,
                blocks.len() <= n,
                data.chunk_size == old(data).chunk_size,
                n == old(data).visited.len(),
                before == combo_layers(chunk_size, combo as int),
                layers == before + axis_layers(chunk_size, axis as int, direction as int).take(
                    layer as int,
                ),
                parts.len() == layers.len(),
                quads@ == concat_quads(parts),
                forall|j: int|
                    0 <= j < parts.len() ==> is_greedy_layer(
                        layers[j],
                        blocks@,
                        light_data@,
                        #[trigger] parts[j],
                    ),
            decreases chunk_size - layer,
        {
            let fl = FaceLayer { chunk_size, axis, direction, layer, u_axis, v_axis };
            let mut qs = build_layer_quads(&mut data.visited, blocks, light_data, &fl);
            proof {
                let new_parts = parts.push(qs@);
                let new_layers = layers.push(fl);
                assert(new_parts.drop_last() =~= parts);
                assert(fl == face_layer(chunk_size, axis as int, direction as int, layer as int));
                assert(new_layers =~= before + axis_layers(
                    chunk_size,
                    axis as int,
                    direction as int,
                ).take(layer + 1));
                assert forall|j: int| 0 <= j < new_parts.len() implies is_greedy_layer(
                    new_layers[j],
                    blocks@,
                    light_data@,
                    #[trigger] new_parts[j],
                ) by {
                    if j < parts.len() {
                        assert(new_parts[j] == parts[j]);
                        assert(new_layers[j] == layers[j]);
                    }
                }
                parts = new_parts;
                layers = new_layers;
            }
            quads.append(&mut qs);
            layer += 1;
        }
        proof {
            assert(axis_layers(chunk_size, axis as int, direction as int).take(chunk_size as int)
                =~= axis_layers(chunk_size, axis as int, direction as int));
            assert(layers =~= combo_layers(chunk_size, combo + 1));
        }
        combo += 1;
    }
    proof {
        assert(layers == all_face_layers(chunk_size));
    }
    quads
}

/// A cell of any one of the rectangles is covered by them.
proof fn lemma_covered_member(l: FaceLayer, qs: Seq<GreedyQuad>, k: int, i: int)
    requires
        0 <= k < qs.len(),
        in_quad(l, qs[k], i),
    ensures
        covered(l, qs, i),
    decreases qs.len(),
{
    if k < qs.len() - 1 {
        assert(qs.drop_last()[k] == qs[k]);
        lemma_covered_member(l, qs.drop_last(), k, i);
    }
}

/// Greedy meshing merges each face into at most one rectangle: no cell belongs to two
/// rectangles of a layer.
pub proof fn lemma_greedy_quads_disjoint(
    l: FaceLayer,
    blocks: Seq<BlockId>,
    lights: Seq<u8>,
    qs: Seq<GreedyQuad>,
    k1: int,
    k2: int,
    i: int,
)
    requires
        is_greedy_layer(l, blocks, lights, qs),
        0 <= k1 < k2 < qs.len(),
    ensures
        !(in_quad(l, qs[k1], i) && in_quad(l, qs[k2], i)),
{
    if in_quad(l, qs[k1], i) && in_quad(l, qs[k2], i) {
        let q = qs[k2];
        let prefix = qs.take(k2);
        assert(greedy_step(l, blocks, lights, prefix, q));
        reveal(in_rect);
        let (u, v) = choose|u: int, v: int|
            q.u <= u < q.u + q.width && q.v <= v < q.v + q.height && #[trigger] l.idx(u, v) == i;
        if v == q.v {
            assert(fits(l, blocks, prefix, u, q.v as int, q.block));
        } else {
            assert(fits(l, blocks, prefix, u, v, q.block));
        }
        assert(prefix[k1] == qs[k1]);
        lemma_covered_member(l, prefix, k1, i);
    }
}

} // verus!
