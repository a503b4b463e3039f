//! Which block faces of a chunk a terrain mesh shows.
//!
//! The chunk is given with a border of one block on every side: `grid[x + 1][y + 1][z + 1]`
//! is the block at local position `(x, y, z)`, for coordinates from -1 to the chunk size.
//! A border block lies in a neighbouring chunk; `neighbor_loaded[f]` says whether the
//! neighbour across face `f` is loaded. Faces are numbered +X, -X, +Y, -Y, +Z, -Z.

use vstd::prelude::*;
use crate::world_types::BlockId;

verus! {

/// Block identifier of air.
pub const AIR_ID: u16 = 0;

/// Block identifier of water.
pub const WATER_ID: u16 = 6;

/// A face of a block that the mesh shows.
#[derive(Debug, Clone, Copy, PartialEq, Eq, Structural)]
pub struct TerrainFace {
    pub x: u32,
    pub y: u32,
    pub z: u32,
    pub face: u8,
    pub block: BlockId,
}

/// The step to the neighbour across face `f`.
pub open spec fn face_step(f: int) -> (int, int, int) {
    if f == 0 {
        (1, 0, 0)
    } else if f == 1 {
        (-1, 0, 0)
    } else if f == 2 {
        (0, 1, 0)
    } else if f == 3 {
        (0, -1, 0)
    } else if f == 4 {
        (0, 0, 1)
    } else {
        (0, 0, -1)
    }
}

/// The block at local position `(x, y, z)`.
pub open spec fn grid_block(grid: Seq<Vec<Vec<BlockId>>>, x: int, y: int, z: int) -> BlockId {
    grid[x + 1]@[y + 1]@[z + 1]
}

/// The grid holds the chunk and its border: `size + 2` blocks along every axis.
pub open spec fn grid_shaped(grid: Seq<Vec<Vec<BlockId>>>, size: int) -> bool {
    &&& grid.len() == size + 2
    &&& forall|i: int| 0 <= i < size + 2 ==> (#[trigger] grid[i])@.len() == size + 2
    &&& forall|i: int, j: int|
        0 <= i < size + 2 && 0 <= j < size + 2 ==> (#[trigger] grid[i]@[j])@.len() == size + 2
}

/// Whether the face `f` of the block at `(x, y, z)` shows: its neighbour is air, or water
/// next to a block that is not water; a neighbour in a chunk that is not loaded counts as
/// air.
pub open spec fn face_shown(
    grid: Seq<Vec<Vec<BlockId>>>,
    loaded: Seq<bool>,
    size: int,
    x: int,
    y: int,
    z: int,
    f: int,
) -> bool {
    let (dx, dy, dz) = face_step(f);
    let (nx, ny, nz) = (x + dx, y + dy, z + dz);
    let block = grid_block(grid, x, y, z);
    let neighbor = grid_block(grid, nx, ny, nz);
    let see_through = neighbor.0 == AIR_ID || (neighbor.0 == WATER_ID && block.0 != WATER_ID);
    if 0 <= nx < size && 0 <= ny < size && 0 <= nz < size {
        see_through
    } else {
        !loaded[f] || see_through
    }
}

/// The shown faces of the block at `(x, y, z)` among its first `k` faces.
pub open spec fn block_faces(
    grid: Seq<Vec<Vec<BlockId>>>,
    loaded: Seq<bool>,
    size: int,
    x: int,
    y: int,
    z: int,
    k: int,
) -> Seq<TerrainFace>
    decreases k,
{
    if k <= 0 || grid_block(grid, x, y, z).0 == AIR_ID {
        Seq::empty()
    } else if face_shown(grid, loaded, size, x, y, z, k - 1) {
        block_faces(grid, loaded, size, x, y, z, k - 1).push(
            TerrainFace {
                x: x as u32,
                y: y as u32,
                z: z as u32,
                face: (k - 1) as u8,
                block: grid_block(grid, x, y, z),
            },
        )
    } else {
        block_faces(grid, loaded, size, x, y, z, k - 1)
    }
}

/// The shown faces of the blocks `(x, y, 0)` to `(x, y, z - 1)`.
pub open spec fn column_faces(
    grid: Seq<Vec<Vec<BlockId>>>,
    loaded: Seq<bool>,
    size: int,
    x: int,
    y: int,
    z: int,
) -> Seq<TerrainFace>
    decreases z,
{
    if z <= 0 {
        Seq::empty()
    } else {
        column_faces(grid, loaded, size, x, y, z - 1) + block_faces(
            grid,
            loaded,
            size,
            x,
            y,
            z - 1,
            6,
        )
    }
}

/// The shown faces of the columns `(x, 0)` to `(x, y - 1)`.
pub open spec fn slice_faces(
    grid: Seq<Vec<Vec<BlockId>>>,
    loaded: Seq<bool>,
    size: int,
    x: int,
    y: int,
) -> Seq<TerrainFace>
    decreases y,
{
    if y <= 0 {
        Seq::empty()
    } else {
        slice_faces(grid, loaded, size, x, y - 1) + column_faces(grid, loaded, size, x, y - 1, size)
    }
}

/// The shown faces of the slices 0 to `x - 1`.
pub open spec fn chunk_faces(
    grid: Seq<Vec<Vec<BlockId>>>,
    loaded: Seq<bool>,
    size: int,
    x: int,
) -> Seq<TerrainFace>
    decreases x,
{
    if x <= 0 {
        Seq::empty()
    } else {
        chunk_faces(grid, loaded, size, x - 1) + slice_faces(grid, loaded, size, x - 1, size)
    }
}

/// The face `f` of the block at `(x, y, z)` as a mesh lists it.
pub open spec fn face_at(grid: Seq<Vec<Vec<BlockId>>>, x: int, y: int, z: int, f: int) -> TerrainFace {
    TerrainFace { x: x as u32, y: y as u32, z: z as u32, face: f as u8, block: grid_block(grid, x, y, z) }
}

proof fn lemma_contains_concat<A>(a: Seq<A>, b: Seq<A>, e: A)
    ensures
        a.contains(e) ==> (a + b).contains(e),
        b.contains(e) ==> (a + b).contains(e),
{
    if a.contains(e) {
        let k = choose|k: int| 0 <= k < a.len() && a[k] == e;
        assert((a + b)[k] == e);
    }
    if b.contains(e) {
        let k = choose|k: int| 0 <= k < b.len() && b[k] == e;
        assert((a + b)[a.len() + k] == e);
    }
}

proof fn lemma_block_faces_has(
    grid: Seq<Vec<Vec<BlockId>>>,
    loaded: Seq<bool>,
    size: int,
    x: int,
    y: int,
    z: int,
    f: int,
    k: int,
)
    requires
        0 <= f < k <= 6,
        grid_block(grid, x, y, z).0 != AIR_ID,
        face_shown(grid, loaded, size, x, y, z, f),
    ensures
        block_faces(grid, loaded, size, x, y, z, k).contains(face_at(grid, x, y, z, f)),
    decreases k,
{
    let s = block_faces(grid, loaded, size, x, y, z, k);
    if f == k - 1 {
        assert(s[s.len() - 1] == face_at(grid, x, y, z, f));
    } else {
        lemma_block_faces_has(grid, loaded, size, x, y, z, f, k - 1);
        let prev = block_faces(grid, loaded, size, x, y, z, k - 1);
        if face_shown(grid, loaded, size, x, y, z, k - 1) {
            let j = choose|j: int| 0 <= j < prev.len() && prev[j] == face_at(grid, x, y, z, f);
            assert(s[j] == prev[j]);
        }
    }
}

proof fn lemma_column_faces_has(
    grid: Seq<Vec<Vec<BlockId>>>,
    loaded: Seq<bool>,
    size: int,
    x: int,
    y: int,
    z: int,
    zz: int,
    e: TerrainFace,
)
    requires
        0 <= z < zz,
        block_faces(grid, loaded, size, x, y, z, 6).contains(e),
    ensures
        column_faces(grid, loaded, size, x, y, zz).contains(e),
    decreases zz,
{
    let prev = column_faces(grid, loaded, size, x, y, zz - 1);
    let last = block_faces(grid, loaded, size, x, y, zz - 1, 6);
    lemma_contains_concat(prev, last, e);
    if z < zz - 1 {
        lemma_column_faces_has(grid, loaded, size, x, y, z, zz - 1, e);
    }
}

proof fn lemma_slice_faces_has(
    grid: Seq<Vec<Vec<BlockId>>>,
    loaded: Seq<bool>,
    size: int,
    x: int,
    y: int,
    yy: int,
    e: TerrainFace,
)
    requires
        0 <= y < yy,
        column_faces(grid, loaded, size, x, y, size).contains(e),
    ensures
        slice_faces(grid, loaded, size, x, yy).contains(e),
    decreases yy,
{
    let prev = slice_faces(grid, loaded, size, x, yy - 1);
    let last = column_faces(grid, loaded, size, x, yy - 1, size);
    lemma_contains_concat(prev, last, e);
    if y < yy - 1 {
        lemma_slice_faces_has(grid, loaded, size, x, y, yy - 1, e);
    }
}

proof fn lemma_chunk_faces_has(
    grid: Seq<Vec<Vec<BlockId>>>,
    loaded: Seq<bool>,
    size: int,
    x: int,
    xx: int,
    e: TerrainFace,
)
    requires
        0 <= x < xx,
        slice_faces(grid, loaded, size, x, size).contains(e),
    ensures
        chunk_faces(grid, loaded, size, xx).contains(e),
    decreases xx,
{
    let prev = chunk_faces(grid, loaded, size, xx - 1);
    let last = slice_faces(grid, loaded, size, xx - 1, size);
    lemma_contains_concat(prev, last, e);
    if x < xx - 1 {
        lemma_chunk_faces_has(grid, loaded, size, x, xx - 1, e);
    }
}

/// Every face that shows for a solid block of the chunk is in the chunk's mesh.
pub proof fn lemma_shown_face_in_mesh(
    grid: Seq<Vec<Vec<BlockId>>>,
    loaded: Seq<bool>,
    size: int,
    x: int,
    y: int,
    z: int,
    f: int,
)
    requires
        0 <= x < size,
        0 <= y < size,
        0 <= z < size,
        0 <= f < 6,
        grid_block(grid, x, y, z).0 != AIR_ID,
        face_shown(grid, loaded, size, x, y, z, f),
    ensures
        chunk_faces(grid, loaded, size, size).contains(face_at(grid, x, y, z, f)),
{
    let e = face_at(grid, x, y, z, f);
    lemma_block_faces_has(grid, loaded, size, x, y, z, f, 6);
    lemma_column_faces_has(grid, loaded, size, x, y, z, size, e);
    lemma_slice_faces_has(grid, loaded, size, x, y, size, e);
    lemma_chunk_faces_has(grid, loaded, size, x, size, e);
}

/// A block of the chunk that is neither air nor water shows its face toward a neighbouring
/// water block, and any block that is not air shows its face toward a neighbouring air
/// block: in both cases the face is in the chunk's mesh.
pub proof fn lemma_faces_toward_water_and_air_shown(
    grid: Seq<Vec<Vec<BlockId>>>,
    loaded: Seq<bool>,
    size: int,
    x: int,
    y: int,
    z: int,
    f: int,
)
    requires
        0 <= x < size,
        0 <= y < size,
        0 <= z < size,
        0 <= f < 6,
        grid_block(grid, x, y, z).0 != AIR_ID,
    ensures
        ({
            let (dx, dy, dz) = face_step(f);
            let neighbor = grid_block(grid, x + dx, y + dy, z + dz);
            (neighbor.0 == AIR_ID || (neighbor.0 == WATER_ID && grid_block(grid, x, y, z).0 != WATER_ID))
                ==> chunk_faces(grid, loaded, size, size).contains(face_at(grid, x, y, z, f))
        }),
{
    let (dx, dy, dz) = face_step(f);
    let neighbor = grid_block(grid, x + dx, y + dy, z + dz);
    if neighbor.0 == AIR_ID || (neighbor.0 == WATER_ID && grid_block(grid, x, y, z).0 != WATER_ID) {
        assert(face_shown(grid, loaded, size, x, y, z, f));
        lemma_shown_face_in_mesh(grid, loaded, size, x, y, z, f);
    }
}

/// `e` is the face of a block of the chunk that is not air, across which the block shows.
pub open spec fn is_shown_face(grid: Seq<Vec<Vec<BlockId>>>, loaded: Seq<bool>, size: int, e: TerrainFace) -> bool {
    exists|x: int, y: int, z: int, f: int|
        #![trigger face_at(grid, x, y, z, f)]
        0 <= x < size && 0 <= y < size && 0 <= z < size && 0 <= f < 6 && grid_block(grid, x, y, z).0
            != AIR_ID && face_shown(grid, loaded, size, x, y, z, f) && e == face_at(grid, x, y, z, f)
}

proof fn lemma_block_faces_sound(
    grid: Seq<Vec<Vec<BlockId>>>,
    loaded: Seq<bool>,
    size: int,
    x: int,
    y: int,
    z: int,
    k: int,
)
    requires
        0 <= x < size,
        0 <= y < size,
        0 <= z < size,
        k <= 6,
    ensures
        forall|j: int|
            0 <= j < block_faces(grid, loaded, size, x, y, z, k).len() ==> is_shown_face(
                grid,
                loaded,
                size,
                #[trigger] block_faces(grid, loaded, size, x, y, z, k)[j],
            ),
    decreases k,
{
    if k > 0 && grid_block(grid, x, y, z).0 != AIR_ID {
        lemma_block_faces_sound(grid, loaded, size, x, y, z, k - 1);
        let s = block_faces(grid, loaded, size, x, y, z, k);
        let prev = block_faces(grid, loaded, size, x, y, z, k - 1);
        assert forall|j: int| 0 <= j < s.len() implies is_shown_face(grid, loaded, size, #[trigger] s[j]) by {
            if j < prev.len() {
                assert(s[j] == prev[j]);
            } else {
                assert(s[j] == face_at(grid, x, y, z, k - 1));
            }
        }
    }
}

proof fn lemma_concat_sound(grid: Seq<Vec<Vec<BlockId>>>, loaded: Seq<bool>, size: int, a: Seq<TerrainFace>, b: Seq<TerrainFace>)
    requires
        forall|j: int| 0 <= j < a.len() ==> is_shown_face(grid, loaded, size, #[trigger] a[j]),
        forall|j: int| 0 <= j < b.len() ==> is_shown_face(grid, loaded, size, #[trigger] b[j]),
    ensures
        forall|j: int| 0 <= j < (a + b).len() ==> is_shown_face(grid, loaded, size, #[trigger] (a + b)[j]),
{
    assert forall|j: int| 0 <= j < (a + b).len() implies is_shown_face(grid, loaded, size, #[trigger] (a + b)[j]) by {
        if j < a.len() {
            assert((a + b)[j] == a[j]);
        } else {
            assert((a + b)[j] == b[j - a.len()]);
        }
    }
}

proof fn lemma_column_faces_sound(grid: Seq<Vec<Vec<BlockId>>>, loaded: Seq<bool>, size: int, x: int, y: int, zz: int)
    requires
        0 <= x < size,
        0 <= y < size,
        zz <= size,
    ensures
        forall|j: int|
            0 <= j < column_faces(grid, loaded, size, x, y, zz).len() ==> is_shown_face(
                grid,
                loaded,
                size,
                #[trigger] column_faces(grid, loaded, size, x, y, zz)[j],
            ),
    decreases zz,
{
    if zz > 0 {
        lemma_column_faces_sound(grid, loaded, size, x, y, zz - 1);
        lemma_block_faces_sound(grid, loaded, size, x, y, zz - 1, 6);
        lemma_concat_sound(
            grid,
            loaded,
            size,
            column_faces(grid, loaded, size, x, y, zz - 1),
            block_faces(grid, loaded, size, x, y, zz - 1, 6),
        );
    }
}

proof fn lemma_slice_faces_sound(grid: Seq<Vec<Vec<BlockId>>>, loaded: Seq<bool>, size: int, x: int, yy: int)
    requires
        0 <= x < size,
        yy <= size,
    ensures
        forall|j: int|
            0 <= j < slice_faces(grid, loaded, size, x, yy).len() ==> is_shown_face(
                grid,
                loaded,
                size,
                #[trigger] slice_faces(grid, loaded, size, x, yy)[j],
            ),
    decreases yy,
{
    if yy > 0 {
        lemma_slice_faces_sound(grid, loaded, size, x, yy - 1);
        lemma_column_faces_sound(grid, loaded, size, x, yy - 1, size);
        lemma_concat_sound(
            grid,
            loaded,
            size,
            slice_faces(grid, loaded, size, x, yy - 1),
            column_faces(grid, loaded, size, x, yy - 1, size),
        );
    }
}

proof fn lemma_chunk_faces_sound(grid: Seq<Vec<Vec<BlockId>>>, loaded: Seq<bool>, size: int, xx: int)
    requires
        xx <= size,
    ensures
        forall|j: int|
            0 <= j < chunk_faces(grid, loaded, size, xx).len() ==> is_shown_face(
                grid,
                loaded,
                size,
                #[trigger] chunk_faces(grid, loaded, size, xx)[j],
            ),
    decreases xx,
{
    if xx > 0 {
        lemma_chunk_faces_sound(grid, loaded, size, xx - 1);
        lemma_slice_faces_sound(grid, loaded, size, xx - 1, size);
        lemma_concat_sound(
            grid,
            loaded,
            size,
            chunk_faces(grid, loaded, size, xx - 1),
            slice_faces(grid, loaded, size, xx - 1, size),
        );
    }
}

/// The mesh lists only faces that show: every face in it belongs to a block of the chunk
/// that is not air and shows across that face.
pub proof fn lemma_mesh_lists_only_shown_faces(grid: Seq<Vec<Vec<BlockId>>>, loaded: Seq<bool>, size: int)
    ensures
        forall|j: int|
            0 <= j < chunk_faces(grid, loaded, size, size).len() ==> is_shown_face(
                grid,
                loaded,
                size,
                #[trigger] chunk_faces(grid, loaded, size, size)[j],
            ),
{
    lemma_chunk_faces_sound(grid, loaded, size, size);
}

/// A face toward a neighbour inside the chunk that is neither air nor, for a block that is
/// not water, water is hidden: the mesh does not list it.
pub proof fn lemma_face_toward_solid_neighbor_hidden(
    grid: Seq<Vec<Vec<BlockId>>>,
    loaded: Seq<bool>,
    size: int,
    x: int,
    y: int,
    z: int,
    f: int,
)
    requires
        0 <= x < size,
        0 <= y < size,
        0 <= z < size,
        size <= u32::MAX,
        0 <= f < 6,
    ensures
        ({
            let (dx, dy, dz) = face_step(f);
            let neighbor = grid_block(grid, x + dx, y + dy, z + dz);
            (0 <= x + dx < size && 0 <= y + dy < size && 0 <= z + dz < size && neighbor.0 != AIR_ID
                && !(neighbor.0 == WATER_ID && grid_block(grid, x, y, z).0 != WATER_ID))
                ==> !chunk_faces(grid, loaded, size, size).contains(face_at(grid, x, y, z, f))
        }),
{
    let (dx, dy, dz) = face_step(f);
    let neighbor = grid_block(grid, x + dx, y + dy, z + dz);
    let mesh = chunk_faces(grid, loaded, size, size);
    let e = face_at(grid, x, y, z, f);
    if 0 <= x + dx < size && 0 <= y + dy < size && 0 <= z + dz < size && neighbor.0 != AIR_ID
        && !(neighbor.0 == WATER_ID && grid_block(grid, x, y, z).0 != WATER_ID) && mesh.contains(e) {
        lemma_mesh_lists_only_shown_faces(grid, loaded, size);
        let j = choose|j: int| 0 <= j < mesh.len() && mesh[j] == e;
        assert(is_shown_face(grid, loaded, size, mesh[j]));
        let (x2, y2, z2, f2) = choose|x2: int, y2: int, z2: int, f2: int|
            #![trigger face_at(grid, x2, y2, z2, f2)]
            0 <= x2 < size && 0 <= y2 < size && 0 <= z2 < size && 0 <= f2 < 6 && grid_block(grid, x2, y2, z2).0
                != AIR_ID && face_shown(grid, loaded, size, x2, y2, z2, f2) && e == face_at(grid, x2, y2, z2, f2);
        assert(x2 == x && y2 == y && z2 == z && f2 == f);
        assert(!face_shown(grid, loaded, size, x, y, z, f));
    }
}

/// The index of the `k`-th entry of the index list of quads: two triangles per quad of four
/// vertices, `base, base + 1, base + 2` and `base, base + 2, base + 3`.
pub open spec fn quad_index(k: int) -> int {
    let base = (k / 6) * 4;
    let corner = k % 6;
    if corner == 0 || corner == 3 {
        base
    } else if corner == 1 {
        base + 1
    } else if corner == 2 || corner == 4 {
        base + 2
    } else {
        base + 3
    }
}

/// The block at `(x, y, z)`, read from the grid.
fn block_at(grid: &Vec<Vec<Vec<BlockId>>>, size: u32, x: i64, y: i64, z: i64) -> (r: BlockId)
    requires
        grid_shaped(grid@, size as int),
        -1 <= x <= size,
        -1 <= y <= size,
        -1 <= z <= size,
        size < u32::MAX,
    ensures
        r == grid_block(grid@, x as int, y as int, z as int),
{
    let i = (x + 1) as usize;
    let j = (y + 1) as usize;
    let k = (z + 1) as usize;
    let plane = &grid[i];
    let row = &plane[j];
    row[k]
}

/// Whether face `f` of the block at `(x, y, z)` shows.
fn shows_face(
    grid: &Vec<Vec<Vec<BlockId>>>,
    neighbor_loaded: &Vec<bool>,
    size: u32,
    x: u32,
    y: u32,
    z: u32,
    f: u8,
) -> (r: bool)
    requires
        grid_shaped(grid@, size as int),
        neighbor_loaded@.len() == 6,
        x < size,
        y < size,
        z < size,
        f < 6,
        size < u32::MAX,
    ensures
        r == face_shown(grid@, neighbor_loaded@, size as int, x as int, y as int, z as int, f as int),
{
    let (dx, dy, dz): (i64, i64, i64) = if f == 0 {
        (1, 0, 0)
    } else if f == 1 {
        (-1, 0, 0)
    } else if f == 2 {
        (0, 1, 0)
    } else if f == 3 {
        (0, -1, 0)
    } else if f == 4 {
        (0, 0, 1)
    } else {
        (0, 0, -1)
    };
    let nx = x as i64 + dx;
    let ny = y as i64 + dy;
    let nz = z as i64 + dz;
    let block = block_at(grid, size, x as i64, y as i64, z as i64);
    let neighbor = block_at(grid, size, nx, ny, nz);
    let see_through = neighbor.0 == AIR_ID || (neighbor.0 == WATER_ID && block.0 != WATER_ID);
    let s = size as i64;
    if 0 <= nx && nx < s && 0 <= ny && ny < s && 0 <= nz && nz < s {
        see_through
    } else {
        !neighbor_loaded[f as usize] || see_through
    }
}

/// The faces a terrain mesh of the chunk shows, block by block in order of `x`, then `y`,
/// then `z`, and face by face within a block; with the index list of their quads.
pub fn generate_chunk_terrain_mesh(
    grid: &Vec<Vec<Vec<BlockId>>>,
    neighbor_loaded: &Vec<bool>,
    chunk_size: u32,
) -> (r: (Vec<TerrainFace>, Vec<u32>))
    requires
        grid_shaped(grid@, chunk_size as int),
        neighbor_loaded@.len() == 6,
        chunk_size < u32::MAX,
    ensures
        r.0@ == chunk_faces(grid@, neighbor_loaded@, chunk_size as int, chunk_size as int),
        r.0@.len() * 6 <= usize::MAX && r.0@.len() * 4 <= u32::MAX ==> {
            &&& r.1@.len() == r.0@.len() * 6
            &&& forall|k: int| 0 <= k < r.1@.len() ==> r.1@[k] == quad_index(k)
        },
{
    let size = chunk_size;
    let ghost g = grid@;
    let ghost lo = neighbor_loaded@;
    let mut faces: Vec<TerrainFace> = Vec::new();
    let mut x: u32 = 0;
    while x < size
        invariant
            grid_shaped(grid@, size as int),
            neighbor_loaded@.len() == 6,
            size < u32::MAX,
            x <= size,
            g == grid@,
            lo == neighbor_loaded@,
            faces@ == chunk_faces(g, lo, size as int, x as int),
        decreases size - x,
    {
        let ghost before_x = faces@;
        let mut y: u32 = 0;
        while y < size
            invariant
                grid_shaped(grid@, size as int),
                neighbor_loaded@.len() == 6,
                size < u32::MAX,
                x < size,
                y <= size,
                g == grid@,
                lo == neighbor_loaded@,
                faces@ == before_x + slice_faces(g, lo, size as int, x as int, y as int),
            decreases size - y,
        {
            let ghost before_y = faces@;
            let mut z: u32 = 0;
            while z < size
                invariant
                    grid_shaped(grid@, size as int),
                    neighbor_loaded@.len() == 6,
                    size < u32::MAX,
                    x < size,
                    y < size,
                    z <= size,
                    g == grid@,
                    lo == neighbor_loaded@,
                    faces@ == before_y + column_faces(g, lo, size as int, x as int, y as int, z as int),
                decreases size - z,
            {
                let ghost before_z = faces@;
                let block = block_at(grid, size, x as i64, y as i64, z as i64);
                if block.0 != AIR_ID {
                    let mut f: u8 = 0;
                    while f < 6
                        invariant
                            grid_shaped(grid@, size as int),
                            neighbor_loaded@.len() == 6,
                            size < u32::MAX,
                            x < size,
                            y < size,
                            z < size,
                            f <= 6,
                            g == grid@,
                            lo == neighbor_loaded@,
                            block == grid_block(g, x as int, y as int, z as int),
                            block.0 != AIR_ID,
                            faces@ == before_z + block_faces(
                                g,
                                lo,
                                size as int,
                                x as int,
                                y as int,
                                z as int,
                                f as int,
                            ),
                        decreases 6 - f,
                    {
                        if shows_face(grid, neighbor_loaded, size, x, y, z, f) {
                            faces.push(TerrainFace { x, y, z, face: f, block });
                        }
                        f += 1;
                    }
                }
                z += 1;
            }
            y += 1;
        }
        x += 1;
    }
    let indices = quad_indices(faces.len());
    (faces, indices)
}

/// The index list of `count` quads, where it fits the index types; empty otherwise.
pub fn quad_indices(count: usize) -> (r: Vec<u32>)
    ensures
        count * 6 <= usize::MAX && count * 4 <= u32::MAX ==> {
            &&& r@.len() == count * 6
            &&& forall|k: int| 0 <= k < r@.len() ==> r@[k] == quad_index(k)
        },
{
    let mut indices: Vec<u32> = Vec::new();
    if count > usize::MAX / 6 || count > (u32::MAX / 4) as usize {
        return indices;
    }
    let mut q: usize = 0;
    while q < count
        invariant
            q <= count,
            count * 4 <= u32::MAX,
            count * 6 <= usize::MAX,
            indices@.len() == q * 6,
            forall|k: int| 0 <= k < indices@.len() ==> indices@[k] == quad_index(k),
        decreases count - q,
    {
        let base = (q * 4) as u32;
        let ghost start = indices@.len() as int;
        indices.push(base);
        indices.push(base + 1);
        indices.push(base + 2);
        indices.push(base);
        indices.push(base + 2);
        indices.push(base + 3);
        proof {
            assert forall|k: int| start <= k < start + 6 implies indices@[k] == quad_index(k) by {
                assert(k / 6 == q);
                assert(k % 6 == k - start);
            }
        }
        q += 1;
    }
    indices
}

/// The four corners of face `f` of a unit block, as offsets from the block's lowest
/// corner, in the order the face's two triangles use them (0, 1, 2 and 0, 2, 3).
pub open spec fn face_corner_offsets(f: int) -> Seq<(u32, u32, u32)> {
    if f == 0 {
        seq![(1, 0, 0), (1, 0, 1), (1, 1, 1), (1, 1, 0)]
    } else if f == 1 {
        seq![(0, 0, 1), (0, 0, 0), (0, 1, 0), (0, 1, 1)]
    } else if f == 2 {
        seq![(0, 1, 0), (1, 1, 0), (1, 1, 1), (0, 1, 1)]
    } else if f == 3 {
        seq![(0, 0, 1), (1, 0, 1), (1, 0, 0), (0, 0, 0)]
    } else if f == 4 {
        seq![(1, 0, 1), (0, 0, 1), (0, 1, 1), (1, 1, 1)]
    } else {
        seq![(0, 0, 0), (1, 0, 0), (1, 1, 0), (0, 1, 0)]
    }
}

/// The corners of a shown face: the block's position plus each corner offset of its
/// face, in triangle order.
pub fn face_corners(face: &TerrainFace) -> (r: Vec<(u32, u32, u32)>)
    requires
        face.x < u32::MAX,
        face.y < u32::MAX,
        face.z < u32::MAX,
    ensures
        r@.len() == 4,
        forall|k: int| #![trigger r@[k]] 0 <= k < 4 ==> r@[k] == (
            (face.x + face_corner_offsets(face.face as int)[k].0) as u32,
            (face.y + face_corner_offsets(face.face as int)[k].1) as u32,
            (face.z + face_corner_offsets(face.face as int)[k].2) as u32,
        ),
{
    let offsets: [(u32, u32, u32); 4] = if face.face == 0 {
        [(1, 0, 0), (1, 0, 1), (1, 1, 1), (1, 1, 0)]
    } else if face.face == 1 {
        [(0, 0, 1), (0, 0, 0), (0, 1, 0), (0, 1, 1)]
    } else if face.face == 2 {
        [(0, 1, 0), (1, 1, 0), (1, 1, 1), (0, 1, 1)]
    } else if face.face == 3 {
        [(0, 0, 1), (1, 0, 1), (1, 0, 0), (0, 0, 0)]
    } else if face.face == 4 {
        [(1, 0, 1), (0, 0, 1), (0, 1, 1), (1, 1, 1)]
    } else {
        [(0, 0, 0), (1, 0, 0), (1, 1, 0), (0, 1, 0)]
    };
    assert(offsets@ =~= face_corner_offsets(face.face as int));
    let mut r: Vec<(u32, u32, u32)> = Vec::with_capacity(4);
    let mut k: usize = 0;
    while k < 4
        invariant
            k <= 4,
            offsets@ == face_corner_offsets(face.face as int),
            face.x < u32::MAX,
            face.y < u32::MAX,
            face.z < u32::MAX,
            r@.len() == k,
            forall|j: int| #![trigger r@[j]] 0 <= j < k ==> r@[j] == (
                (face.x + face_corner_offsets(face.face as int)[j].0) as u32,
                (face.y + face_corner_offsets(face.face as int)[j].1) as u32,
                (face.z + face_corner_offsets(face.face as int)[j].2) as u32,
            ),
        decreases 4 - k,
    {
        let (dx, dy, dz) = offsets[k];
        assert(dx <= 1 && dy <= 1 && dz <= 1);
        r.push((face.x + dx, face.y + dy, face.z + dz));
        k = k + 1;
    }
    r
}

/// The four corners of a face lie in the face's plane: along the face's axis they sit
/// at offset 1 for a face looking the positive way and at offset 0 otherwise; and no
/// two of them coincide.
pub proof fn lemma_face_corners_on_face(f: int)
    requires
        0 <= f < 6,
    ensures
        face_corner_offsets(f).len() == 4,
        forall|k: int| 0 <= k < 4 ==> {
            let c = #[trigger] face_corner_offsets(f)[k];
            let on = if f % 2 == 0 { 1u32 } else { 0u32 };
            &&& (f / 2 == 0 ==> c.0 == on)
            &&& (f / 2 == 1 ==> c.1 == on)
            &&& (f / 2 == 2 ==> c.2 == on)
        },
        forall|j: int, k: int| 0 <= j < k < 4 ==> face_corner_offsets(f)[j] != face_corner_offsets(f)[k],
{
}

/// A vertex of the unit cube: its corner `(x, y, z)`, the face it belongs to (whose normal and
/// colour it takes), and its light and ambient occlusion levels.
#[derive(Debug, Clone, Copy, PartialEq, Eq, Structural)]
pub struct CubeVertex {
    pub x: u32,
    pub y: u32,
    pub z: u32,
    pub face: u8,
    pub light: u8,
    pub ao: u8,
}

/// Light level of a fully lit vertex.
pub const MAX_LIGHT: u8 = 15;
/// Ambient occlusion level of an unoccluded vertex.
pub const MAX_AO: u8 = 3;

/// Generate vertices for a simple unit cube: four per face, faces in the order +X,
/// -X, +Y, -Y, +Z, -Z, each face's corners in triangle order, fully lit.
pub fn create_simple_cube_vertices() -> (r: Vec<CubeVertex>)
    ensures
        r@.len() == 24,
        forall|k: int| #![trigger r@[k]] 0 <= k < 24 ==> r@[k] == (CubeVertex {
            x: face_corner_offsets(k / 4)[k % 4].0,
            y: face_corner_offsets(k / 4)[k % 4].1,
            z: face_corner_offsets(k / 4)[k % 4].2,
            face: (k / 4) as u8,
            light: MAX_LIGHT,
            ao: MAX_AO,
        }),
{
    let mut r: Vec<CubeVertex> = Vec::with_capacity(24);
    let mut f: u8 = 0;
    while f < 6
        invariant
            f <= 6,
            r@.len() == 4 * f,
            forall|k: int| #![trigger r@[k]] 0 <= k < 4 * f ==> r@[k] == (CubeVertex {
                x: face_corner_offsets(k / 4)[k % 4].0,
                y: face_corner_offsets(k / 4)[k % 4].1,
                z: face_corner_offsets(k / 4)[k % 4].2,
                face: (k / 4) as u8,
                light: MAX_LIGHT,
                ao: MAX_AO,
            }),
        decreases 6 - f,
    {
        let corners = face_corners(&TerrainFace { x: 0, y: 0, z: 0, face: f, block: BlockId(0) });
        let mut c: usize = 0;
        while c < 4
            invariant
                f < 6,
                c <= 4,
                corners@.len() == 4,
                forall|j: int| #![trigger corners@[j]] 0 <= j < 4 ==> corners@[j] == (
                    (0 + face_corner_offsets(f as int)[j].0) as u32,
                    (0 + face_corner_offsets(f as int)[j].1) as u32,
                    (0 + face_corner_offsets(f as int)[j].2) as u32,
                ),
                r@.len() == 4 * f + c,
                forall|k: int| #![trigger r@[k]] 0 <= k < 4 * f + c ==> r@[k] == (CubeVertex {
                    x: face_corner_offsets(k / 4)[k % 4].0,
                    y: face_corner_offsets(k / 4)[k % 4].1,
                    z: face_corner_offsets(k / 4)[k % 4].2,
                    face: (k / 4) as u8,
                    light: MAX_LIGHT,
                    ao: MAX_AO,
                }),
            decreases 4 - c,
        {
            let ghost k = 4 * f + c;
            assert(k / 4 == f as int && k % 4 == c as int);
            let (x, y, z) = corners[c];
            r.push(CubeVertex { x, y, z, face: f, light: MAX_LIGHT, ao: MAX_AO });
            c = c + 1;
        }
        f = f + 1;
    }
    r
}

/// Namespace of the mesh helpers of this module.
pub struct MeshUtils;

} // verus!
