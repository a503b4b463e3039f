//! Renderer bookkeeping: draw commands, mesh and culling statistics and their reports,
//! and the index pattern of a cube.

use vstd::prelude::*;
use crate::error::num;
use crate::text::append_u64;

verus! {

/// An indirect draw call.
#[derive(Debug, Clone, Copy, PartialEq, Eq, Structural)]
pub struct DrawCommand {
    pub vertex_count: u32,
    pub instance_count: u32,
    pub first_vertex: u32,
    pub first_instance: u32,
}

/// Outcome of culling the chunks of a frame.
#[derive(Debug, Clone, Copy, PartialEq, Eq, Structural)]
pub struct CullingStats {
    pub total_chunks: u32,
    pub visible_chunks: u32,
    pub frustum_culled: u32,
    pub distance_culled: u32,
}

/// Culls chunks against the view frustum.
pub struct FrustumCuller;

/// Builds the hierarchical depth buffer.
pub struct HzbBuilder;

/// The hierarchical depth buffer.
pub struct HierarchicalZBuffer;

/// Sizes of a vertex buffer, in bytes.
#[derive(Debug, Clone, Copy, PartialEq, Eq, Structural)]
pub struct VertexBufferStats {
    pub vertex_count: usize,
    pub total_size: usize,
    pub positions_size: usize,
    pub colors_size: usize,
    pub normals_size: usize,
    pub lights_size: usize,
    pub aos_size: usize,
}

impl VertexBufferStats {
    /// The sizes of vertex arrays of the given lengths: positions, colours and normals
    /// take 12 bytes per entry, light and occlusion levels 4; the vertex count is the
    /// number of positions.
    pub fn of_lengths(positions: usize, colors: usize, normals: usize, lights: usize, aos: usize) -> (r: Self)
        requires
            positions * 12 + colors * 12 + normals * 12 + lights * 4 + aos * 4 <= usize::MAX,
        ensures
            r == (VertexBufferStats {
                vertex_count: positions,
                total_size: (positions * 12 + colors * 12 + normals * 12 + lights * 4 + aos * 4) as usize,
                positions_size: (positions * 12) as usize,
                colors_size: (colors * 12) as usize,
                normals_size: (normals * 12) as usize,
                lights_size: (lights * 4) as usize,
                aos_size: (aos * 4) as usize,
            }),
    {
        let positions_size = positions * 12;
        let colors_size = colors * 12;
        let normals_size = normals * 12;
        let lights_size = lights * 4;
        let aos_size = aos * 4;
        VertexBufferStats {
            vertex_count: positions,
            total_size: positions_size + colors_size + normals_size + lights_size + aos_size,
            positions_size,
            colors_size,
            normals_size,
            lights_size,
            aos_size,
        }
    }
}

/// The report of a vertex buffer's sizes.
pub open spec fn vertex_stats_text(s: VertexBufferStats) -> Seq<char> {
    "VertexBuffer: "@ + num(s.vertex_count as nat) + " vertices, "@ + num(s.total_size as nat)
        + " bytes total (pos: "@ + num(s.positions_size as nat) + ", col: "@ + num(
        s.colors_size as nat,
    ) + ", norm: "@ + num(s.normals_size as nat) + ", light: "@ + num(s.lights_size as nat)
        + ", ao: "@ + num(s.aos_size as nat) + ")"@
}

impl VertexBufferStats {
    /// The report of the sizes.
    pub fn to_string(&self) -> (r: String)
        ensures
            r@ == vertex_stats_text(*self),
    {
        let mut s = String::from_str("VertexBuffer: ");
        append_u64(&mut s, self.vertex_count as u64);
        s.append(" vertices, ");
        append_u64(&mut s, self.total_size as u64);
        s.append(" bytes total (pos: ");
        append_u64(&mut s, self.positions_size as u64);
        s.append(", col: ");
        append_u64(&mut s, self.colors_size as u64);
        s.append(", norm: ");
        append_u64(&mut s, self.normals_size as u64);
        s.append(", light: ");
        append_u64(&mut s, self.lights_size as u64);
        s.append(", ao: ");
        append_u64(&mut s, self.aos_size as u64);
        s.append(")");
        s
    }
}

/// Sizes of a mesh.
#[derive(Debug, Clone, Copy, PartialEq, Eq, Structural)]
pub struct MeshStats {
    pub vertex_stats: VertexBufferStats,
    pub index_count: usize,
    pub index_size: usize,
    pub total_size: usize,
}

impl MeshStats {
    /// The sizes of a mesh with vertex arrays of sizes `vertex_stats` and `index_count`
    /// indices of 4 bytes each.
    pub fn of_parts(vertex_stats: VertexBufferStats, index_count: usize) -> (r: Self)
        requires
            vertex_stats.total_size + index_count * 4 <= usize::MAX,
        ensures
            r == (MeshStats {
                vertex_stats,
                index_count,
                index_size: (index_count * 4) as usize,
                total_size: (vertex_stats.total_size + index_count * 4) as usize,
            }),
    {
        let index_size = index_count * 4;
        MeshStats { vertex_stats, index_count, index_size, total_size: vertex_stats.total_size + index_size }
    }
}

/// The report of a mesh's sizes.
pub open spec fn mesh_stats_text(s: MeshStats) -> Seq<char> {
    "Mesh: "@ + num(s.index_count as nat) + " indices ("@ + num(s.index_size as nat)
        + "B), Vertices: "@ + vertex_stats_text(s.vertex_stats) + ", Total: "@ + num(
        s.total_size as nat,
    ) + "B"@
}

impl MeshStats {
    /// The report of the sizes.
    pub fn to_string(&self) -> (r: String)
        ensures
            r@ == mesh_stats_text(*self),
    {
        let mut s = String::from_str("Mesh: ");
        append_u64(&mut s, self.index_count as u64);
        s.append(" indices (");
        append_u64(&mut s, self.index_size as u64);
        s.append("B), Vertices: ");
        let v = self.vertex_stats.to_string();
        s.append(v.as_str());
        s.append(", Total: ");
        append_u64(&mut s, self.total_size as u64);
        s.append("B");
        s
    }
}

/// Memory use of a mesh under construction, in bytes per array.
#[derive(Debug, Clone, Copy, PartialEq, Eq, Structural)]
pub struct MeshBuilderStats {
    pub vertex_count: usize,
    pub index_count: usize,
    pub positions_bytes: usize,
    pub colors_bytes: usize,
    pub normals_bytes: usize,
    pub light_bytes: usize,
    pub ao_bytes: usize,
    pub indices_bytes: usize,
}

impl MeshBuilderStats {
    /// The sizes of mesh builder arrays of the given lengths: positions, colours and
    /// normals take 12 bytes per entry, light and occlusion levels and indices 4; the
    /// vertex count is the number of positions and the index count that of indices.
    pub fn of_lengths(
        positions: usize,
        colors: usize,
        normals: usize,
        lights: usize,
        aos: usize,
        indices: usize,
    ) -> (r: Self)
        requires
            positions * 12 <= usize::MAX,
            colors * 12 <= usize::MAX,
            normals * 12 <= usize::MAX,
            lights * 4 <= usize::MAX,
            aos * 4 <= usize::MAX,
            indices * 4 <= usize::MAX,
        ensures
            r == (MeshBuilderStats {
                vertex_count: positions,
                index_count: indices,
                positions_bytes: (positions * 12) as usize,
                colors_bytes: (colors * 12) as usize,
                normals_bytes: (normals * 12) as usize,
                light_bytes: (lights * 4) as usize,
                ao_bytes: (aos * 4) as usize,
                indices_bytes: (indices * 4) as usize,
            }),
    {
        MeshBuilderStats {
            vertex_count: positions,
            index_count: indices,
            positions_bytes: positions * 12,
            colors_bytes: colors * 12,
            normals_bytes: normals * 12,
            light_bytes: lights * 4,
            ao_bytes: aos * 4,
            indices_bytes: indices * 4,
        }
    }

    /// The bytes of all arrays together.
    pub fn total_bytes(&self) -> (r: usize)
        requires
            self.positions_bytes + self.colors_bytes + self.normals_bytes + self.light_bytes
                + self.ao_bytes + self.indices_bytes <= usize::MAX,
        ensures
            r == self.positions_bytes + self.colors_bytes + self.normals_bytes + self.light_bytes
                + self.ao_bytes + self.indices_bytes,
    {
        self.positions_bytes + self.colors_bytes + self.normals_bytes + self.light_bytes
            + self.ao_bytes + self.indices_bytes
    }
}

/// Sizes of a tessellated mesh.
#[derive(Debug, Clone, Copy, PartialEq, Eq, Structural)]
pub struct TessellationStats {
    pub patch_count: usize,
    pub vertex_count: usize,
    pub triangle_count: usize,
}

/// A tessellated mesh of vertices `V`.
pub struct TessellatedMesh<V> {
    pub vertices: Vec<V>,
    pub indices: Vec<u32>,
    pub stats: TessellationStats,
}

/// What a frame rendered.
#[derive(Debug, Clone, Copy, PartialEq, Eq, Structural)]
pub struct RenderStats {
    pub triangles_rendered: u32,
    pub chunks_rendered: u32,
    pub draw_calls: u32,
    pub gpu_memory_used: u64,
}

/// The indices of a cube of six faces with four vertices each: two counter-clockwise
/// triangles per face, `base, base + 1, base + 2` and `base, base + 2, base + 3`.
pub open spec fn cube_index(k: int) -> u32 {
    let base = (k / 6) * 4;
    let corner = k % 6;
    (if corner == 0 || corner == 3 {
        base
    } else if corner == 1 {
        base + 1
    } else if corner == 2 || corner == 4 {
        base + 2
    } else {
        base + 3
    }) as u32
}

/// The 36 indices of a cube: two triangles for each of its six faces.
pub fn create_simple_cube_indices() -> (r: Vec<u32>)
    ensures
        r@.len() == 36,
        forall|k: int| 0 <= k < 36 ==> r@[k] == cube_index(k),
{
    let mut indices: Vec<u32> = Vec::with_capacity(36);
    let mut face: u32 = 0;
    while face < 6
        invariant
            face <= 6,
            indices@.len() == face * 6,
            forall|k: int| 0 <= k < indices@.len() ==> indices@[k] == cube_index(k),
        decreases 6 - face,
    {
        let base = face * 4;
        let ghost start = indices@.len() as int;
        indices.push(base);
        indices.push(base + 1);
        indices.push(base + 2);
        indices.push(base);
        indices.push(base + 2);
        indices.push(base + 3);
        proof {
            assert forall|k: int| start <= k < start + 6 implies indices@[k] == cube_index(k) by {
                assert(k / 6 == face);
                assert(k % 6 == k - start);
            }
        }
        face += 1;
    }
    indices
}

/// Context of renderer errors.
pub struct RendererErrorContext;

/// The error of a failed buffer mapping.
pub fn buffer_mapping_error(msg: &str) -> (r: String)
    ensures
        r@ == "Buffer mapping error"@,
{
    String::from_str("Buffer mapping error")
}

/// Renders a frame; there is nothing to render yet.
pub fn render_frame() {
}

/// Bit `k` of the Morton code of `(x, y)`: below bit 32 the even bits are the low
/// sixteen bits of `x` and the odd bits those of `y`, in order; the bits above are clear.
pub open spec fn morton_bit(x: u32, y: u32, k: u64) -> u64 {
    if k >= 32 {
        0
    } else if k % 2 == 0 {
        ((x as u64) >> (k / 2)) & 1
    } else {
        ((y as u64) >> (k / 2)) & 1
    }
}

/// The Morton code after taking bits `0..i` of `x` and `y`: bit `k` is the code's bit
/// below `2 * i`, clear above.
pub open spec fn morton_prefix(x: u32, y: u32, i: u64, r: u64) -> bool {
    forall|k: u64| k < 64 ==> #[trigger] ((r >> k) & 1) == (if k < 2 * i { morton_bit(x, y, k) } else { 0 })
}

/// Taking bit `i` of `x` and `y` keeps bit `k` of a Morton prefix of length `i` right
/// for a prefix of length `i + 1`.
proof fn lemma_morton_step(x: u32, y: u32, i: u64, r: u64, k: u64)
    by (bit_vector)
    requires
        i < 16,
        k < 64,
        ((r >> k) & 1) == (if k < 2 * i {
            if k >= 32 {
                0
            } else if k % 2 == 0 {
                ((x as u64) >> (k / 2)) & 1
            } else {
                ((y as u64) >> (k / 2)) & 1
            }
        } else {
            0
        }),
    ensures
        (((r | ((((x as u64) >> i) & 1) << (2 * i))) | ((((y as u64) >> i) & 1) << (2 * i + 1))) >> k)
            & 1 == (if k < 2 * (i + 1) {
            if k >= 32 {
                0
            } else if k % 2 == 0 {
                ((x as u64) >> (k / 2)) & 1
            } else {
                ((y as u64) >> (k / 2)) & 1
            }
        } else {
            0
        }),
{
}

/// Simple 2D Morton encoding for spatial sorting: interleaves the low sixteen bits of
/// `x` (even bits) and `y` (odd bits).
pub fn morton_2d(x: u32, y: u32) -> (r: u64)
    ensures
        forall|k: u64| k < 64 ==> #[trigger] ((r >> k) & 1) == morton_bit(x, y, k),
{
    let mut result: u64 = 0;
    let mut i: u64 = 0;
    assert(morton_prefix(x, y, 0, 0)) by {
        assert forall|k: u64| k < 64 implies #[trigger] ((0u64 >> k) & 1) == 0u64 by {
            assert((0u64 >> k) & 1 == 0u64) by (bit_vector);
        }
    }
    while i < 16
        invariant
            i <= 16,
            morton_prefix(x, y, i, result),
        decreases 16 - i,
    {
        let next = (result | ((((x as u64) >> i) & 1) << (2 * i))) | ((((y as u64) >> i) & 1) << (2 * i
            + 1));
        assert(morton_prefix(x, y, (i + 1) as u64, next)) by {
            assert forall|k: u64| k < 64 implies #[trigger] ((next >> k) & 1) == (if k < 2 * (i + 1) {
                morton_bit(x, y, k)
            } else {
                0
            }) by {
                assert(((result >> k) & 1) == (if k < 2 * i { morton_bit(x, y, k) } else { 0 }));
                lemma_morton_step(x, y, i, result, k);
            }
        }
        result = next;
        i = i + 1;
    }
    result
}

} // verus!
