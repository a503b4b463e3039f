//! GPU mesh buffers: which chunk holds which buffer, the pool of free buffers kept in
//! ascending order, and the requests of a meshing batch.

use vstd::prelude::*;
use crate::world_types::ChunkPos;

verus! {

/// Where a chunk's mesh was generated.
#[derive(Debug, Clone, Copy, PartialEq, Eq, Structural)]
pub struct MeshGenerationResult {
    pub chunk_pos: ChunkPos,
    pub buffer_index: u32,
}

/// Buffers handed to chunks, and the free ones.
pub struct MeshBufferAllocator {
    pub allocated_buffers: Vec<(ChunkPos, u32)>,
    pub free_buffers: Vec<u32>,
}

/// Counters of GPU meshing.
pub struct MeshingStats {
    pub total_meshes: u64,
}

/// GPU meshing state; `B` is a mesh buffer.
pub struct GpuMeshingState<B> {
    pub mesh_buffers: Vec<B>,
    pub allocator: MeshBufferAllocator,
    pub stats: MeshingStats,
}

/// Whether the numbers ascend.
pub open spec fn ascending(s: Seq<u32>) -> bool {
    forall|i: int, j: int| 0 <= i < j < s.len() ==> s[i] <= s[j]
}

/// Puts `x` into the ascending `v`, after the numbers no greater than it.
fn insert_ascending(v: &mut Vec<u32>, x: u32)
    requires
        ascending(old(v)@),
    ensures
        ascending(final(v)@),
        final(v)@.to_multiset() == old(v)@.to_multiset().insert(x),
{
    let mut p: usize = 0;
    while p < v.len()
        invariant
            p <= v@.len(),
            forall|j: int| 0 <= j < p ==> #[trigger] v@[j] <= x,
        ensures
            p <= v@.len(),
            forall|j: int| 0 <= j < p ==> #[trigger] v@[j] <= x,
            p < v@.len() ==> x < v@[p as int],
        decreases v@.len() - p,
    {
        if x < v[p] {
            break;
        }
        p += 1;
    }
    let ghost before = v@;
    proof {
        vstd::seq_lib::to_multiset_insert(before, p as int, x);
    }
    v.insert(p, x);
    proof {
        assert(v@ =~= before.insert(p as int, x));
        assert forall|i: int, j: int| 0 <= i < j < v@.len() implies v@[i] <= v@[j] by {
            if j < p {
                assert(v@[i] == before[i] && v@[j] == before[j]);
            } else if j == p {
                assert(v@[i] == before[i]);
            } else {
                assert(v@[j] == before[j - 1]);
                assert(before[p as int] <= before[j - 1] || p == j - 1);
                if i < p {
                    assert(v@[i] == before[i]);
                } else if i > p {
                    assert(v@[i] == before[i - 1]);
                }
            }
        }
    }
}

/// Sorts the numbers in ascending order.
fn sort_ascending(v: &mut Vec<u32>)
    ensures
        ascending(final(v)@),
        final(v)@.to_multiset() == old(v)@.to_multiset(),
{
    let ghost start = v@;
    let mut rest: Vec<u32> = Vec::new();
    std::mem::swap(v, &mut rest);
    assert(v@ =~= rest@.take(0));
    let mut i: usize = 0;
    while i < rest.len()
        invariant
            rest@ == start,
            i <= rest@.len(),
            ascending(v@),
            v@.to_multiset() == rest@.take(i as int).to_multiset(),
        decreases rest@.len() - i,
    {
        let x = rest[i];
        insert_ascending(v, x);
        proof {
            assert(rest@.take(i + 1) =~= rest@.take(i as int).push(x));
            vstd::seq_lib::to_multiset_build(rest@.take(i as int), x);
        }
        i += 1;
    }
    assert(rest@.take(rest@.len() as int) =~= rest@);
}

/// The buffer indices of the allocations, in order.
pub open spec fn allocation_indices(allocated: Seq<(ChunkPos, u32)>) -> Seq<u32> {
    allocated.map_values(|a: (ChunkPos, u32)| a.1)
}

/// Counts `generated_count` more generated meshes.
pub fn update_mesh_statistics<B>(state: &mut GpuMeshingState<B>, generated_count: u32)
    requires
        old(state).stats.total_meshes + generated_count <= u64::MAX,
    ensures
        final(state).stats.total_meshes == old(state).stats.total_meshes + generated_count,
        final(state).mesh_buffers@ == old(state).mesh_buffers@,
        final(state).allocator.allocated_buffers@ == old(state).allocator.allocated_buffers@,
        final(state).allocator.free_buffers@ == old(state).allocator.free_buffers@,
{
    state.stats.total_meshes = state.stats.total_meshes + generated_count as u64;
}

/// Whether the buffer at `buffer_index` exists, counting the buffers as a `u32`.
pub fn is_mesh_ready<B>(state: &GpuMeshingState<B>, buffer_index: u32) -> (r: bool)
    ensures
        r == (buffer_index < (state.mesh_buffers@.len() as u32)),
{
    #[verifier::truncate]
    let count = state.mesh_buffers.len() as u32;
    buffer_index < count
}

/// The buffer at `buffer_index`, where there is one.
pub fn get_mesh_buffer<B>(state: &GpuMeshingState<B>, buffer_index: u32) -> (r: Option<&B>)
    ensures
        (buffer_index as int) < state.mesh_buffers@.len() ==> r == Some(
            &state.mesh_buffers@[buffer_index as int],
        ),
        (buffer_index as int) >= state.mesh_buffers@.len() ==> r is None,
{
    let i = buffer_index as usize;
    if i < state.mesh_buffers.len() {
        Some(&state.mesh_buffers[i])
    } else {
        None
    }
}

/// Returns the buffer of an unloaded chunk to the free pool, which is then sorted in
/// ascending order; nothing happens to a chunk without a buffer.
pub fn free_mesh_buffer<B>(state: &mut GpuMeshingState<B>, chunk_pos: &ChunkPos)
    requires
        forall|i: int, j: int|
            0 <= i < j < old(state).allocator.allocated_buffers@.len() ==> old(
                state,
            ).allocator.allocated_buffers@[i].0 != old(state).allocator.allocated_buffers@[j].0,
    ensures
        final(state).mesh_buffers@ == old(state).mesh_buffers@,
        final(state).stats.total_meshes == old(state).stats.total_meshes,
        match allocation_of(old(state).allocator.allocated_buffers@, *chunk_pos) {
            Some(k) => {
                &&& final(state).allocator.allocated_buffers@ == old(
                    state,
                ).allocator.allocated_buffers@.remove(k)
                &&& final(state).allocator.free_buffers@.to_multiset() == old(
                    state,
                ).allocator.free_buffers@.to_multiset().insert(
                    old(state).allocator.allocated_buffers@[k].1,
                )
                &&& ascending(final(state).allocator.free_buffers@)
            },
            None => {
                &&& final(state).allocator.allocated_buffers@ == old(
                    state,
                ).allocator.allocated_buffers@
                &&& final(state).allocator.free_buffers@ == old(state).allocator.free_buffers@
            },
        },
{
    let mut k: usize = 0;
    while k < state.allocator.allocated_buffers.len()
        invariant
            k <= state.allocator.allocated_buffers@.len(),
            state.allocator.allocated_buffers@ == old(state).allocator.allocated_buffers@,
            state.allocator.free_buffers@ == old(state).allocator.free_buffers@,
            state.mesh_buffers@ == old(state).mesh_buffers@,
            state.stats.total_meshes == old(state).stats.total_meshes,
            forall|i: int, j: int|
                0 <= i < j < state.allocator.allocated_buffers@.len()
                    ==> state.allocator.allocated_buffers@[i].0 != state.allocator.allocated_buffers@[j].0,
            forall|j: int| 0 <= j < k ==> (#[trigger] state.allocator.allocated_buffers@[j]).0 != *chunk_pos,
        decreases state.allocator.allocated_buffers@.len() - k,
    {
        if state.allocator.allocated_buffers[k].0 == *chunk_pos {
            proof {
                let kk = k as int;
                let all = state.allocator.allocated_buffers@;
                assert(all[kk].0 == *chunk_pos);
                let c = choose|c: int| 0 <= c < all.len() && all[c].0 == *chunk_pos;
                if c != kk {
                    if c < kk {
                    } else {
                        assert(all[kk].0 != all[c].0);
                    }
                }
            }
            let (_, buffer_index) = state.allocator.allocated_buffers.remove(k);
            let ghost before = state.allocator.free_buffers@;
            state.allocator.free_buffers.push(buffer_index);
            proof {
                vstd::seq_lib::to_multiset_build(before, buffer_index);
            }
            sort_ascending(&mut state.allocator.free_buffers);
            return;
        }
        k += 1;
    }
}

/// The position of the allocation of `chunk_pos`, where there is one.
pub open spec fn allocation_of(allocated: Seq<(ChunkPos, u32)>, chunk_pos: ChunkPos) -> Option<int> {
    if exists|i: int| 0 <= i < allocated.len() && allocated[i].0 == chunk_pos {
        Some(choose|i: int| 0 <= i < allocated.len() && allocated[i].0 == chunk_pos)
    } else {
        None
    }
}

/// Returns every allocated buffer to the free pool, which ends in ascending order.
pub fn clear_mesh_buffers<B>(state: &mut GpuMeshingState<B>)
    ensures
        final(state).mesh_buffers@ == old(state).mesh_buffers@,
        final(state).stats.total_meshes == old(state).stats.total_meshes,
        final(state).allocator.allocated_buffers@.len() == 0,
        ascending(final(state).allocator.free_buffers@),
        final(state).allocator.free_buffers@.to_multiset() == (old(state).allocator.free_buffers@
            + allocation_indices(old(state).allocator.allocated_buffers@)).to_multiset(),
{
    let mut allocated: Vec<(ChunkPos, u32)> = Vec::new();
    std::mem::swap(&mut allocated, &mut state.allocator.allocated_buffers);
    let ghost start = state.allocator.free_buffers@;
    let mut i: usize = 0;
    while i < allocated.len()
        invariant
            i <= allocated@.len(),
            allocated@ == old(state).allocator.allocated_buffers@,
            start == old(state).allocator.free_buffers@,
            state.allocator.allocated_buffers@.len() == 0,
            state.mesh_buffers@ == old(state).mesh_buffers@,
            state.stats.total_meshes == old(state).stats.total_meshes,
            state.allocator.free_buffers@ == start + allocation_indices(allocated@.take(i as int)),
        decreases allocated@.len() - i,
    {
        let (_, buffer_index) = allocated[i];
        state.allocator.free_buffers.push(buffer_index);
        proof {
            assert(allocation_indices(allocated@.take(i + 1)) =~= allocation_indices(
                allocated@.take(i as int),
            ).push(buffer_index));
        }
        i += 1;
    }
    proof {
        assert(allocated@.take(allocated@.len() as int) =~= allocated@);
    }
    sort_ascending(&mut state.allocator.free_buffers);
}

/// The requests of a meshing batch: the first chunks, up to `max_concurrent` of them, all
/// generated into buffer 0 so that they draw together.
pub fn plan_mesh_requests(chunk_positions: &[ChunkPos], max_concurrent: usize) -> (r: Vec<
    MeshGenerationResult,
>)
    ensures
        r@.len() == if chunk_positions@.len() < max_concurrent {
            chunk_positions@.len() as int
        } else {
            max_concurrent as int
        },
        forall|i: int|
            0 <= i < r@.len() ==> #[trigger] r@[i] == (MeshGenerationResult {
                chunk_pos: chunk_positions@[i],
                buffer_index: 0,
            }),
{
    let batch = if chunk_positions.len() < max_concurrent {
        chunk_positions.len()
    } else {
        max_concurrent
    };
    let mut results: Vec<MeshGenerationResult> = Vec::new();
    let mut i: usize = 0;
    while i < batch
        invariant
            batch <= chunk_positions@.len(),
            i <= batch,
            results@.len() == i,
            forall|k: int|
                0 <= k < i ==> #[trigger] results@[k] == (MeshGenerationResult {
                    chunk_pos: chunk_positions@[k],
                    buffer_index: 0,
                }),
        decreases batch - i,
    {
        results.push(MeshGenerationResult { chunk_pos: chunk_positions[i], buffer_index: 0 });
        i += 1;
    }
    results
}

} // verus!
