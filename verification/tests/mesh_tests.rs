use hearth_engine::collision::{CollisionData, CollisionStats, ContactPair};
use hearth_engine::greedy_mesh::{build_greedy_mesh, create_greedy_mesh_builder, get_block_index, quad_corners, GreedyQuad};
use hearth_engine::mesh_buffers::{
    clear_mesh_buffers, free_mesh_buffer, get_mesh_buffer, is_mesh_ready, plan_mesh_requests,
    update_mesh_statistics, GpuMeshingState, MeshBufferAllocator, MeshingStats,
};
use hearth_engine::render_stats::{create_simple_cube_indices, morton_2d, MeshBuilderStats, MeshStats, VertexBufferStats};
use hearth_engine::terrain_mesh::{create_simple_cube_vertices, face_corners, generate_chunk_terrain_mesh, CubeVertex, TerrainFace};
use hearth_engine::texture_atlas::{
    add_texture, add_texture_pixels, add_tileset, blit_rgba, create_texture_atlas, find_packing_position, get_region,
    load_default_materials, PackedRect,
};
use hearth_engine::world_types::{BlockId, ChunkPos};

#[test]
fn cube_indices_two_triangles_per_face() {
    let indices = create_simple_cube_indices();
    assert_eq!(indices.len(), 36);
    assert_eq!(&indices[0..6], &[0, 1, 2, 0, 2, 3]);
    assert_eq!(&indices[30..36], &[20, 21, 22, 20, 22, 23]);
}

#[test]
fn block_index_uses_a_grid_of_fifty() {
    assert_eq!(get_block_index(0, 1, 2, 3, 1, 2), 1 + 2 * 50 + 3 * 2500);
    assert_eq!(get_block_index(2, 4, 1, 0, 0, 1), 1 + 0 * 50 + 4 * 2500);
}

#[test]
fn greedy_mesh_merges_a_flat_layer() {
    let size = 2usize;
    let mut blocks = vec![BlockId(0); 2 + 2 * 50 + 2 * 2500];
    for x in 0..2 {
        for z in 0..2 {
            blocks[x + z * 2500] = BlockId(3);
        }
    }
    let mut builder = create_greedy_mesh_builder(20);
    let lights = vec![15u8; blocks.len()];
    let quads = build_greedy_mesh(&mut builder, &blocks, &lights, size);
    let top: Vec<&GreedyQuad> = quads.iter().filter(|q| q.axis == 1 && q.direction == 1).collect();
    assert_eq!(top.len(), 1);
    assert_eq!((top[0].layer, top[0].u, top[0].v, top[0].width, top[0].height), (0, 0, 0, 2, 2));
    assert_eq!(top[0].light, Some(15));
    assert_eq!(quads.len(), 6);
}

#[test]
fn terrain_faces_of_a_single_block() {
    let size = 1u32;
    let mut grid = vec![vec![vec![BlockId(0); 3]; 3]; 3];
    grid[1][1][1] = BlockId(1);
    grid[2][1][1] = BlockId(2);
    let (faces, indices) = generate_chunk_terrain_mesh(&grid, &vec![true; 6], size);
    assert_eq!(faces.len(), 5);
    assert!(faces.iter().all(|f| f.face != 0));
    assert_eq!(indices.len(), 30);
    assert_eq!(&indices[6..12], &[4, 5, 6, 4, 6, 7]);
    let (faces, _) = generate_chunk_terrain_mesh(&grid, &vec![false; 6], size);
    assert_eq!(faces.len(), 6);
}

#[test]
fn water_shows_faces_of_other_blocks_only() {
    let mut grid = vec![vec![vec![BlockId(0); 4]; 3]; 3];
    grid[1][1][1] = BlockId(6);
    grid[1][1][2] = BlockId(6);
    let (faces, _) = generate_chunk_terrain_mesh(&grid, &vec![true; 6], 1);
    assert_eq!(faces.iter().filter(|f| f.face == 4).count(), 0);
}

#[test]
fn contact_pairs_are_ordered() {
    let p = ContactPair::new(9, 4);
    assert_eq!((p.entity_a, p.entity_b), (4, 9));
    assert_eq!(p, ContactPair::new(4, 9));
    assert!(p.contains(9) && !p.contains(5));
}

#[test]
fn collisions_group_contacts_by_pair() {
    let mut data: CollisionData<u8, i32> = CollisionData::new(8, 0);
    assert_eq!(data.add_collision(1, 2, 10, 5, 6), 0);
    assert_eq!(data.add_collision(3, 4, 20, 7, 8), 1);
    assert_eq!(data.add_collision(2, 1, 11, 9, 9), 0);
    assert_eq!(data.pair_count(), 2);
    assert_eq!(data.get_contacts_for_pair(0), vec![10, 11]);
    assert_eq!(data.get_contacts_for_pair(1), vec![20]);
    assert_eq!(data.contact_counts, vec![2, 1]);
    assert_eq!(data.contact_owners, vec![0, 1, 0]);
    assert_eq!(data.get_contacts_for_pair(5).len(), 0);
    assert_eq!(data.prepare_parallel_batches(1), vec![(0, 1), (1, 2)]);
    data.normal_impulses[0] = 42;
    data.clear();
    assert_eq!(data.pair_count(), 0);
    assert_eq!(data.add_collision(2, 1, 1, 0, 0), 0);
    assert_eq!(data.normal_impulses, vec![42]);
    assert_eq!(data.combined_restitutions, vec![0]);
}

#[test]
fn collision_stats_total_and_reset() {
    let mut stats = CollisionStats::default();
    stats.broad_phase_time_us = 3;
    stats.narrow_phase_time_us = 4;
    stats.solver_time_us = 5;
    assert_eq!(stats.total_time_us(), 12);
    stats.reset();
    assert_eq!(stats.total_time_us(), 0);
}

#[test]
fn atlas_packs_rows_and_hands_out_ids() {
    let mut atlas = create_texture_atlas(64, 16, 8192);
    assert_eq!(atlas.atlas_size, 64);
    let a = add_texture(&mut atlas, 16, 16);
    let b = add_texture(&mut atlas, 40, 8);
    assert_eq!((a, b), (1, 2));
    assert_eq!(atlas.packed_rects[0], PackedRect { x: 0, y: 0, width: 20, height: 20 });
    assert_eq!(atlas.packed_rects[1], PackedRect { x: 20, y: 0, width: 20, height: 12 });
    assert_eq!(get_region(&atlas, 2), Some(PackedRect { x: 22, y: 2, width: 16, height: 8 }));
    let c = add_texture(&mut atlas, 16, 16);
    assert_eq!(atlas.packed_rects[2], PackedRect { x: 40, y: 0, width: 20, height: 20 });
    let d = add_texture(&mut atlas, 16, 16);
    assert_eq!(atlas.packed_rects[3], PackedRect { x: 0, y: 20, width: 20, height: 20 });
    assert_eq!((c, d), (3, 4));
    assert_eq!(find_packing_position(&atlas, 70, 70), None);
    assert_eq!(get_region(&atlas, 9), None);
}

#[test]
fn full_atlas_gives_the_default_material() {
    let mut atlas = create_texture_atlas(100, 16, 30);
    assert_eq!(atlas.atlas_size, 30);
    let lib = load_default_materials(&mut atlas);
    assert_eq!(lib.stone, 1);
    assert_eq!(lib.dirt, 0);
    assert_eq!(lib.leaves, 0);
    assert_eq!(atlas.next_material_id, 2);
    let ids = add_tileset(&mut atlas, 32, 32, 2, 2);
    assert_eq!(ids, vec![0, 0, 0, 0]);
}

#[test]
fn mesh_buffer_pool_stays_sorted() {
    let mut state = GpuMeshingState {
        mesh_buffers: vec!['a', 'b'],
        allocator: MeshBufferAllocator {
            allocated_buffers: vec![(ChunkPos { x: 0, y: 0, z: 0 }, 7), (ChunkPos { x: 1, y: 0, z: 0 }, 2)],
            free_buffers: vec![1, 5],
        },
        stats: MeshingStats { total_meshes: 3 },
    };
    free_mesh_buffer(&mut state, &ChunkPos { x: 1, y: 0, z: 0 });
    assert_eq!(state.allocator.free_buffers, vec![1, 2, 5]);
    free_mesh_buffer(&mut state, &ChunkPos { x: 9, y: 0, z: 0 });
    assert_eq!(state.allocator.free_buffers, vec![1, 2, 5]);
    clear_mesh_buffers(&mut state);
    assert_eq!(state.allocator.free_buffers, vec![1, 2, 5, 7]);
    assert!(state.allocator.allocated_buffers.is_empty());
    update_mesh_statistics(&mut state, 4);
    assert_eq!(state.stats.total_meshes, 7);
    assert!(is_mesh_ready(&state, 1));
    assert!(!is_mesh_ready(&state, 2));
    assert_eq!(get_mesh_buffer(&state, 1), Some(&'b'));
    assert_eq!(get_mesh_buffer(&state, 2), None);
}

#[test]
fn freeing_a_buffer_sorts_an_unsorted_pool() {
    let mut state = GpuMeshingState {
        mesh_buffers: vec![0u8; 4],
        allocator: MeshBufferAllocator {
            allocated_buffers: vec![(ChunkPos { x: 3, y: 0, z: 0 }, 4)],
            free_buffers: vec![9, 1, 6],
        },
        stats: MeshingStats { total_meshes: 0 },
    };
    free_mesh_buffer(&mut state, &ChunkPos { x: 2, y: 0, z: 0 });
    assert_eq!(state.allocator.free_buffers, vec![9, 1, 6]);
    free_mesh_buffer(&mut state, &ChunkPos { x: 3, y: 0, z: 0 });
    assert_eq!(state.allocator.free_buffers, vec![1, 4, 6, 9]);
    assert!(state.allocator.allocated_buffers.is_empty());
}

#[test]
fn mesh_requests_use_buffer_zero() {
    let chunks = vec![ChunkPos { x: 1, y: 2, z: 3 }, ChunkPos { x: 4, y: 5, z: 6 }];
    let plan = plan_mesh_requests(&chunks, 1);
    assert_eq!(plan.len(), 1);
    assert_eq!(plan[0].chunk_pos, ChunkPos { x: 1, y: 2, z: 3 });
    assert_eq!(plan[0].buffer_index, 0);
    assert_eq!(plan_mesh_requests(&chunks, 8).len(), 2);
}

#[test]
fn stats_reports() {
    let v = VertexBufferStats {
        vertex_count: 4,
        total_size: 100,
        positions_size: 48,
        colors_size: 16,
        normals_size: 16,
        lights_size: 16,
        aos_size: 4,
    };
    assert_eq!(
        v.to_string(),
        "VertexBuffer: 4 vertices, 100 bytes total (pos: 48, col: 16, norm: 16, light: 16, ao: 4)"
    );
    let m = MeshStats { vertex_stats: v, index_count: 6, index_size: 24, total_size: 124 };
    assert!(m.to_string().starts_with("Mesh: 6 indices (24B), Vertices: VertexBuffer: 4"));
    assert!(m.to_string().ends_with(", Total: 124B"));
    let b = MeshBuilderStats {
        vertex_count: 1,
        index_count: 1,
        positions_bytes: 1,
        colors_bytes: 2,
        normals_bytes: 3,
        light_bytes: 4,
        ao_bytes: 5,
        indices_bytes: 6,
    };
    assert_eq!(b.total_bytes(), 21);
}

#[test]
fn face_corners_follow_the_face_normal() {
    let top = TerrainFace { x: 3, y: 4, z: 5, face: 2, block: BlockId(1) };
    assert_eq!(face_corners(&top), vec![(3, 5, 5), (4, 5, 5), (4, 5, 6), (3, 5, 6)]);
    let west = TerrainFace { x: 0, y: 0, z: 0, face: 1, block: BlockId(1) };
    assert_eq!(face_corners(&west), vec![(0, 0, 1), (0, 0, 0), (0, 1, 0), (0, 1, 1)]);
    let south = TerrainFace { x: 7, y: 1, z: 2, face: 5, block: BlockId(2) };
    assert_eq!(face_corners(&south), vec![(7, 1, 2), (8, 1, 2), (8, 2, 2), (7, 2, 2)]);
}

#[test]
fn morton_code_interleaves_low_bits() {
    assert_eq!(morton_2d(0, 0), 0);
    assert_eq!(morton_2d(1, 0), 1);
    assert_eq!(morton_2d(0, 1), 2);
    assert_eq!(morton_2d(0b11, 0), 0b101);
    assert_eq!(morton_2d(3, 5), 39);
    assert_eq!(morton_2d(0xFFFF, 0xFFFF), 0xFFFF_FFFF);
    assert_eq!(morton_2d(0x1_0000, 0x1_0000), 0);
}

#[test]
fn cube_vertices_follow_the_faces() {
    let v = create_simple_cube_vertices();
    assert_eq!(v.len(), 24);
    assert_eq!(v[0], CubeVertex { x: 1, y: 0, z: 0, face: 0, light: 15, ao: 3 });
    assert_eq!(v[3], CubeVertex { x: 1, y: 1, z: 0, face: 0, light: 15, ao: 3 });
    assert_eq!(v[4], CubeVertex { x: 0, y: 0, z: 1, face: 1, light: 15, ao: 3 });
    assert_eq!(v[23], CubeVertex { x: 0, y: 1, z: 0, face: 5, light: 15, ao: 3 });
    for (k, vertex) in v.iter().enumerate() {
        assert_eq!(vertex.face as usize, k / 4);
    }
}

#[test]
fn quad_corners_span_the_rectangle() {
    let q = GreedyQuad { axis: 1, direction: 1, layer: 4, u: 2, v: 3, width: 5, height: 2, block: BlockId(3), light: None };
    assert_eq!(quad_corners(&q), vec![(2, 5, 3), (7, 5, 3), (7, 5, 5), (2, 5, 5)]);
    let q0 = GreedyQuad { axis: 0, direction: 0, layer: 7, u: 1, v: 1, width: 1, height: 3, block: BlockId(1), light: Some(9) };
    assert_eq!(quad_corners(&q0), vec![(7, 1, 1), (7, 2, 1), (7, 2, 4), (7, 1, 4)]);
    let qz = GreedyQuad { axis: 2, direction: 1, layer: 0, u: 0, v: 0, width: 2, height: 2, block: BlockId(1), light: None };
    assert_eq!(quad_corners(&qz), vec![(0, 0, 1), (2, 0, 1), (2, 2, 1), (0, 2, 1)]);
}

#[test]
fn stats_of_array_lengths() {
    let v = VertexBufferStats::of_lengths(10, 10, 10, 10, 10);
    assert_eq!(v.vertex_count, 10);
    assert_eq!(v.positions_size, 120);
    assert_eq!(v.lights_size, 40);
    assert_eq!(v.total_size, 440);
    let m = MeshBuilderStats::of_lengths(4, 4, 4, 4, 4, 6);
    assert_eq!(m.index_count, 6);
    assert_eq!(m.indices_bytes, 24);
    assert_eq!(m.total_bytes(), 48 * 3 + 16 * 2 + 24);
}

#[test]
fn packed_textures_never_overlap() {
    let mut atlas = create_texture_atlas(128, 32, 8192);
    let sizes = [(16, 16), (32, 8), (5, 30), (40, 40), (16, 16), (1, 1), (32, 32), (20, 3), (32, 32), (8, 8)];
    for (w, h) in sizes {
        add_texture(&mut atlas, w, h);
    }
    let rects = &atlas.packed_rects;
    assert!(rects.len() >= 5);
    for i in 0..rects.len() {
        for j in 0..rects.len() {
            if i != j {
                let (a, b) = (rects[i], rects[j]);
                let overlap = a.x < b.x + b.width && b.x < a.x + a.width && a.y < b.y + b.height && b.y < a.y + a.height;
                assert!(!overlap, "rectangles {} and {} overlap", i, j);
            }
        }
    }
}

#[test]
fn mesh_stats_add_index_bytes() {
    let v = VertexBufferStats::of_lengths(4, 4, 4, 4, 4);
    let m = MeshStats::of_parts(v, 6);
    assert_eq!(m.index_size, 24);
    assert_eq!(m.total_size, 176 + 24);
    assert_eq!(m.vertex_stats, v);
}

#[test]
fn blit_copies_a_block_and_leaves_the_rest() {
    // A 4x4 atlas of zero bytes; a 3x2 source whose pixel (x, y) is [10y+x; 4].
    let mut atlas = vec![0u8; 4 * 4 * 4];
    let mut src = Vec::new();
    for y in 0..2u8 {
        for x in 0..3u8 {
            src.extend_from_slice(&[10 * y + x; 4]);
        }
    }
    blit_rgba(&mut atlas, 4, 1, 2, &src, 3, 2, 2, 2);
    let px = |a: &Vec<u8>, x: usize, y: usize| a[4 * (y * 4 + x)];
    assert_eq!(px(&atlas, 1, 2), 0);
    assert_eq!(px(&atlas, 2, 2), 1);
    assert_eq!(px(&atlas, 1, 3), 10);
    assert_eq!(px(&atlas, 2, 3), 11);
    assert_eq!(atlas[4 * (3 * 4 + 2) + 3], 11);
    let written = atlas.iter().filter(|&&b| b != 0).count();
    assert_eq!(written, 12);
    assert_eq!(px(&atlas, 3, 2), 0);
    assert_eq!(px(&atlas, 0, 0), 0);
}

#[test]
fn texture_pixels_land_inside_the_padding() {
    let mut atlas = create_texture_atlas(8, 4, 8192);
    let mut pixels = vec![0u8; 4 * 8 * 8];
    let rgba = vec![7u8; 4 * 2 * 3];
    let id = add_texture_pixels(&mut atlas, &mut pixels, &rgba, 2, 3);
    assert_eq!(id, 1);
    assert_eq!(get_region(&atlas, 1), Some(PackedRect { x: 2, y: 2, width: 2, height: 3 }));
    for y in 0..8usize {
        for x in 0..8usize {
            let inside = (2..4).contains(&x) && (2..5).contains(&y);
            assert_eq!(pixels[4 * (y * 8 + x)], if inside { 7 } else { 0 });
        }
    }
    let full = add_texture_pixels(&mut atlas, &mut pixels, &rgba, 2, 3);
    assert_eq!(full, 0);
}
