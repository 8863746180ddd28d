use voxel_world::block::BlockInner;
use voxel_world::block_types::get_block_types;
use voxel_world::chunk_manager::{ChunkManager, CHUNK_UNITS};
use voxel_world::collider::Vec3;
use voxel_world::coordinates::{BlockPosition, BlockVector, ChunkPosition};
use voxel_world::world_generation::{generate_chunk, InMemory};

fn center_distance2(p: ChunkPosition, r: Vec3) -> i128 {
    let d = |c: i64, v: i64| (c as i128 * 4096 + 2048 - v as i128).pow(2);
    d(p.x, r.x) + d(p.y, r.y) + d(p.z, r.z)
}

fn manager(load: i64, unload: i64) -> ChunkManager {
    ChunkManager::new(InMemory::with_seed(3), ChunkPosition::new(0, 0, 0), load * CHUNK_UNITS, unload * CHUNK_UNITS)
}

#[test]
fn scope_update_loads_and_unloads_by_distance() {
    let mut m = manager(2, 4);
    let reference = Vec3::new(2048, 2048, 2048);
    m.update_chunk_scope(reference);
    for x in -6..=6 {
        for y in -6..=6 {
            for z in -6..=6 {
                let p = ChunkPosition::new(x, y, z);
                let d = center_distance2(p, reference);
                assert_eq!(m.contains(&p), d <= (2 * 4096i128).pow(2), "chunk {:?}", p);
            }
        }
    }
    assert_eq!(m.loaded_count(), 33);
    let far = Vec3::new(2048 + 3 * 4096, 2048, 2048);
    m.update_chunk_scope(far);
    for p in m.loaded_positions() {
        assert!(center_distance2(p, far) <= (4 * 4096i128).pow(2));
    }
    assert!(m.contains(&ChunkPosition::new(-1, 0, 0)));
    assert!(!m.contains(&ChunkPosition::new(-2, 0, 0)));
    assert!(m.contains(&ChunkPosition::new(1, 0, 0)));
    assert!(m.contains(&ChunkPosition::new(3, 0, 0)));
}

#[test]
fn loading_marks_the_chunk_and_its_loaded_neighbors() {
    let mut m = manager(1, 2);
    assert!(m.load_chunk(ChunkPosition::new(0, 0, 0)));
    assert_eq!(m.pending_positions(), vec![ChunkPosition::new(0, 0, 0)]);
    assert!(m.load_chunk(ChunkPosition::new(1, 0, 0)));
    assert_eq!(m.pending_positions(), vec![ChunkPosition::new(0, 0, 0), ChunkPosition::new(1, 0, 0)]);
    assert!(!m.load_chunk(ChunkPosition::new(1, 0, 0)));
    let blocks = get_block_types();
    let rebuilt = m.drain_remesh(&blocks);
    assert_eq!(rebuilt.len(), 2);
    assert!(m.load_chunk(ChunkPosition::new(0, 0, 1)));
    assert_eq!(m.pending_positions(), vec![ChunkPosition::new(0, 0, 1), ChunkPosition::new(0, 0, 0)]);
}

#[test]
fn loaded_chunks_hold_generated_terrain() {
    let mut m = manager(1, 2);
    m.load_chunk(ChunkPosition::new(-2, 0, 3));
    let data = generate_chunk(3, ChunkPosition::new(-2, 0, 3));
    for (v, b) in data.iter() {
        let global = ChunkPosition::new(-2, 0, 3) + v;
        assert_eq!(m.get(global), Some(b));
    }
    assert_eq!(m.get(BlockPosition::new(0, 0, 0)), None);
}

#[test]
fn editing_marks_the_chunks_that_share_the_face() {
    let mut m = manager(1, 2);
    m.load_chunk(ChunkPosition::new(0, 1, 0));
    let blocks = get_block_types();
    m.drain_remesh(&blocks);
    assert!(m.set(BlockPosition::new(0, 31, 5), BlockInner::stone()));
    assert_eq!(m.get(BlockPosition::new(0, 31, 5)), Some(BlockInner::stone()));
    let mut pending = m.pending_positions();
    pending.sort_by_key(|p| (p.x, p.y, p.z));
    assert_eq!(
        pending,
        vec![ChunkPosition::new(-1, 1, 0), ChunkPosition::new(0, 1, 0), ChunkPosition::new(0, 2, 0)]
    );
    let rebuilt = m.drain_remesh(&blocks);
    assert_eq!(rebuilt.len(), 1);
    assert_eq!(rebuilt[0].0, ChunkPosition::new(0, 1, 0));
    let mesh = rebuilt[0].1.as_ref().expect("one cube is visible");
    assert_eq!(mesh.vertices.len(), 24);
}

#[test]
fn editing_an_unloaded_chunk_changes_nothing() {
    let mut m = manager(1, 2);
    assert!(!m.set(BlockPosition::new(100, 0, 0), BlockInner::stone()));
    assert!(m.pending_positions().is_empty());
    assert_eq!(m.get(BlockPosition::new(100, 0, 0)), None);
}

#[test]
fn second_drain_does_nothing() {
    let mut m = manager(1, 3);
    m.update_chunk_scope(Vec3::new(100, 100, 100));
    let blocks = get_block_types();
    let first = m.drain_remesh(&blocks);
    assert!(!first.is_empty());
    let second = m.drain_remesh(&blocks);
    assert!(second.is_empty());
}

#[test]
fn drain_skips_unloaded_chunks() {
    let mut m = manager(1, 1);
    m.load_chunk(ChunkPosition::new(0, 1, 0));
    m.update_chunk_scope(Vec3::new(100 * 4096 + 2048, 2048, 2048));
    assert!(!m.contains(&ChunkPosition::new(0, 1, 0)));
    assert_eq!(m.loaded_count(), 7);
    assert!(m.contains(&ChunkPosition::new(100, 0, 0)));
    assert!(m.contains(&ChunkPosition::new(101, 0, 0)));
    let pending = m.pending_positions();
    assert_eq!(pending.len(), 8);
    assert_eq!(pending[0], ChunkPosition::new(0, 1, 0));
    let blocks = get_block_types();
    let rebuilt = m.drain_remesh(&blocks);
    assert_eq!(rebuilt.len(), 7);
    assert!(rebuilt.iter().all(|(p, _)| *p != ChunkPosition::new(0, 1, 0)));
    assert!(m.pending_positions().is_empty());
}

#[test]
fn air_chunk_has_no_mesh() {
    let mut m = manager(1, 2);
    m.load_chunk(ChunkPosition::new(0, 5, 0));
    let blocks = get_block_types();
    let rebuilt = m.drain_remesh(&blocks);
    assert_eq!(rebuilt.len(), 1);
    assert!(rebuilt[0].1.is_none());
    let _ = BlockVector::new(0, 0, 0);
}

#[test]
fn fractional_load_radius() {
    let mut m = ChunkManager::new(InMemory::with_seed(3), ChunkPosition::new(0, 0, 0), 5 * CHUNK_UNITS / 2, 4 * CHUNK_UNITS);
    m.update_chunk_scope(Vec3::new(2048, 2048, 2048));
    assert!(m.contains(&ChunkPosition::new(2, 1, 0)));
    assert!(m.contains(&ChunkPosition::new(2, 1, 1)));
    assert!(!m.contains(&ChunkPosition::new(2, 2, 0)));
    assert!(!m.contains(&ChunkPosition::new(3, 0, 0)));
}
