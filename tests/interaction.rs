use voxel_world::block::BlockInner;
use voxel_world::chunk_manager::ChunkManager;
use voxel_world::collider::Vec3;
use voxel_world::coordinates::{BlockPosition, ChunkPosition};
use voxel_world::interaction::{break_block, break_target, place_block, place_target};
use voxel_world::ray::Ray;
use voxel_world::world_generation::InMemory;
use voxel_world::settings::RenderSettings;

fn world_with_pillar() -> ChunkManager {
    let mut world = ChunkManager::new(InMemory::with_seed(1), ChunkPosition::new(0, 1, 0), 4096, 8192);
    world.load_chunk(ChunkPosition::new(0, 1, 0));
    world.set(BlockPosition::new(5, 20, 3), BlockInner::stone());
    world
}

fn ray_along_x() -> Ray {
    Ray::new(Vec3::new(256 + 128, 20 * 256 + 128, 3 * 256 + 128), Vec3::new(256, 0, 0))
}

#[test]
fn breaking_picks_the_first_solid_block() {
    let world = world_with_pillar();
    assert_eq!(break_target(&world, &ray_along_x(), 100), Some(BlockPosition::new(5, 20, 3)));
    assert_eq!(break_target(&world, &ray_along_x(), 3), None);
    let mut world = world;
    assert_eq!(break_block(&mut world, &ray_along_x()), Some(BlockPosition::new(5, 20, 3)));
    assert_eq!(world.get(BlockPosition::new(5, 20, 3)), Some(BlockInner::air()));
    assert_eq!(break_target(&world, &ray_along_x(), 100), None);
}

#[test]
fn placing_fills_the_cell_before_the_first_solid_block() {
    let world = world_with_pillar();
    let start = BlockPosition::new(1, 20, 3);
    assert_eq!(place_target(&world, &ray_along_x(), start, 100), Some(BlockPosition::new(4, 20, 3)));
    let mut world = world;
    assert_eq!(place_block(&mut world, &ray_along_x(), start, BlockInner::wood()), Some(BlockPosition::new(4, 20, 3)));
    assert_eq!(world.get(BlockPosition::new(4, 20, 3)), Some(BlockInner::wood()));
}

#[test]
fn default_render_settings() {
    assert_eq!(RenderSettings::default().msaa_samples, 4);
}
