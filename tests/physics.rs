use voxel_world::block::BlockInner;
use voxel_world::block_types::get_block_types;
use voxel_world::chunk_manager::ChunkManager;
use voxel_world::collider::{AAQuader, Vec3};
use voxel_world::coordinates::{BlockPosition, ChunkPosition};
use voxel_world::rigid_body::{collide, restrict_motion, PhysicsEngine, RigidBody, RigidBodyHandle, GRAVITY};
use voxel_world::world_generation::InMemory;

fn small_box() -> AAQuader {
    AAQuader::new(Vec3::new(0, 0, 0), Vec3::new(128, 128, 128))
}

fn empty_world() -> ChunkManager {
    ChunkManager::new(InMemory::with_seed(1), ChunkPosition::new(0, 0, 0), 4096, 8192)
}

#[test]
fn grounded_body_falls_and_flying_body_drifts() {
    let mut grounded = RigidBody::new(Vec3::new(0, 1000, 0), 1, false, small_box(), RigidBodyHandle(1));
    grounded.apply_force();
    assert_eq!(grounded.velocity(), Vec3::new(0, -GRAVITY, 0));
    assert_eq!(grounded.position(), Vec3::new(0, 1000 - GRAVITY, 0));
    grounded.apply_force();
    assert_eq!(grounded.velocity(), Vec3::new(0, -19 - GRAVITY, 0));

    let mut flying = RigidBody::new(Vec3::new(0, 0, 0), 1, true, small_box(), RigidBodyHandle(2));
    flying.add_force(Vec3::new(100, 0, -50));
    flying.apply_force();
    assert_eq!(flying.velocity(), Vec3::new(100, 0, -50));
    assert_eq!(flying.position(), Vec3::new(100, 0, -50));
    assert_eq!(flying.next_force, Vec3::new(0, 0, 0));
    flying.apply_force();
    assert_eq!(flying.velocity(), Vec3::new(80, 0, -40));
    assert_eq!(flying.position(), Vec3::new(180, 0, -90));
}

#[test]
fn push_out_follows_the_motion() {
    let mut body = RigidBody::new(Vec3::new(0, 0, 0), 1, false, small_box(), RigidBodyHandle(1));
    body.velocity = Vec3::new(1, -10, 2);
    restrict_motion(Vec3::new(-5, 3, 1), &mut body);
    assert_eq!(body.position(), Vec3::new(0, 3, 0));
    assert_eq!(body.velocity(), Vec3::new(1, 0, 2));
    let mut moving_out = RigidBody::new(Vec3::new(0, 0, 0), 1, false, small_box(), RigidBodyHandle(1));
    moving_out.velocity = Vec3::new(-20, 1, 0);
    restrict_motion(Vec3::new(-4, 7, 7), &mut moving_out);
    assert_eq!(moving_out.position(), Vec3::new(-4, 0, 0));
    assert_eq!(moving_out.velocity(), Vec3::new(-20, 1, 0));
}

#[test]
fn handles_are_unique_and_survive_removal() {
    let mut engine = PhysicsEngine::new();
    let a = engine.create_rigid_body(Vec3::new(0, 0, 0), 1, true, small_box());
    let b = engine.create_rigid_body(Vec3::new(1, 0, 0), 1, true, small_box());
    let c = engine.create_rigid_body(Vec3::new(2, 0, 0), 1, true, small_box());
    assert!(a != b && b != c && a != c);
    assert_eq!(engine.len(), 3);
    assert!(engine.remove_rigid_body(a));
    assert!(!engine.remove_rigid_body(a));
    assert!(engine.get(a).is_none());
    assert_eq!(engine.get(b).unwrap().position(), Vec3::new(1, 0, 0));
    assert_eq!(engine.get(c).unwrap().position(), Vec3::new(2, 0, 0));
    let d = engine.create_rigid_body(Vec3::new(3, 0, 0), 1, true, small_box());
    assert!(d != a);
    assert_eq!(engine.positions().len(), 3);
    assert!(engine.add_force(d, Vec3::new(0, 5, 0)));
    assert!(!engine.add_force(a, Vec3::new(0, 5, 0)));
    assert!(engine.handles_left());
}

#[test]
fn step_integrates_every_body() {
    let mut engine = PhysicsEngine::new();
    let h = engine.create_rigid_body(Vec3::new(0, 100_000, 0), 1, false, small_box());
    let f = engine.create_rigid_body(Vec3::new(0, 100_000, 0), 1, true, small_box());
    engine.add_force(f, Vec3::new(7, 0, 0));
    let world = empty_world();
    let blocks = get_block_types();
    engine.step(&world, &blocks);
    assert_eq!(engine.get(h).unwrap().position(), Vec3::new(0, 100_000 - GRAVITY, 0));
    assert_eq!(engine.get(f).unwrap().position(), Vec3::new(7, 100_000, 0));
    assert_eq!(engine.get(f).unwrap().next_force, Vec3::new(0, 0, 0));
}

#[test]
fn body_is_pushed_out_of_a_solid_block() {
    let mut world = empty_world();
    world.load_chunk(ChunkPosition::new(0, 1, 0));
    assert!(world.set(BlockPosition::new(4, 16, 4), BlockInner::stone()));
    let blocks = get_block_types();
    let mut body = RigidBody::new(Vec3::new(4 * 256 + 64, 17 * 256 - 40, 4 * 256 + 64), 1, false, small_box(), RigidBodyHandle(1));
    body.velocity = Vec3::new(0, -30, 0);
    collide(&mut body, &world, &blocks);
    assert_eq!(body.position(), Vec3::new(4 * 256 + 64, 17 * 256, 4 * 256 + 64));
    assert_eq!(body.velocity(), Vec3::new(0, 0, 0));

    let mut clear = RigidBody::new(Vec3::new(8 * 256, 20 * 256, 8 * 256), 1, false, small_box(), RigidBodyHandle(2));
    clear.velocity = Vec3::new(0, -30, 0);
    collide(&mut clear, &world, &blocks);
    assert_eq!(clear.position(), Vec3::new(8 * 256, 20 * 256, 8 * 256));
}
