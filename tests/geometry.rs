use voxel_world::collider::{AAQuader, Vec3, UNITS_PER_BLOCK};
use voxel_world::coordinates::{BlockPosition, BlockVector};
use voxel_world::ray::{Param, Ray};

fn boxed(l: (i64, i64, i64), h: (i64, i64, i64)) -> AAQuader {
    AAQuader::new(Vec3::new(l.0, l.1, l.2), Vec3::new(h.0, h.1, h.2))
}

#[test]
fn overlapping_boxes_have_unit_impact() {
    let a = boxed((0, 0, 0), (2, 2, 2));
    let b = boxed((1, 1, 1), (3, 3, 3));
    assert_eq!(b.impact_volume(a), Vec3::new(1, 1, 1));
    assert_eq!(a.impact_volume(b), Vec3::new(-1, -1, -1));
    assert!(a.intersect(&b));
}

#[test]
fn separate_boxes_have_no_impact() {
    let a = boxed((0, 0, 0), (2, 2, 2));
    let far = boxed((5, 5, 5), (6, 6, 6));
    let touching = boxed((2, 0, 0), (4, 2, 2));
    assert_eq!(a.impact_volume(far), Vec3::new(0, 0, 0));
    assert_eq!(a.impact_volume(touching), Vec3::new(0, -2, -2));
    assert!(!a.intersect(&far));
    assert!(!a.intersect(&touching));
}

#[test]
fn impact_takes_the_shorter_side() {
    let a = boxed((0, 0, 0), (10, 10, 10));
    let b = boxed((8, 1, -3), (20, 2, 1));
    assert_eq!(a.impact_volume(b), Vec3::new(-2, 2, 1));
}

#[test]
fn box_measures() {
    let mut q = boxed((1, 2, 3), (4, 6, 8));
    assert_eq!(q.size(), Vec3::new(3, 4, 5));
    assert_eq!(q.volume(), 60);
    assert_eq!(q.lower(), Vec3::new(1, 2, 3));
    assert_eq!(q.higher(), Vec3::new(4, 6, 8));
    q.translate(Vec3::new(-1, 0, 2));
    assert_eq!(q, boxed((0, 2, 5), (3, 6, 10)));
    assert_eq!(q.translated(Vec3::new(1, 1, 1)), boxed((1, 3, 6), (4, 7, 11)));
    let c = AAQuader::center_size(Vec3::new(10, 10, 10), Vec3::new(-4, 6, 3));
    assert_eq!(c, boxed((8, 7, 9), (12, 13, 11)));
    let mut s = boxed((0, 0, 0), (8, 8, 8));
    s.scale(1, 2);
    assert_eq!(s, boxed((2, 2, 2), (6, 6, 6)));
    let u = AAQuader::unchecked(Vec3::new(1, 1, 1), Vec3::new(0, 0, 0));
    assert_eq!(u.lower(), Vec3::new(1, 1, 1));
}

#[test]
fn ray_through_box_along_x() {
    let ray = Ray::new(Vec3::new(0, 0, 0), Vec3::new(1, 0, 0));
    let hit = ray.hit_info(&boxed((2, -1, -1), (5, 1, 1))).expect("the ray hits the box");
    assert!(hit.start().equals_integer(2));
    assert!(hit.end().equals_integer(5));
    assert_eq!(hit.start(), Param { num: 2, den: 1 });
    assert_eq!(hit.leaving_face_normal(), BlockVector::new(1, 0, 0));
    assert!(ray.intersect(&boxed((2, -1, -1), (5, 1, 1))));
}

#[test]
fn ray_along_negative_x_leaves_through_the_low_face() {
    let ray = Ray::new(Vec3::new(0, 0, 0), Vec3::new(-2, 0, 0));
    let hit = ray.hit_info(&boxed((-5, -1, -1), (-2, 1, 1))).unwrap();
    assert_eq!(hit.start(), Param { num: 2, den: 2 });
    assert_eq!(hit.end(), Param { num: 5, den: 2 });
    assert_eq!(hit.leaving_face_normal(), BlockVector::new(-1, 0, 0));
}

#[test]
fn ray_beside_box_misses() {
    let ray = Ray::new(Vec3::new(0, 5, 0), Vec3::new(1, 0, 0));
    assert!(ray.hit_info(&boxed((2, -1, -1), (5, 1, 1))).is_none());
    let on_face = Ray::new(Vec3::new(0, 1, 0), Vec3::new(1, 0, 0));
    assert!(on_face.hit_info(&boxed((2, -1, -1), (5, 1, 1))).is_none());
}

#[test]
fn diagonal_ray_leaves_through_the_nearest_face() {
    let ray = Ray::new(Vec3::new(0, 0, 0), Vec3::new(1, 2, 0));
    let hit = ray.hit_info(&boxed((-4, -4, -4), (4, 4, 4))).unwrap();
    assert!(hit.end().equals_integer(2));
    assert_eq!(hit.leaving_face_normal(), BlockVector::new(0, 1, 0));
}

#[test]
fn grid_traversal_along_x_visits_each_block_once() {
    let half = UNITS_PER_BLOCK / 2;
    let ray = Ray::new(Vec3::new(half, half, half), Vec3::new(1, 0, 0));
    let mut snap = ray.grid_snap();
    let visited = snap.take(12);
    let expected: Vec<BlockPosition> = (0..12).map(|x| BlockPosition::new(x, 0, 0)).collect();
    assert_eq!(visited, expected);
    assert_eq!(snap.next(), Some(BlockPosition::new(12, 0, 0)));
}

#[test]
fn grid_traversal_downward_from_a_block_face() {
    let half = UNITS_PER_BLOCK / 2;
    let ray = Ray::new(Vec3::new(3 * UNITS_PER_BLOCK + half, 2 * UNITS_PER_BLOCK, -half), Vec3::new(0, -UNITS_PER_BLOCK, 0));
    let mut snap = ray.grid_snap();
    let visited = snap.take(3);
    assert_eq!(visited, vec![BlockPosition::new(3, 2, -1), BlockPosition::new(3, 1, -1), BlockPosition::new(3, 0, -1)]);
}

#[test]
fn ray_moves() {
    let mut ray = Ray::new(Vec3::new(0, 0, 0), Vec3::new(0, 0, 1));
    ray.translate(Vec3::new(1, 2, 3));
    assert_eq!(ray.origin, Vec3::new(1, 2, 3));
    assert_eq!(ray.translated(Vec3::new(1, 1, 1)).origin, Vec3::new(2, 3, 4));
    assert_eq!(ray.translated_to(Vec3::new(9, 9, 9)).origin, Vec3::new(9, 9, 9));
    ray.translate_to(Vec3::new(5, 5, 5));
    assert_eq!(ray, Ray::new(Vec3::new(5, 5, 5), Vec3::new(0, 0, 1)));
}

#[test]
fn block_corners_and_points() {
    let b = BlockPosition::new(2, -1, 0);
    assert_eq!(b.lower_corner(), Vec3::new(512, -256, 0));
    assert_eq!(b.higher_corner(), Vec3::new(768, 0, 256));
    assert_eq!(b.block_center(), Vec3::new(640, -128, 128));
    assert_eq!(BlockPosition::from_vector(Vec3::new(640, -1, 255)), BlockPosition::new(2, -1, 0));
    assert_eq!(
        voxel_world::coordinates::ChunkPosition::from_point(Vec3::new(4096, -1, 4095)),
        voxel_world::coordinates::ChunkPosition::new(1, -1, 0)
    );
}

#[test]
fn tied_exit_goes_through_the_earliest_face() {
    let ray = Ray::new(Vec3::new(0, 0, 0), Vec3::new(1, 2, 2));
    let hit = ray.hit_info(&boxed((-10, -10, -10), (10, 10, 10))).unwrap();
    assert!(hit.end().equals_integer(5));
    assert_eq!(hit.leaving_face_normal(), BlockVector::new(0, 1, 0));
}

#[test]
fn traversal_through_block_edges_keeps_going() {
    let half = UNITS_PER_BLOCK / 2;
    let ray = Ray::new(Vec3::new(half, half, half), Vec3::new(0, 1, 1));
    let mut snap = ray.grid_snap();
    let visited = snap.take(5);
    assert_eq!(
        visited,
        vec![
            BlockPosition::new(0, 0, 0),
            BlockPosition::new(0, 1, 0),
            BlockPosition::new(0, 1, 1),
            BlockPosition::new(0, 2, 1),
            BlockPosition::new(0, 2, 2),
        ]
    );
    let along_face = Ray::new(Vec3::new(half, 0, half), Vec3::new(1, 0, 0));
    assert_eq!(along_face.grid_snap().take(3).len(), 3);
    let touch = ray.touch_info(&boxed((0, 0, 0), (256, 256, 256)));
    assert!(touch.is_some());
}
