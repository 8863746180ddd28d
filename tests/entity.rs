use voxel_world::collider::{AAQuader, Vec3};
use voxel_world::entity::{Object, OBJECT_GRAVITY};

#[test]
fn object_velocity_update() {
    let collider = AAQuader::new(Vec3::new(0, 0, 0), Vec3::new(10, 10, 10));
    let mut o = Object::new(collider, false);
    assert!(!o.is_flying());
    assert_eq!(o.get_collider(), collider);
    o.apply_force(Vec3::new(100, 0, -20));
    o.calc_velocity();
    assert_eq!(o.velocity(), Vec3::new(100, -OBJECT_GRAVITY, -20));
    o.set_flying(true);
    o.calc_velocity();
    assert_eq!(o.velocity(), Vec3::new(90, -1152, -18));
    assert_eq!(o.next_acceleration, Vec3::new(0, 0, 0));
}
