//! Rigid bodies: integration under damping, gravity and force, and
//! push-out from the colliders of static blocks.
use vstd::prelude::*;
use crate::block_types::{colliders, colliders_of, BlockType};
use crate::chunk_manager::ChunkManager;
use crate::collider::{impact_axis, AAQuader, Vec3, UNITS_PER_BLOCK};
use crate::coordinates::BlockPosition;
use crate::noise::div_signed;
use crate::ray::block_coordinate;

verus! {

/// Bound on the magnitude of a body's position, velocity and force.
pub const BODY_LIMIT: i64 = 0x10_0000_0000;

/// Bound on the magnitude of a collider corner in a body's local frame.
pub const COLLIDER_LIMIT: i64 = 0x10_0000;

/// Downward velocity added each step to a body that is not flying.
pub const GRAVITY: i64 = 25;

pub open spec fn body_ok(v: int) -> bool {
    -BODY_LIMIT <= v <= BODY_LIMIT
}

pub open spec fn vec_body_ok(v: Vec3) -> bool {
    body_ok(v.x as int) && body_ok(v.y as int) && body_ok(v.z as int)
}

pub open spec fn small_ok(v: Vec3) -> bool {
    -COLLIDER_LIMIT <= v.x <= COLLIDER_LIMIT && -COLLIDER_LIMIT <= v.y <= COLLIDER_LIMIT && -COLLIDER_LIMIT
        <= v.z <= COLLIDER_LIMIT
}

/// The damped velocity component: four fifths when flying, three quarters
/// when grounded (rounded down).
pub open spec fn damped(v: int, flying: bool) -> int {
    if flying {
        (v * 4) / 5
    } else {
        (v * 3) / 4
    }
}

/// A stable identifier of a rigid body; never reused.
#[derive(Copy, Clone, PartialEq, Eq, Debug, Hash, Structural)]
pub struct RigidBodyHandle(pub u64);

/// A moving box.
#[derive(Copy, Clone, PartialEq, Eq, Debug, Structural)]
pub struct RigidBody {
    pub position: Vec3,
    pub velocity: Vec3,
    pub next_force: Vec3,
    pub flying: bool,
    pub inv_mass: i64,
    pub handle: RigidBodyHandle,
    pub collider: AAQuader,
}

fn damp(v: i64, flying: bool) -> (r: i64)
    requires
        body_ok(v as int),
    ensures
        r == damped(v as int, flying),
        -BODY_LIMIT <= r <= BODY_LIMIT,
{
    if flying {
        proof {
            vstd::arithmetic::div_mod::lemma_fundamental_div_mod(v * 4, 5);
            vstd::arithmetic::div_mod::lemma_mod_bound(v * 4, 5);
        }
        div_signed(v * 4, 5)
    } else {
        proof {
            vstd::arithmetic::div_mod::lemma_fundamental_div_mod(v * 3, 4);
            vstd::arithmetic::div_mod::lemma_mod_bound(v * 3, 4);
        }
        div_signed(v * 3, 4)
    }
}

impl RigidBody {
    /// Position, velocity and force within `BODY_LIMIT`, collider corners
    /// within `COLLIDER_LIMIT`.
    pub open spec fn in_limits(&self) -> bool {
        vec_body_ok(self.position) && vec_body_ok(self.velocity) && vec_body_ok(self.next_force) && small_ok(
            self.collider.lower,
        ) && small_ok(self.collider.higher)
    }

    /// Whether the body is within the limits the engine integrates.
    pub fn is_in_limits(&self) -> (r: bool)
        ensures
            r == self.in_limits(),
    {
        vec_in(&self.position, BODY_LIMIT) && vec_in(&self.velocity, BODY_LIMIT) && vec_in(&self.next_force, BODY_LIMIT)
            && vec_in(&self.collider.lower, COLLIDER_LIMIT) && vec_in(&self.collider.higher, COLLIDER_LIMIT)
    }

    /// A body at rest with no pending force.
    pub fn new(position: Vec3, inv_mass: i64, flying: bool, collider: AAQuader, handle: RigidBodyHandle) -> (r: RigidBody)
        ensures
            r.position == position && r.flying == flying && r.inv_mass == inv_mass && r.collider == collider && r.handle
                == handle,
            r.velocity == Vec3::spec_zero() && r.next_force == Vec3::spec_zero(),
    {
        RigidBody {
            position,
            velocity: Vec3::zero(),
            next_force: Vec3::zero(),
            flying,
            inv_mass,
            handle,
            collider,
        }
    }

    /// One integration step: damps the velocity (with a downward bias when
    /// not flying), adds the accumulated force, moves by the velocity and
    /// clears the force.
    pub fn apply_force(&mut self)
        requires
            old(self).in_limits(),
        ensures
            final(self).velocity.x == damped(old(self).velocity.x as int, old(self).flying) + old(self).next_force.x,
            final(self).velocity.y == damped(old(self).velocity.y as int, old(self).flying) - (if old(self).flying {
                0
            } else {
                GRAVITY as int
            }) + old(self).next_force.y,
            final(self).velocity.z == damped(old(self).velocity.z as int, old(self).flying) + old(self).next_force.z,
            final(self).position.x == old(self).position.x + final(self).velocity.x,
            final(self).position.y == old(self).position.y + final(self).velocity.y,
            final(self).position.z == old(self).position.z + final(self).velocity.z,
            final(self).next_force == Vec3::spec_zero(),
            final(self).flying == old(self).flying,
            final(self).handle == old(self).handle,
            final(self).collider == old(self).collider,
            final(self).inv_mass == old(self).inv_mass,
            *final(self) == integrated(*old(self)),
    {
        let fl = self.flying;
        let bias = if fl { 0 } else { GRAVITY };
        let vx = damp(self.velocity.x, fl) + self.next_force.x;
        let vy = damp(self.velocity.y, fl) - bias + self.next_force.y;
        let vz = damp(self.velocity.z, fl) + self.next_force.z;
        self.velocity = Vec3::new(vx, vy, vz);
        self.next_force = Vec3::zero();
        self.position = Vec3::new(self.position.x + vx, self.position.y + vy, self.position.z + vz);
    }

    pub fn position(&self) -> (r: Vec3)
        ensures
            r == self.position,
    {
        self.position
    }

    pub fn velocity(&self) -> (r: Vec3)
        ensures
            r == self.velocity,
    {
        self.velocity
    }

    pub fn handle(&self) -> (r: RigidBodyHandle)
        ensures
            r == self.handle,
    {
        self.handle
    }

    pub fn set_position(&mut self, position: Vec3)
        ensures
            *final(self) == (RigidBody { position, ..*old(self) }),
    {
        self.position = position;
    }

    /// Adds `force` to the force applied at the next step.
    pub fn add_force(&mut self, force: Vec3)
        requires
            vec_body_ok(old(self).next_force),
            vec_body_ok(force),
        ensures
            *final(self) == (RigidBody {
                next_force: Vec3 {
                    x: (old(self).next_force.x + force.x) as i64,
                    y: (old(self).next_force.y + force.y) as i64,
                    z: (old(self).next_force.z + force.z) as i64,
                },
                ..*old(self)
            }),
    {
        self.next_force = Vec3::new(self.next_force.x + force.x, self.next_force.y + force.y, self.next_force.z + force.z);
    }

    /// The collider in world units, at the body's position.
    pub fn world_collider(&self) -> (r: AAQuader)
        requires
            self.in_limits(),
        ensures
            r.lower.x == self.collider.lower.x + self.position.x,
            r.lower.y == self.collider.lower.y + self.position.y,
            r.lower.z == self.collider.lower.z + self.position.z,
            r.higher.x == self.collider.higher.x + self.position.x,
            r.higher.y == self.collider.higher.y + self.position.y,
            r.higher.z == self.collider.higher.z + self.position.z,
    {
        self.collider.translated(self.position)
    }
}

fn vec_in(v: &Vec3, limit: i64) -> (r: bool)
    requires
        limit >= 0,
    ensures
        r == (-limit <= v.x <= limit && -limit <= v.y <= limit && -limit <= v.z <= limit),
{
    -limit <= v.x && v.x <= limit && -limit <= v.y && v.y <= limit && -limit <= v.z && v.z <= limit
}

impl Vec3 {
    pub open spec fn spec_zero() -> Vec3 {
        Vec3 { x: 0, y: 0, z: 0 }
    }
}

/// The axis a collision is resolved along: the one whose overlap times
/// velocity is largest in magnitude (x, then y, on ties as below).
pub open spec fn push_axis(impact: Vec3, v: Vec3) -> int {
    let tx = vstd::math::abs(impact.x * v.x);
    let ty = vstd::math::abs(impact.y * v.y);
    let tz = vstd::math::abs(impact.z * v.z);
    if tx > ty && tx > tz {
        0
    } else if ty >= tz {
        1
    } else {
        2
    }
}

pub open spec fn axis_of(v: Vec3, a: int) -> int {
    if a == 0 {
        v.x as int
    } else if a == 1 {
        v.y as int
    } else {
        v.z as int
    }
}

/// The velocity component along the push axis after a push by `push`: it
/// is cleared when it points against the push, kept otherwise.
pub open spec fn clamped(v: int, push: int) -> int {
    if v * push < 0 {
        0
    } else {
        v
    }
}

fn abs_product(a: i64, b: i64) -> (r: i128)
    requires
        -BODY_LIMIT * 4 <= a <= BODY_LIMIT * 4,
        -BODY_LIMIT * 4 <= b <= BODY_LIMIT * 4,
    ensures
        r == vstd::math::abs(a * b),
{
    let x = a as i128;
    let y = b as i128;
    assert(-0x1_0000_0000_0000_0000_0000 <= x * y <= 0x1_0000_0000_0000_0000_0000) by (nonlinear_arith)
        requires
            -0x40_0000_0000 <= x <= 0x40_0000_0000,
            -0x40_0000_0000 <= y <= 0x40_0000_0000,
    ;
    let p = x * y;
    if p < 0 {
        -p
    } else {
        p
    }
}

/// Pushes `body` out of a box it overlaps by `impact` (see
/// `AAQuader::impact_volume`): moves it by the overlap along the axis
/// chosen by `push_axis`, and clears its velocity along that axis when it
/// points against the push.
pub fn restrict_motion(impact: Vec3, body: &mut RigidBody)
    requires
        old(body).in_limits(),
        vec_body_ok(impact),
    ensures
        ({
            let a = push_axis(impact, old(body).velocity);
            &&& axis_of(final(body).position, a) == axis_of(old(body).position, a) + axis_of(impact, a)
            &&& forall|b: int| 0 <= b < 3 && b != a ==> axis_of(final(body).position, b) == axis_of(old(body).position, b)
            &&& axis_of(final(body).velocity, a) == clamped(axis_of(old(body).velocity, a), axis_of(impact, a))
            &&& forall|b: int| 0 <= b < 3 && b != a ==> axis_of(final(body).velocity, b) == axis_of(old(body).velocity, b)
        }),
        final(body).next_force == old(body).next_force,
        final(body).flying == old(body).flying,
        final(body).handle == old(body).handle,
        final(body).collider == old(body).collider,
        final(body).inv_mass == old(body).inv_mass,
        *final(body) == restricted(*old(body), impact),
{
    let v = body.velocity;
    let tx = abs_product(impact.x, v.x);
    let ty = abs_product(impact.y, v.y);
    let tz = abs_product(impact.z, v.z);
    let p = body.position;
    if tx > ty && tx > tz {
        body.position = Vec3::new(p.x + impact.x, p.y, p.z);
        let cleared = if (v.x < 0 && impact.x > 0) || (v.x > 0 && impact.x < 0) { 0 } else { v.x };
        proof {
            assert((v.x * impact.x < 0) == ((v.x < 0 && impact.x > 0) || (v.x > 0 && impact.x < 0))) by (nonlinear_arith);
        }
        body.velocity = Vec3::new(cleared, v.y, v.z);
    } else if ty >= tz {
        body.position = Vec3::new(p.x, p.y + impact.y, p.z);
        let cleared = if (v.y < 0 && impact.y > 0) || (v.y > 0 && impact.y < 0) { 0 } else { v.y };
        proof {
            assert((v.y * impact.y < 0) == ((v.y < 0 && impact.y > 0) || (v.y > 0 && impact.y < 0))) by (nonlinear_arith);
        }
        body.velocity = Vec3::new(v.x, cleared, v.z);
    } else {
        body.position = Vec3::new(p.x, p.y, p.z + impact.z);
        let cleared = if (v.z < 0 && impact.z > 0) || (v.z > 0 && impact.z < 0) { 0 } else { v.z };
        proof {
            assert((v.z * impact.z < 0) == ((v.z < 0 && impact.z > 0) || (v.z > 0 && impact.z < 0))) by (nonlinear_arith);
        }
        body.velocity = Vec3::new(v.x, v.y, cleared);
    }
}


/// The rigid bodies of the world.
pub struct PhysicsEngine {
    rigid_bodies: Vec<RigidBody>,
    next_handle: u64,
}

impl PhysicsEngine {
    /// Handles are unique, non-zero and below the next handle to give out.
    pub closed spec fn wf(&self) -> bool {
        &&& forall|i: int, j: int|
            0 <= i < j < self.rigid_bodies@.len() ==> self.rigid_bodies@[i].handle != self.rigid_bodies@[j].handle
        &&& forall|i: int|
            0 <= i < self.rigid_bodies@.len() ==> 0 < (#[trigger] self.rigid_bodies@[i]).handle.0 < self.next_handle
        &&& self.next_handle > 0
    }

    /// The bodies, in storage order.
    pub closed spec fn bodies(&self) -> Seq<RigidBody> {
        self.rigid_bodies@
    }

    /// The body with handle `h`, if any.
    pub open spec fn body(&self, h: RigidBodyHandle) -> Option<RigidBody> {
        if exists|i: int| 0 <= i < self.bodies().len() && #[trigger] self.bodies()[i].handle == h {
            let i = choose|i: int| 0 <= i < self.bodies().len() && #[trigger] self.bodies()[i].handle == h;
            Some(self.bodies()[i])
        } else {
            None
        }
    }

    /// Whether a handle was never given out yet.
    pub closed spec fn fresh(&self, h: RigidBodyHandle) -> bool {
        h.0 >= self.next_handle
    }

    /// Whether another body can be created.
    pub closed spec fn can_create(&self) -> bool {
        self.next_handle < u64::MAX
    }

    pub fn new() -> (r: PhysicsEngine)
        ensures
            r.wf(),
            r.bodies().len() == 0,
            r.can_create(),
    {
        PhysicsEngine { rigid_bodies: Vec::new(), next_handle: 1 }
    }

    /// Whether another body can be created.
    pub fn handles_left(&self) -> (r: bool)
        ensures
            r == self.can_create(),
    {
        self.next_handle < u64::MAX
    }

    /// The number of bodies.
    pub fn len(&self) -> (r: usize)
        ensures
            r == self.bodies().len(),
    {
        self.rigid_bodies.len()
    }

    fn find(&self, handle: RigidBodyHandle) -> (r: Option<usize>)
        requires
            self.wf(),
        ensures
            r matches Some(i) ==> i < self.bodies().len() && self.bodies()[i as int].handle == handle
                && self.body(handle) == Some(self.bodies()[i as int]),
            r is None ==> self.body(handle) is None,
    {
        let mut i: usize = 0;
        while i < self.rigid_bodies.len()
            invariant
                self.wf(),
                i <= self.rigid_bodies@.len(),
                forall|j: int| 0 <= j < i ==> self.rigid_bodies@[j].handle != handle,
            decreases self.rigid_bodies@.len() - i,
        {
            if self.rigid_bodies[i].handle == handle {
                proof {
                    assert(self.bodies()[i as int].handle == handle);
                    let k = choose|k: int| 0 <= k < self.bodies().len() && #[trigger] self.bodies()[k].handle == handle;
                    if k < i {
                        assert(self.rigid_bodies@[k].handle != self.rigid_bodies@[i as int].handle);
                    } else if k > i {
                        assert(self.rigid_bodies@[i as int].handle != self.rigid_bodies@[k].handle);
                    }
                }
                return Some(i);
            }
            i += 1;
        }
        None
    }

    /// Adds a body at rest and returns its new handle, one never given out
    /// before.
    pub fn create_rigid_body(&mut self, position: Vec3, inv_mass: i64, is_flying: bool, collider: AAQuader) -> (r: RigidBodyHandle)
        requires
            old(self).wf(),
            old(self).can_create(),
        ensures
            final(self).wf(),
            old(self).fresh(r),
            !final(self).fresh(r),
            forall|h: RigidBodyHandle| !old(self).fresh(h) ==> final(self).fresh(h) == old(self).fresh(h),
            final(self).bodies() == old(self).bodies().push(RigidBody {
                position,
                velocity: Vec3::spec_zero(),
                next_force: Vec3::spec_zero(),
                flying: is_flying,
                inv_mass,
                handle: r,
                collider,
            }),
            final(self).body(r) == Some(RigidBody {
                position,
                velocity: Vec3::spec_zero(),
                next_force: Vec3::spec_zero(),
                flying: is_flying,
                inv_mass,
                handle: r,
                collider,
            }),
            forall|h: RigidBodyHandle| h != r ==> #[trigger] final(self).body(h) == old(self).body(h),
    {
        let handle = RigidBodyHandle(self.next_handle);
        let body = RigidBody::new(position, inv_mass, is_flying, collider, handle);
        self.rigid_bodies.push(body);
        self.next_handle = self.next_handle + 1;
        proof {
            assert forall|i: int, j: int| 0 <= i < j < self.rigid_bodies@.len() implies self.rigid_bodies@[i].handle
                != self.rigid_bodies@[j].handle by {
                if j == self.rigid_bodies@.len() - 1 {
                    assert(old(self).rigid_bodies@[i].handle.0 < old(self).next_handle);
                } else {
                    assert(old(self).rigid_bodies@[i].handle != old(self).rigid_bodies@[j].handle);
                }
            }
            assert forall|i: int| 0 <= i < self.rigid_bodies@.len() implies 0 < (#[trigger] self.rigid_bodies@[i]).handle.0
                < self.next_handle by {
                if i < old(self).rigid_bodies@.len() {
                    assert(0 < old(self).rigid_bodies@[i].handle.0 < old(self).next_handle);
                }
            }
            let n = old(self).rigid_bodies@.len() as int;
            assert(self.bodies()[n].handle == handle);
            let k = choose|k: int| 0 <= k < self.bodies().len() && #[trigger] self.bodies()[k].handle == handle;
            if k < n {
                assert(old(self).rigid_bodies@[k].handle.0 < old(self).next_handle);
            }
            assert forall|h: RigidBodyHandle| h != handle implies #[trigger] self.body(h) == old(self).body(h) by {
                if exists|j: int| 0 <= j < self.bodies().len() && #[trigger] self.bodies()[j].handle == h {
                    let j = choose|j: int| 0 <= j < self.bodies().len() && #[trigger] self.bodies()[j].handle == h;
                    assert(j < n);
                    assert(old(self).bodies()[j].handle == h);
                    let k2 = choose|k2: int| 0 <= k2 < old(self).bodies().len() && #[trigger] old(self).bodies()[k2].handle == h;
                    if k2 != j {
                        if k2 < j {
                            assert(old(self).rigid_bodies@[k2].handle != old(self).rigid_bodies@[j].handle);
                        } else {
                            assert(old(self).rigid_bodies@[j].handle != old(self).rigid_bodies@[k2].handle);
                        }
                    }
                }
                if exists|k2: int| 0 <= k2 < old(self).bodies().len() && #[trigger] old(self).bodies()[k2].handle == h {
                    let k2 = choose|k2: int| 0 <= k2 < old(self).bodies().len() && #[trigger] old(self).bodies()[k2].handle == h;
                    assert(self.bodies()[k2].handle == h);
                }
            }
        }
        handle
    }

    /// Removes the body with `handle`; the last body takes its slot. Returns
    /// whether there was such a body.
    pub fn remove_rigid_body(&mut self, handle: RigidBodyHandle) -> (r: bool)
        requires
            old(self).wf(),
        ensures
            final(self).wf(),
            r == old(self).body(handle) is Some,
            final(self).body(handle) is None,
            forall|h: RigidBodyHandle| h != handle ==> #[trigger] final(self).body(h) == old(self).body(h),
            forall|h: RigidBodyHandle| final(self).fresh(h) == old(self).fresh(h),
    {
        match self.find(handle) {
            None => false,
            Some(i) => {
                let ghost before = self.rigid_bodies@;
                self.rigid_bodies.swap_remove(i);
                proof {
                    let n = before.len() - 1;
                    let now = self.rigid_bodies@;
                    assert(now.len() == n);
                    assert(forall|j: int| 0 <= j < n && j != i ==> now[j] == before[j]);
                    assert(i < n ==> now[i as int] == before[n]);
                    // each remaining body is a body of before other than slot i
                    assert forall|j: int| 0 <= j < n implies exists|k: int|
                        0 <= k < before.len() && k != i && #[trigger] now[j] == before[k] by {
                        if j == i {
                            assert(now[j] == before[n]);
                        } else {
                            assert(now[j] == before[j]);
                        }
                    }
                    assert forall|a: int, b: int| 0 <= a < b < now.len() implies now[a].handle != now[b].handle by {
                        let ka = if a == i { n } else { a };
                        let kb = if b == i { n } else { b };
                        assert(now[a] == before[ka]);
                        assert(now[b] == before[kb]);
                        if ka < kb {
                            assert(before[ka].handle != before[kb].handle);
                        } else {
                            assert(before[kb].handle != before[ka].handle);
                        }
                    }
                    assert forall|a: int| 0 <= a < now.len() implies 0 < (#[trigger] now[a]).handle.0 < self.next_handle by {
                        let ka = if a == i { n } else { a };
                        assert(now[a] == before[ka]);
                        assert(0 < before[ka].handle.0 < self.next_handle);
                    }
                    assert(!(exists|j: int| 0 <= j < self.bodies().len() && #[trigger] self.bodies()[j].handle == handle)) by {
                        if exists|j: int| 0 <= j < self.bodies().len() && #[trigger] self.bodies()[j].handle == handle {
                            let j = choose|j: int| 0 <= j < self.bodies().len() && #[trigger] self.bodies()[j].handle == handle;
                            let kj = if j == i { n } else { j };
                            assert(now[j] == before[kj]);
                            assert(before[i as int].handle == handle);
                            if kj < i {
                                assert(before[kj].handle != before[i as int].handle);
                            } else {
                                assert(before[i as int].handle != before[kj].handle);
                            }
                        }
                    }
                    assert forall|h: RigidBodyHandle| h != handle implies #[trigger] self.body(h) == old(self).body(h) by {
                        if exists|j: int| 0 <= j < self.bodies().len() && #[trigger] self.bodies()[j].handle == h {
                            let j = choose|j: int| 0 <= j < self.bodies().len() && #[trigger] self.bodies()[j].handle == h;
                            let kj = if j == i { n } else { j };
                            assert(now[j] == before[kj]);
                            assert(old(self).bodies()[kj].handle == h);
                            let k2 = choose|k: int| 0 <= k < old(self).bodies().len() && #[trigger] old(self).bodies()[k].handle == h;
                            if k2 != kj {
                                if k2 < kj {
                                    assert(before[k2].handle != before[kj].handle);
                                } else {
                                    assert(before[kj].handle != before[k2].handle);
                                }
                            }
                        }
                        if exists|k: int| 0 <= k < old(self).bodies().len() && #[trigger] old(self).bodies()[k].handle == h {
                            let k = choose|k: int| 0 <= k < old(self).bodies().len() && #[trigger] old(self).bodies()[k].handle == h;
                            assert(k != i);
                            let j = if k == n { i as int } else { k };
                            assert(now[j] == before[k]);
                            assert(self.bodies()[j].handle == h);
                        }
                    }
                }
                true
            },
        }
    }

    /// The body with `handle`, if any.
    pub fn get(&self, handle: RigidBodyHandle) -> (r: Option<RigidBody>)
        requires
            self.wf(),
        ensures
            r == self.body(handle),
    {
        match self.find(handle) {
            Some(i) => Some(self.rigid_bodies[i]),
            None => None,
        }
    }

    /// The handle and position of every body, in storage order.
    pub fn positions(&self) -> (r: Vec<(RigidBodyHandle, Vec3)>)
        ensures
            r@.len() == self.bodies().len(),
            forall|i: int| 0 <= i < r@.len() ==> #[trigger] r@[i] == (self.bodies()[i].handle, self.bodies()[i].position),
    {
        let mut r: Vec<(RigidBodyHandle, Vec3)> = Vec::new();
        let mut i: usize = 0;
        while i < self.rigid_bodies.len()
            invariant
                i <= self.rigid_bodies@.len(),
                r@.len() == i,
                forall|j: int| 0 <= j < i ==> #[trigger] r@[j] == (self.bodies()[j].handle, self.bodies()[j].position),
            decreases self.rigid_bodies@.len() - i,
        {
            r.push((self.rigid_bodies[i].handle, self.rigid_bodies[i].position));
            i += 1;
        }
        r
    }

    /// Adds `force` to the force the body with `handle` gets at the next
    /// step. Returns whether there was such a body; the force is dropped
    /// when the sum would leave `BODY_LIMIT`.
    pub fn add_force(&mut self, handle: RigidBodyHandle, force: Vec3) -> (r: bool)
        requires
            old(self).wf(),
        ensures
            final(self).wf(),
            r == old(self).body(handle) is Some,
            final(self).bodies().len() == old(self).bodies().len(),
            forall|h: RigidBodyHandle| h != handle ==> #[trigger] final(self).body(h) == old(self).body(h),
            forall|h: RigidBodyHandle| final(self).fresh(h) == old(self).fresh(h),
            old(self).body(handle) matches Some(b) ==> final(self).body(handle) matches Some(a) && a.position == b.position
                && a.velocity == b.velocity,
    {
        match self.find(handle) {
            None => false,
            Some(i) => {
                let mut body = self.rigid_bodies[i];
                if vec_in(&body.next_force, BODY_LIMIT) && vec_in(&force, BODY_LIMIT) {
                    let sum = Vec3::new(body.next_force.x + force.x, body.next_force.y + force.y, body.next_force.z + force.z);
                    if vec_in(&sum, BODY_LIMIT) {
                        body.add_force(force);
                    }
                }
                self.replace_body(i, body);
                true
            },
        }
    }

    fn replace_body(&mut self, i: usize, body: RigidBody)
        requires
            old(self).wf(),
            i < old(self).bodies().len(),
            body.handle == old(self).bodies()[i as int].handle,
        ensures
            final(self).wf(),
            final(self).bodies() == old(self).bodies().update(i as int, body),
            final(self).next_handle == old(self).next_handle,
            forall|h: RigidBodyHandle| h != body.handle ==> #[trigger] final(self).body(h) == old(self).body(h),
            final(self).body(body.handle) == Some(body),
    {
        self.rigid_bodies.set(i, body);
        proof {
            assert forall|a: int, b: int| 0 <= a < b < self.rigid_bodies@.len() implies self.rigid_bodies@[a].handle
                != self.rigid_bodies@[b].handle by {
                assert(old(self).rigid_bodies@[a].handle != old(self).rigid_bodies@[b].handle);
            }
            assert forall|a: int| 0 <= a < self.rigid_bodies@.len() implies 0 < (#[trigger] self.rigid_bodies@[a]).handle.0
                < self.next_handle by {
                assert(0 < old(self).rigid_bodies@[a].handle.0 < self.next_handle);
            }
            assert forall|h: RigidBodyHandle| true implies #[trigger] self.body(h) == if h == body.handle {
                Some(body)
            } else {
                old(self).body(h)
            } by {
                if exists|j: int| 0 <= j < self.bodies().len() && #[trigger] self.bodies()[j].handle == h {
                    let j = choose|j: int| 0 <= j < self.bodies().len() && #[trigger] self.bodies()[j].handle == h;
                    assert(old(self).bodies()[j].handle == h);
                    let k = choose|k: int| 0 <= k < old(self).bodies().len() && #[trigger] old(self).bodies()[k].handle == h;
                    if k != j {
                        if k < j {
                            assert(old(self).rigid_bodies@[k].handle != old(self).rigid_bodies@[j].handle);
                        } else {
                            assert(old(self).rigid_bodies@[j].handle != old(self).rigid_bodies@[k].handle);
                        }
                    }
                    if j != i && h == body.handle {
                        assert(old(self).rigid_bodies@[j].handle == old(self).rigid_bodies@[i as int].handle);
                        if j < i {
                            assert(old(self).rigid_bodies@[j].handle != old(self).rigid_bodies@[i as int].handle);
                        } else {
                            assert(old(self).rigid_bodies@[i as int].handle != old(self).rigid_bodies@[j].handle);
                        }
                    }
                }
                if exists|k: int| 0 <= k < old(self).bodies().len() && #[trigger] old(self).bodies()[k].handle == h {
                    let k = choose|k: int| 0 <= k < old(self).bodies().len() && #[trigger] old(self).bodies()[k].handle == h;
                    assert(self.bodies()[k].handle == h);
                }
                if h == body.handle {
                    assert(self.bodies()[i as int].handle == h);
                }
            }
        }
    }
}


/// The parts of a body that collisions leave as they are.
pub open spec fn same_identity(a: RigidBody, b: RigidBody) -> bool {
    a.handle == b.handle && a.flying == b.flying && a.collider == b.collider && a.inv_mass == b.inv_mass
        && a.next_force == b.next_force
}

/// `body` after `restrict_motion(impact, body)`.
pub open spec fn restricted(body: RigidBody, impact: Vec3) -> RigidBody {
    let a = push_axis(impact, body.velocity);
    let p = body.position;
    let v = body.velocity;
    if a == 0 {
        RigidBody {
            position: Vec3 { x: (p.x + impact.x) as i64, ..p },
            velocity: Vec3 { x: clamped(v.x as int, impact.x as int) as i64, ..v },
            ..body
        }
    } else if a == 1 {
        RigidBody {
            position: Vec3 { y: (p.y + impact.y) as i64, ..p },
            velocity: Vec3 { y: clamped(v.y as int, impact.y as int) as i64, ..v },
            ..body
        }
    } else {
        RigidBody {
            position: Vec3 { z: (p.z + impact.z) as i64, ..p },
            velocity: Vec3 { z: clamped(v.z as int, impact.z as int) as i64, ..v },
            ..body
        }
    }
}

/// A box moved by `t`.
pub open spec fn moved(q: AAQuader, t: Vec3) -> AAQuader {
    AAQuader {
        lower: Vec3 { x: (q.lower.x + t.x) as i64, y: (q.lower.y + t.y) as i64, z: (q.lower.z + t.z) as i64 },
        higher: Vec3 { x: (q.higher.x + t.x) as i64, y: (q.higher.y + t.y) as i64, z: (q.higher.z + t.z) as i64 },
    }
}

/// The signed overlap of two boxes on each axis.
pub open spec fn impact_of(a: AAQuader, b: AAQuader) -> Vec3 {
    Vec3 {
        x: impact_axis(a.lower.x as int, a.higher.x as int, b.lower.x as int, b.higher.x as int) as i64,
        y: impact_axis(a.lower.y as int, a.higher.y as int, b.lower.y as int, b.higher.y as int) as i64,
        z: impact_axis(a.lower.z as int, a.higher.z as int, b.lower.z as int, b.higher.z as int) as i64,
    }
}

/// `body` after being pushed out of box `q` of the block whose lower corner
/// is `origin`: only when the body is within the limits, the box is small,
/// and the overlap is positive on all three axes and within the limits.
pub open spec fn box_push(body: RigidBody, q: AAQuader, origin: Vec3) -> RigidBody {
    if body.in_limits() && small_ok(q.lower) && small_ok(q.higher) {
        let impact = impact_of(moved(body.collider, body.position), moved(q, origin));
        if impact.x != 0 && impact.y != 0 && impact.z != 0 && vec_body_ok(impact) {
            restricted(body, impact)
        } else {
            body
        }
    } else {
        body
    }
}

/// `body` after being pushed out of the first `k` boxes.
pub open spec fn boxes_push(body: RigidBody, boxes: Seq<AAQuader>, origin: Vec3, k: int) -> RigidBody
    decreases k,
{
    if k <= 0 {
        body
    } else {
        box_push(boxes_push(body, boxes, origin, k - 1), boxes[k - 1], origin)
    }
}

/// `body` after being pushed out of the collider boxes of block `b`, when
/// its chunk is loaded.
pub open spec fn block_push(body: RigidBody, world: ChunkManager, cat: Seq<BlockType>, b: BlockPosition) -> RigidBody {
    match world.spec_get(b) {
        None => body,
        Some(blk) => {
            let boxes = colliders_of(cat, blk.btype as int);
            let origin = Vec3 {
                x: (b.0.x * UNITS_PER_BLOCK) as i64,
                y: (b.0.y * UNITS_PER_BLOCK) as i64,
                z: (b.0.z * UNITS_PER_BLOCK) as i64,
            };
            boxes_push(body, boxes, origin, boxes.len() as int)
        },
    }
}

/// Block `i` of the region with lower block `lo` and extent `(ny, nz)` on
/// the inner axes, in order x, then y, then z.
pub open spec fn region_block(lo: (int, int, int), ny: int, nz: int, i: int) -> BlockPosition {
    BlockPosition(
        crate::coordinates::BlockVector {
            x: (lo.0 + i / (ny * nz)) as i64,
            y: (lo.1 + (i / nz) % ny) as i64,
            z: (lo.2 + i % nz) as i64,
        },
    )
}

/// `body` after the first `n` blocks of the region.
pub open spec fn region_push(
    body: RigidBody,
    world: ChunkManager,
    cat: Seq<BlockType>,
    lo: (int, int, int),
    ny: int,
    nz: int,
    n: int,
) -> RigidBody
    decreases n,
{
    if n <= 0 {
        body
    } else {
        block_push(region_push(body, world, cat, lo, ny, nz, n - 1), world, cat, region_block(lo, ny, nz, n - 1))
    }
}

/// `body` after a collision pass: the region is the blocks its collider
/// overlaps at the start; a body outside the limits, or with an empty
/// collider, stays as it is.
pub open spec fn collided(body: RigidBody, world: ChunkManager, cat: Seq<BlockType>) -> RigidBody {
    let c = moved(body.collider, body.position);
    if !body.in_limits() || c.higher.x <= c.lower.x || c.higher.y <= c.lower.y || c.higher.z <= c.lower.z {
        body
    } else {
        let lo = (
            crate::ray::block_of_unit(c.lower.x as int),
            crate::ray::block_of_unit(c.lower.y as int),
            crate::ray::block_of_unit(c.lower.z as int),
        );
        let nx = crate::ray::block_of_unit(c.higher.x - 1) - lo.0 + 1;
        let ny = crate::ray::block_of_unit(c.higher.y - 1) - lo.1 + 1;
        let nz = crate::ray::block_of_unit(c.higher.z - 1) - lo.2 + 1;
        region_push(body, world, cat, lo, ny, nz, nx * ny * nz)
    }
}

/// `body` after `RigidBody::apply_force`.
pub open spec fn integrated(b: RigidBody) -> RigidBody {
    let vx = damped(b.velocity.x as int, b.flying) + b.next_force.x;
    let vy = damped(b.velocity.y as int, b.flying) - (if b.flying { 0 } else { GRAVITY as int }) + b.next_force.y;
    let vz = damped(b.velocity.z as int, b.flying) + b.next_force.z;
    RigidBody {
        velocity: Vec3 { x: vx as i64, y: vy as i64, z: vz as i64 },
        position: Vec3 { x: (b.position.x + vx) as i64, y: (b.position.y + vy) as i64, z: (b.position.z + vz) as i64 },
        next_force: Vec3 { x: 0, y: 0, z: 0 },
        ..b
    }
}

fn collide_block(body: &mut RigidBody, world: &ChunkManager, blocks: &Vec<BlockType>, pos: BlockPosition)
    requires
        world.wf(),
        -0x4000_0000 <= pos.0.x <= 0x4000_0000,
        -0x4000_0000 <= pos.0.y <= 0x4000_0000,
        -0x4000_0000 <= pos.0.z <= 0x4000_0000,
    ensures
        *final(body) == block_push(*old(body), *world, blocks@, pos),
{
    match world.get(pos) {
        None => {},
        Some(b) => {
            let boxes = colliders(blocks, b.btype);
            let origin = Vec3::new(pos.0.x * UNITS_PER_BLOCK, pos.0.y * UNITS_PER_BLOCK, pos.0.z * UNITS_PER_BLOCK);
            let mut k: usize = 0;
            while k < boxes.len()
                invariant
                    k <= boxes@.len(),
                    boxes@ == colliders_of(blocks@, b.btype as int),
                    origin.x == pos.0.x * UNITS_PER_BLOCK,
                    origin.y == pos.0.y * UNITS_PER_BLOCK,
                    origin.z == pos.0.z * UNITS_PER_BLOCK,
                    -0x4000_0000 <= pos.0.x <= 0x4000_0000,
                    -0x4000_0000 <= pos.0.y <= 0x4000_0000,
                    -0x4000_0000 <= pos.0.z <= 0x4000_0000,
                    *body == boxes_push(*old(body), boxes@, origin, k as int),
                decreases boxes@.len() - k,
            {
                let q = boxes[k];
                if body.is_in_limits() && vec_in(&q.lower, COLLIDER_LIMIT) && vec_in(&q.higher, COLLIDER_LIMIT) {
                    let placed = q.translated(origin);
                    let current = body.world_collider();
                    let impact = current.impact_volume(placed);
                    if impact.x != 0 && impact.y != 0 && impact.z != 0 && vec_in(&impact, BODY_LIMIT) {
                        restrict_motion(impact, body);
                    }
                }
                k += 1;
            }
        },
    }
}

/// Pushes `body` out of the collider boxes of every loaded block that its
/// collider overlapped when the call began, block by block (x, then y, then
/// z), recomputing its collider after every push (see `collided`).
pub fn collide(body: &mut RigidBody, world: &ChunkManager, blocks: &Vec<BlockType>)
    requires
        world.wf(),
    ensures
        *final(body) == collided(*old(body), *world, blocks@),
{
    if !body.is_in_limits() {
        return;
    }
    let c = body.world_collider();
    if c.higher.x <= c.lower.x || c.higher.y <= c.lower.y || c.higher.z <= c.lower.z {
        return;
    }
    let x0 = block_coordinate(c.lower.x);
    let x1 = block_coordinate(c.higher.x - 1);
    let y0 = block_coordinate(c.lower.y);
    let y1 = block_coordinate(c.higher.y - 1);
    let z0 = block_coordinate(c.lower.z);
    let z1 = block_coordinate(c.higher.z - 1);
    proof {
        lemma_block_bound(c.lower.x as int);
        lemma_block_bound(c.higher.x - 1);
        lemma_block_bound(c.lower.y as int);
        lemma_block_bound(c.higher.y - 1);
        lemma_block_bound(c.lower.z as int);
        lemma_block_bound(c.higher.z - 1);
        vstd::arithmetic::div_mod::lemma_div_is_ordered(c.lower.x as int, c.higher.x - 1, 256);
        vstd::arithmetic::div_mod::lemma_div_is_ordered(c.lower.y as int, c.higher.y - 1, 256);
        vstd::arithmetic::div_mod::lemma_div_is_ordered(c.lower.z as int, c.higher.z - 1, 256);
        lemma_extent(c.lower.x as int, c.higher.x - 1);
        lemma_extent(c.lower.y as int, c.higher.y - 1);
        lemma_extent(c.lower.z as int, c.higher.z - 1);
    }
    let nx = (x1 - x0 + 1) as u64;
    let ny = (y1 - y0 + 1) as u64;
    let nz = (z1 - z0 + 1) as u64;
    assert(nx * ny * nz <= 0x4000 * 0x4000 * 0x4000 && nx * ny <= 0x4000 * 0x4000 && ny * nz <= 0x4000 * 0x4000 && ny * nz >= 1) by (nonlinear_arith)
        requires
            1 <= nx <= 0x4000,
            1 <= ny <= 0x4000,
            1 <= nz <= 0x4000,
    ;
    let ghost lo = (x0 as int, y0 as int, z0 as int);
    let n = nx * ny * nz;
    let ghost start = *old(body);
    let mut i: u64 = 0;
    while i < n
        invariant
            world.wf(),
            n == nx * ny * nz,
            1 <= nx <= 0x4000,
            1 <= ny <= 0x4000,
            1 <= nz <= 0x4000,
            1 <= ny * nz <= 0x4000 * 0x4000,
            -0x4000_0000 <= x0 && x0 + nx - 1 <= 0x4000_0000,
            -0x4000_0000 <= y0 && y0 + ny - 1 <= 0x4000_0000,
            -0x4000_0000 <= z0 && z0 + nz - 1 <= 0x4000_0000,
            lo == (x0 as int, y0 as int, z0 as int),
            i <= n,
            *body == region_push(start, *world, blocks@, lo, ny as int, nz as int, i as int),
        decreases n - i,
    {
        let a = i / (ny * nz);
        let b = (i / nz) % ny;
        let d = i % nz;
        proof {
            lemma_region_index(i as int, nx as int, ny as int, nz as int);
        }
        let pos = BlockPosition::new(x0 + a as i64, y0 + b as i64, z0 + d as i64);
        assert(pos == region_block(lo, ny as int, nz as int, i as int));
        collide_block(body, world, blocks, pos);
        i += 1;
    }
}

proof fn lemma_extent(l: int, h: int)
    requires
        l <= h,
        h - l <= 2 * COLLIDER_LIMIT,
    ensures
        crate::ray::block_of_unit(h) - crate::ray::block_of_unit(l) < 0x4000,
{
    vstd::arithmetic::div_mod::lemma_fundamental_div_mod(l, 256);
    vstd::arithmetic::div_mod::lemma_mod_bound(l, 256);
    vstd::arithmetic::div_mod::lemma_fundamental_div_mod(h, 256);
    vstd::arithmetic::div_mod::lemma_mod_bound(h, 256);
    let a = l / 256;
    let b = h / 256;
    assert(b - a < 0x4000) by (nonlinear_arith)
        requires
            l == 256 * a + l % 256,
            h == 256 * b + h % 256,
            0 <= l % 256 < 256,
            0 <= h % 256 < 256,
            h - l <= 2 * COLLIDER_LIMIT,
    ;
}

/// A collision pass keeps what `same_identity` compares.
pub proof fn lemma_collided_identity(body: RigidBody, world: ChunkManager, cat: Seq<BlockType>)
    ensures
        same_identity(collided(body, world, cat), body),
{
    let c = moved(body.collider, body.position);
    if !(!body.in_limits() || c.higher.x <= c.lower.x || c.higher.y <= c.lower.y || c.higher.z <= c.lower.z) {
        let lo = (
            crate::ray::block_of_unit(c.lower.x as int),
            crate::ray::block_of_unit(c.lower.y as int),
            crate::ray::block_of_unit(c.lower.z as int),
        );
        let nx = crate::ray::block_of_unit(c.higher.x - 1) - lo.0 + 1;
        let ny = crate::ray::block_of_unit(c.higher.y - 1) - lo.1 + 1;
        let nz = crate::ray::block_of_unit(c.higher.z - 1) - lo.2 + 1;
        lemma_region_identity(body, world, cat, lo, ny, nz, nx * ny * nz);
    }
}

proof fn lemma_region_identity(
    body: RigidBody,
    world: ChunkManager,
    cat: Seq<BlockType>,
    lo: (int, int, int),
    ny: int,
    nz: int,
    n: int,
)
    ensures
        same_identity(region_push(body, world, cat, lo, ny, nz, n), body),
    decreases n,
{
    if n > 0 {
        lemma_region_identity(body, world, cat, lo, ny, nz, n - 1);
        let prev = region_push(body, world, cat, lo, ny, nz, n - 1);
        let b = region_block(lo, ny, nz, n - 1);
        match world.spec_get(b) {
            None => {},
            Some(blk) => {
                let boxes = colliders_of(cat, blk.btype as int);
                let origin = Vec3 {
                    x: (b.0.x * UNITS_PER_BLOCK) as i64,
                    y: (b.0.y * UNITS_PER_BLOCK) as i64,
                    z: (b.0.z * UNITS_PER_BLOCK) as i64,
                };
                lemma_boxes_identity(prev, boxes, origin, boxes.len() as int);
            },
        }
    }
}

proof fn lemma_boxes_identity(body: RigidBody, boxes: Seq<AAQuader>, origin: Vec3, k: int)
    ensures
        same_identity(boxes_push(body, boxes, origin, k), body),
    decreases k,
{
    if k > 0 {
        lemma_boxes_identity(body, boxes, origin, k - 1);
    }
}

proof fn lemma_region_index(i: int, nx: int, ny: int, nz: int)
    requires
        1 <= nx,
        1 <= ny,
        1 <= nz,
        0 <= i < nx * ny * nz,
    ensures
        0 <= i / (ny * nz) < nx,
        0 <= (i / nz) % ny < ny,
        0 <= i % nz < nz,
{
    assert(ny * nz >= 1) by (nonlinear_arith)
        requires
            1 <= ny,
            1 <= nz,
    ;
    vstd::arithmetic::div_mod::lemma_div_pos_is_pos(i, ny * nz);
    vstd::arithmetic::div_mod::lemma_fundamental_div_mod(i, ny * nz);
    vstd::arithmetic::div_mod::lemma_mod_bound(i, ny * nz);
    assert(i / (ny * nz) < nx) by (nonlinear_arith)
        requires
            i == (ny * nz) * (i / (ny * nz)) + i % (ny * nz),
            0 <= i % (ny * nz),
            i < nx * ny * nz,
            ny * nz >= 1,
    ;
    vstd::arithmetic::div_mod::lemma_div_pos_is_pos(i, nz);
    vstd::arithmetic::div_mod::lemma_mod_bound(i / nz, ny);
    vstd::arithmetic::div_mod::lemma_mod_bound(i, nz);
}

proof fn lemma_block_bound(c: int)
    requires
        -BODY_LIMIT - COLLIDER_LIMIT - 1 <= c <= BODY_LIMIT + COLLIDER_LIMIT,
    ensures
        -0x4000_0000 <= crate::ray::block_of_unit(c) <= 0x4000_0000,
{
    vstd::arithmetic::div_mod::lemma_fundamental_div_mod(c, 256);
    vstd::arithmetic::div_mod::lemma_mod_bound(c, 256);
    let q = c / 256;
    assert(-0x4000_0000 <= q <= 0x4000_0000) by (nonlinear_arith)
        requires
            c == 256 * q + c % 256,
            0 <= c % 256 < 256,
            -BODY_LIMIT - COLLIDER_LIMIT - 1 <= c <= BODY_LIMIT + COLLIDER_LIMIT,
    ;
}

impl PhysicsEngine {
    /// One simulation step: every body within the limits is integrated
    /// (`RigidBody::apply_force`) and then pushed out of the block colliders
    /// it overlaps (`collide`); a body outside the limits is left alone.
    pub fn step(&mut self, world: &ChunkManager, blocks: &Vec<BlockType>)
        requires
            old(self).wf(),
            world.wf(),
        ensures
            final(self).wf(),
            final(self).bodies().len() == old(self).bodies().len(),
            forall|h: RigidBodyHandle| final(self).fresh(h) == old(self).fresh(h),
            forall|i: int|
                0 <= i < final(self).bodies().len() ==> {
                    let a = #[trigger] final(self).bodies()[i];
                    let b = old(self).bodies()[i];
                    &&& b.in_limits() ==> a == collided(integrated(b), *world, blocks@)
                    &&& !b.in_limits() ==> a == b
                },
    {
        let mut i: usize = 0;
        while i < self.rigid_bodies.len()
            invariant
                self.wf(),
                world.wf(),
                i <= self.rigid_bodies@.len(),
                self.rigid_bodies@.len() == old(self).rigid_bodies@.len(),
                self.next_handle == old(self).next_handle,
                forall|j: int| i <= j < self.rigid_bodies@.len() ==> #[trigger] self.rigid_bodies@[j] == old(self).rigid_bodies@[j],
                forall|j: int|
                    0 <= j < i ==> {
                        let a = #[trigger] self.bodies()[j];
                        let b = old(self).bodies()[j];
                        &&& b.in_limits() ==> a == collided(integrated(b), *world, blocks@)
                        &&& !b.in_limits() ==> a == b
                    },
            decreases self.rigid_bodies@.len() - i,
        {
            let mut body = self.rigid_bodies[i];
            if body.is_in_limits() {
                body.apply_force();
                let ghost moved_body = body;
                collide(&mut body, world, blocks);
                proof {
                    lemma_collided_identity(moved_body, *world, blocks@);
                }
            }
            self.replace_body(i, body);
            i += 1;
        }
    }
}

} // verus!
