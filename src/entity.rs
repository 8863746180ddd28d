//! A movable object with its own velocity, driven by accelerations.
use vstd::prelude::*;
use crate::collider::{AAQuader, Vec3, UNITS_PER_BLOCK};
use crate::noise::div_signed;
use crate::rigid_body::{body_ok, vec_body_ok};

verus! {

/// Downward velocity added each update to an object that is not flying.
pub const OBJECT_GRAVITY: i64 = 5 * UNITS_PER_BLOCK;

/// The velocity component after friction: nine tenths, rounded down.
pub open spec fn with_friction(v: int) -> int {
    (v * 9) / 10
}

/// A movable object that interacts with others and with the chunks.
#[derive(Copy, Clone, PartialEq, Eq, Debug, Structural)]
pub struct Object {
    pub velocity: Vec3,
    pub next_acceleration: Vec3,
    pub collider: AAQuader,
    pub flying: bool,
}

fn friction(v: i64) -> (r: i64)
    requires
        body_ok(v as int),
    ensures
        r == with_friction(v as int),
        body_ok(r as int),
{
    proof {
        vstd::arithmetic::div_mod::lemma_fundamental_div_mod(v * 9, 10);
        vstd::arithmetic::div_mod::lemma_mod_bound(v * 9, 10);
    }
    div_signed(v * 9, 10)
}

impl Object {
    /// An object at rest.
    pub fn new(collider: AAQuader, is_flying: bool) -> (r: Object)
        ensures
            r.collider == collider && r.flying == is_flying,
            r.velocity == Vec3::spec_zero() && r.next_acceleration == Vec3::spec_zero(),
    {
        Object { velocity: Vec3::zero(), next_acceleration: Vec3::zero(), collider, flying: is_flying }
    }

    /// Adds `force` to the acceleration of the next update.
    pub fn apply_force(&mut self, force: Vec3)
        requires
            vec_body_ok(old(self).next_acceleration),
            vec_body_ok(force),
        ensures
            final(self).next_acceleration.x == old(self).next_acceleration.x + force.x,
            final(self).next_acceleration.y == old(self).next_acceleration.y + force.y,
            final(self).next_acceleration.z == old(self).next_acceleration.z + force.z,
            final(self).velocity == old(self).velocity,
            final(self).flying == old(self).flying,
            final(self).collider == old(self).collider,
    {
        self.next_acceleration = Vec3::new(
            self.next_acceleration.x + force.x,
            self.next_acceleration.y + force.y,
            self.next_acceleration.z + force.z,
        );
    }

    pub fn set_flying(&mut self, flying: bool)
        ensures
            *final(self) == (Object { flying, ..*old(self) }),
    {
        self.flying = flying;
    }

    pub fn is_flying(&self) -> (r: bool)
        ensures
            r == self.flying,
    {
        self.flying
    }

    pub fn velocity(&self) -> (r: Vec3)
        ensures
            r == self.velocity,
    {
        self.velocity
    }

    pub fn get_collider(&self) -> (r: AAQuader)
        ensures
            r == self.collider,
    {
        self.collider
    }

    /// One update: friction on the velocity, then the accumulated
    /// acceleration, then gravity when not flying; the acceleration is
    /// cleared.
    pub fn calc_velocity(&mut self)
        requires
            vec_body_ok(old(self).velocity),
            vec_body_ok(old(self).next_acceleration),
        ensures
            final(self).velocity.x == with_friction(old(self).velocity.x as int) + old(self).next_acceleration.x,
            final(self).velocity.y == with_friction(old(self).velocity.y as int) + old(self).next_acceleration.y
                - if old(self).flying {
                0
            } else {
                OBJECT_GRAVITY as int
            },
            final(self).velocity.z == with_friction(old(self).velocity.z as int) + old(self).next_acceleration.z,
            final(self).next_acceleration == Vec3::spec_zero(),
            final(self).flying == old(self).flying,
            final(self).collider == old(self).collider,
    {
        let vx = friction(self.velocity.x) + self.next_acceleration.x;
        let mut vy = friction(self.velocity.y) + self.next_acceleration.y;
        let vz = friction(self.velocity.z) + self.next_acceleration.z;
        if !self.flying {
            vy = vy - OBJECT_GRAVITY;
        }
        self.velocity = Vec3::new(vx, vy, vz);
        self.next_acceleration = Vec3::zero();
    }
}

} // verus!
