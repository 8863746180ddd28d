//! Points and axis-aligned boxes in fixed-point world units, and the signed
//! overlap of two boxes.
use vstd::prelude::*;
use vstd::math::abs;

verus! {

/// World units per block edge.
pub const UNITS_PER_BLOCK: i64 = 256;

/// Bound on the magnitude of a coordinate that the geometry accepts.
pub const COORD_LIMIT: i64 = 0x100_0000_0000;

/// Whether `v` has magnitude at most `COORD_LIMIT`.
pub open spec fn coord_ok(v: int) -> bool {
    -COORD_LIMIT <= v <= COORD_LIMIT
}

/// A point or displacement in world units (`UNITS_PER_BLOCK` per block).
#[derive(Copy, Clone, PartialEq, Eq, Debug, Hash, Structural)]
pub struct Vec3 {
    pub x: i64,
    pub y: i64,
    pub z: i64,
}

impl Vec3 {
    /// Whether every component has magnitude at most `COORD_LIMIT`.
    pub open spec fn in_range(self) -> bool {
        coord_ok(self.x as int) && coord_ok(self.y as int) && coord_ok(self.z as int)
    }

    pub fn new(x: i64, y: i64, z: i64) -> (r: Vec3)
        ensures
            r.x == x && r.y == y && r.z == z,
    {
        Vec3 { x, y, z }
    }

    pub fn zero() -> (r: Vec3)
        ensures
            r.x == 0 && r.y == 0 && r.z == 0,
    {
        Vec3 { x: 0, y: 0, z: 0 }
    }

    /// Whether every component is within `COORD_LIMIT`.
    pub fn is_in_range(&self) -> (r: bool)
        ensures
            r == self.in_range(),
    {
        -COORD_LIMIT <= self.x && self.x <= COORD_LIMIT && -COORD_LIMIT <= self.y && self.y
            <= COORD_LIMIT && -COORD_LIMIT <= self.z && self.z <= COORD_LIMIT
    }

    /// The componentwise sum.
    pub fn plus(&self, o: &Vec3) -> (r: Vec3)
        requires
            self.in_range(),
            o.in_range(),
        ensures
            r.x == self.x + o.x && r.y == self.y + o.y && r.z == self.z + o.z,
    {
        Vec3 { x: self.x + o.x, y: self.y + o.y, z: self.z + o.z }
    }

    /// The componentwise difference.
    pub fn minus(&self, o: &Vec3) -> (r: Vec3)
        requires
            self.in_range(),
            o.in_range(),
        ensures
            r.x == self.x - o.x && r.y == self.y - o.y && r.z == self.z - o.z,
    {
        Vec3 { x: self.x - o.x, y: self.y - o.y, z: self.z - o.z }
    }
}

/// The signed overlap of `[l1, h1]` with `[l2, h2]` on one axis: the
/// shorter of the two penetration depths, negative when the first interval
/// has to move down to leave the second, and zero when they do not overlap.
pub open spec fn impact_axis(l1: int, h1: int, l2: int, h2: int) -> int {
    let left_to_right = h2 - l1;
    let right_to_left = h1 - l2;
    if left_to_right > 0 && right_to_left > 0 {
        if left_to_right < right_to_left {
            left_to_right
        } else {
            -right_to_left
        }
    } else {
        0
    }
}

fn impact_value(l1: i64, h1: i64, l2: i64, h2: i64) -> (r: i64)
    requires
        coord_ok(l1 as int) && coord_ok(h1 as int) && coord_ok(l2 as int) && coord_ok(h2 as int),
    ensures
        r == impact_axis(l1 as int, h1 as int, l2 as int, h2 as int),
{
    let left_to_right = h2 - l1;
    let right_to_left = h1 - l2;
    if left_to_right > 0 && right_to_left > 0 {
        if left_to_right < right_to_left {
            left_to_right
        } else {
            -right_to_left
        }
    } else {
        0
    }
}

/// An axis-aligned box given by its lower and higher corner.
#[derive(Copy, Clone, PartialEq, Eq, Debug, Structural)]
pub struct AAQuader {
    pub lower: Vec3,
    pub higher: Vec3,
}

impl AAQuader {
    /// The lower corner is below the higher corner on every axis.
    pub open spec fn ordered(self) -> bool {
        self.lower.x <= self.higher.x && self.lower.y <= self.higher.y && self.lower.z
            <= self.higher.z
    }

    /// Both corners are within the coordinate range.
    pub open spec fn in_range(self) -> bool {
        self.lower.in_range() && self.higher.in_range()
    }

    /// The box between two corners; the lower corner must not exceed the
    /// higher one on any axis.
    pub fn new(lower: Vec3, higher: Vec3) -> (r: AAQuader)
        requires
            lower.x <= higher.x && lower.y <= higher.y && lower.z <= higher.z,
        ensures
            r.lower == lower && r.higher == higher,
            r.ordered(),
    {
        AAQuader { lower, higher }
    }

    /// The box between two corners, taken as given.
    pub fn unchecked(lower: Vec3, higher: Vec3) -> (r: AAQuader)
        ensures
            r.lower == lower && r.higher == higher,
    {
        AAQuader { lower, higher }
    }

    /// The box of the given size (taken by magnitude) around `center`; an
    /// odd size loses one unit.
    pub fn center_size(center: Vec3, size: Vec3) -> (r: AAQuader)
        requires
            center.in_range(),
            size.in_range(),
        ensures
            r.lower.x == center.x - abs(size.x as int) / 2,
            r.lower.y == center.y - abs(size.y as int) / 2,
            r.lower.z == center.z - abs(size.z as int) / 2,
            r.higher.x == center.x + abs(size.x as int) / 2,
            r.higher.y == center.y + abs(size.y as int) / 2,
            r.higher.z == center.z + abs(size.z as int) / 2,
            r.ordered(),
    {
        let hx = if size.x < 0 { -size.x } else { size.x } / 2;
        let hy = if size.y < 0 { -size.y } else { size.y } / 2;
        let hz = if size.z < 0 { -size.z } else { size.z } / 2;
        AAQuader {
            lower: Vec3::new(center.x - hx, center.y - hy, center.z - hz),
            higher: Vec3::new(center.x + hx, center.y + hy, center.z + hz),
        }
    }

    /// The edge lengths.
    pub fn size(&self) -> (r: Vec3)
        requires
            self.in_range(),
        ensures
            r.x == self.higher.x - self.lower.x,
            r.y == self.higher.y - self.lower.y,
            r.z == self.higher.z - self.lower.z,
    {
        self.higher.minus(&self.lower)
    }

    pub fn lower(&self) -> (r: Vec3)
        ensures
            r == self.lower,
    {
        self.lower
    }

    pub fn higher(&self) -> (r: Vec3)
        ensures
            r == self.higher,
    {
        self.higher
    }

    /// Moves the box by `t`.
    pub fn translate(&mut self, t: Vec3)
        requires
            old(self).in_range(),
            t.in_range(),
        ensures
            final(self).lower.x == old(self).lower.x + t.x,
            final(self).lower.y == old(self).lower.y + t.y,
            final(self).lower.z == old(self).lower.z + t.z,
            final(self).higher.x == old(self).higher.x + t.x,
            final(self).higher.y == old(self).higher.y + t.y,
            final(self).higher.z == old(self).higher.z + t.z,
            old(self).ordered() ==> final(self).ordered(),
    {
        self.lower = self.lower.plus(&t);
        self.higher = self.higher.plus(&t);
    }

    /// The box moved by `t`.
    pub fn translated(&self, t: Vec3) -> (r: AAQuader)
        requires
            self.in_range(),
            t.in_range(),
        ensures
            r.lower.x == self.lower.x + t.x && r.lower.y == self.lower.y + t.y && r.lower.z
                == self.lower.z + t.z,
            r.higher.x == self.higher.x + t.x && r.higher.y == self.higher.y + t.y && r.higher.z
                == self.higher.z + t.z,
            self.ordered() ==> r.ordered(),
    {
        AAQuader { lower: self.lower.plus(&t), higher: self.higher.plus(&t) }
    }

    /// Scales the box about its center by `num / den`, keeping the lower
    /// corner below the higher one.
    pub fn scale(&mut self, num: i64, den: i64)
        requires
            old(self).in_range(),
            old(self).ordered(),
            0 <= num <= 0x10000,
            0 < den,
        ensures
            final(self).ordered(),
            ({
                let h = (old(self).higher.x - old(self).lower.x) / 2;
                let c = old(self).lower.x + h;
                final(self).lower.x == c - h * num / (den as int) && final(self).higher.x == c + h * num / (den as int)
            }),
            ({
                let h = (old(self).higher.y - old(self).lower.y) / 2;
                let c = old(self).lower.y + h;
                final(self).lower.y == c - h * num / (den as int) && final(self).higher.y == c + h * num / (den as int)
            }),
            ({
                let h = (old(self).higher.z - old(self).lower.z) / 2;
                let c = old(self).lower.z + h;
                final(self).lower.z == c - h * num / (den as int) && final(self).higher.z == c + h * num / (den as int)
            }),
    {
        let (lx, hx) = scale_axis(self.lower.x, self.higher.x, num, den);
        let (ly, hy) = scale_axis(self.lower.y, self.higher.y, num, den);
        let (lz, hz) = scale_axis(self.lower.z, self.higher.z, num, den);
        self.lower = Vec3::new(lx, ly, lz);
        self.higher = Vec3::new(hx, hy, hz);
    }

    /// The volume, in cubic world units.
    pub fn volume(&self) -> (r: i128)
        requires
            self.in_range(),
        ensures
            r == (self.higher.x - self.lower.x) * (self.higher.y - self.lower.y) * (self.higher.z
                - self.lower.z),
    {
        let s = self.size();
        let a = s.x as i128;
        let b = s.y as i128;
        let c = s.z as i128;
        assert(-0x200_0000_0000 <= a <= 0x200_0000_0000);
        assert(-0x4_0000_0000_0000_0000_0000 <= a * b <= 0x4_0000_0000_0000_0000_0000)
            by (nonlinear_arith)
            requires
                -0x200_0000_0000 <= a <= 0x200_0000_0000,
                -0x200_0000_0000 <= b <= 0x200_0000_0000,
        ;
        assert(-0x800_0000_0000_0000_0000_0000_0000_0000 <= a * b * c
            <= 0x800_0000_0000_0000_0000_0000_0000_0000) by (nonlinear_arith)
            requires
                -0x4_0000_0000_0000_0000_0000 <= a * b <= 0x4_0000_0000_0000_0000_0000,
                -0x200_0000_0000 <= c <= 0x200_0000_0000,
        ;
        a * b * c
    }

    /// The signed overlap with `other` on each axis (see `impact_axis`);
    /// zero on every axis on which the boxes do not overlap.
    pub fn impact_volume(&self, other: AAQuader) -> (r: Vec3)
        requires
            self.in_range(),
            other.in_range(),
        ensures
            r.x == impact_axis(
                self.lower.x as int,
                self.higher.x as int,
                other.lower.x as int,
                other.higher.x as int,
            ),
            r.y == impact_axis(
                self.lower.y as int,
                self.higher.y as int,
                other.lower.y as int,
                other.higher.y as int,
            ),
            r.z == impact_axis(
                self.lower.z as int,
                self.higher.z as int,
                other.lower.z as int,
                other.higher.z as int,
            ),
            !(self.lower.x < other.higher.x && other.lower.x < self.higher.x) ==> r.x == 0,
            !(self.lower.y < other.higher.y && other.lower.y < self.higher.y) ==> r.y == 0,
            !(self.lower.z < other.higher.z && other.lower.z < self.higher.z) ==> r.z == 0,
    {
        Vec3::new(
            impact_value(self.lower.x, self.higher.x, other.lower.x, other.higher.x),
            impact_value(self.lower.y, self.higher.y, other.lower.y, other.higher.y),
            impact_value(self.lower.z, self.higher.z, other.lower.z, other.higher.z),
        )
    }

    /// Whether the boxes overlap with positive depth on all three axes.
    pub fn intersect(&self, other: &AAQuader) -> (r: bool)
        requires
            self.in_range(),
            other.in_range(),
        ensures
            r == (self.lower.x < other.higher.x && other.lower.x < self.higher.x && self.lower.y
                < other.higher.y && other.lower.y < self.higher.y && self.lower.z < other.higher.z
                && other.lower.z < self.higher.z),
    {
        let impact = self.impact_volume(*other);
        impact.x != 0 && impact.y != 0 && impact.z != 0
    }
}

fn scale_axis(lower: i64, higher: i64, num: i64, den: i64) -> (r: (i64, i64))
    requires
        coord_ok(lower as int),
        coord_ok(higher as int),
        lower <= higher,
        0 <= num <= 0x10000,
        0 < den,
    ensures
        ({
            let h = (higher - lower) / 2;
            let c = lower + h;
            r.0 == c - h * num / (den as int) && r.1 == c + h * num / (den as int)
        }),
        r.0 <= r.1,
{
    let half = (higher - lower) / 2;
    let center = lower + half;
    assert(0 <= half * num <= 0x200_0000_0000 * 0x10000) by (nonlinear_arith)
        requires
            0 <= half <= 0x200_0000_0000,
            0 <= num <= 0x10000,
    ;
    let scaled = half * num / den;
    assert(0 <= scaled <= half * num) by {
        vstd::arithmetic::div_mod::lemma_div_is_ordered_by_denominator(half * num, 1, den as int);
        vstd::arithmetic::div_mod::lemma_div_pos_is_pos(half * num, den as int);
    }
    (center - scaled, center + scaled)
}

/// On an axis where `[0, 2k]` and `[k, 3k]` overlap by `k`, the first box
/// is pushed down by `k` and the second up by `k`.
pub proof fn lemma_impact_unit_overlap(k: int)
    requires
        k > 0,
    ensures
        impact_axis(0, 2 * k, k, 3 * k) == -k,
        impact_axis(k, 3 * k, 0, 2 * k) == k,
{
}

} // verus!
