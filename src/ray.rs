//! Rays: the slab-method hit interval against a box, and the traversal of
//! the block grid along a ray.
use vstd::prelude::*;
use crate::collider::{AAQuader, Vec3, COORD_LIMIT, UNITS_PER_BLOCK};
use crate::coordinates::{BlockPosition, BlockVector, ChunkPosition};

verus! {

/// Bound on the magnitude of a coordinate in a hit computation.
pub const HIT_LIMIT: i64 = 0x400_0000_0000;

/// Bound on the magnitude of a block coordinate that a grid traversal visits.
pub const BLOCK_LIMIT: i64 = 0x2_0000_0000;

/// Bound on the magnitude of a ray parameter's numerator.
pub const PARAM_NUM_LIMIT: i128 = 0x1000_0000_0000;

/// Bound on a ray parameter's denominator.
pub const PARAM_DEN_LIMIT: i128 = 0x800_0000_0000;

pub open spec fn hit_ok(v: int) -> bool {
    -HIT_LIMIT <= v <= HIT_LIMIT
}

pub open spec fn vec_hit_ok(v: Vec3) -> bool {
    hit_ok(v.x as int) && hit_ok(v.y as int) && hit_ok(v.z as int)
}

/// A position along a ray: the rational `num / den` in units of the ray's
/// direction vector.
#[derive(Copy, Clone, PartialEq, Eq, Debug, Structural)]
pub struct Param {
    pub num: i128,
    pub den: i128,
}

impl Param {
    pub open spec fn bounded(self) -> bool {
        -PARAM_NUM_LIMIT <= self.num <= PARAM_NUM_LIMIT && 0 < self.den <= PARAM_DEN_LIMIT
    }

    /// Strict order of the rationals.
    pub open spec fn spec_lt(self, o: Param) -> bool {
        self.num * o.den < o.num * self.den
    }

    /// Whether this rational is below `o`.
    pub fn lt(&self, o: &Param) -> (r: bool)
        requires
            self.bounded(),
            o.bounded(),
        ensures
            r == self.spec_lt(*o),
    {
        proof {
            lemma_param_products(*self, *o);
        }
        self.num * o.den < o.num * self.den
    }

    /// Whether this rational equals the integer `k`.
    pub fn equals_integer(&self, k: i64) -> (r: bool)
        requires
            self.bounded(),
        ensures
            r == (self.num == k * self.den),
    {
        assert(-0x8000_0000_0000_0000 * PARAM_DEN_LIMIT <= k * self.den <= 0x8000_0000_0000_0000
            * PARAM_DEN_LIMIT) by (nonlinear_arith)
            requires
                -0x8000_0000_0000_0000 <= k <= 0x8000_0000_0000_0000,
                0 < self.den <= PARAM_DEN_LIMIT,
        ;
        self.num == (k as i128) * self.den
    }
}

proof fn lemma_param_products(a: Param, b: Param)
    requires
        a.bounded(),
        b.bounded(),
    ensures
        -PARAM_NUM_LIMIT * PARAM_DEN_LIMIT <= a.num * b.den <= PARAM_NUM_LIMIT * PARAM_DEN_LIMIT,
        -PARAM_NUM_LIMIT * PARAM_DEN_LIMIT <= b.num * a.den <= PARAM_NUM_LIMIT * PARAM_DEN_LIMIT,
{
    assert(-PARAM_NUM_LIMIT * PARAM_DEN_LIMIT <= a.num * b.den <= PARAM_NUM_LIMIT * PARAM_DEN_LIMIT)
        by (nonlinear_arith)
        requires
            -PARAM_NUM_LIMIT <= a.num <= PARAM_NUM_LIMIT,
            0 < b.den <= PARAM_DEN_LIMIT,
    ;
    assert(-PARAM_NUM_LIMIT * PARAM_DEN_LIMIT <= b.num * a.den <= PARAM_NUM_LIMIT * PARAM_DEN_LIMIT)
        by (nonlinear_arith)
        requires
            -PARAM_NUM_LIMIT <= b.num <= PARAM_NUM_LIMIT,
            0 < a.den <= PARAM_DEN_LIMIT,
    ;
}

/// The rational `n / d` with a positive denominator.
pub open spec fn frac(n: int, d: int) -> Param {
    if d > 0 {
        Param { num: n as i128, den: d as i128 }
    } else {
        Param { num: -n as i128, den: -d as i128 }
    }
}

/// What one axis contributes to a hit interval.
#[derive(Copy, Clone, PartialEq, Eq, Debug, Structural)]
pub enum AxisSpan {
    /// The ray runs inside the slab: no constraint.
    Free,
    /// The ray runs outside the slab: no hit.
    Blocked,
    /// The ray crosses the slab between `start` and `end`; `orientation`
    /// is the sign of the direction on this axis.
    Span { start: Param, end: Param, orientation: i64 },
}

/// The interval in which a ray with origin `o` and direction `d` on one
/// axis lies inside the slab `[lo, hi]`. A ray parallel to the slab is
/// inside it when its origin lies strictly between the planes, or, when
/// `closed`, also on one of them.
pub open spec fn axis_span(o: int, d: int, lo: int, hi: int, closed: bool) -> AxisSpan {
    let start_dist = lo - o;
    let end_dist = hi - o;
    if d != 0 {
        if end_dist * d > start_dist * d {
            AxisSpan::Span { start: frac(start_dist, d), end: frac(end_dist, d), orientation: 1 }
        } else {
            AxisSpan::Span { start: frac(end_dist, d), end: frac(start_dist, d), orientation: -1i64 }
        }
    } else if start_dist * end_dist < 0 || (closed && start_dist * end_dist == 0) {
        AxisSpan::Free
    } else {
        AxisSpan::Blocked
    }
}

/// Start of an axis interval; `None` stands for minus infinity.
pub open spec fn span_start(s: AxisSpan) -> Option<Param> {
    match s {
        AxisSpan::Span { start, .. } => Some(start),
        _ => None,
    }
}

/// End of an axis interval; `None` stands for plus infinity.
pub open spec fn span_end(s: AxisSpan) -> Option<Param> {
    match s {
        AxisSpan::Span { end, .. } => Some(end),
        _ => None,
    }
}

pub open spec fn span_orientation(s: AxisSpan) -> i64 {
    match s {
        AxisSpan::Span { orientation, .. } => orientation,
        _ => 0,
    }
}

/// The later of two starts (`None` is minus infinity).
pub open spec fn later_start(a: Option<Param>, b: Option<Param>) -> Option<Param> {
    match a {
        None => b,
        Some(x) => match b {
            None => a,
            Some(y) => if x.spec_lt(y) {
                b
            } else {
                a
            },
        },
    }
}

/// The earlier of two ends (`None` is plus infinity).
pub open spec fn earlier_end(a: Option<Param>, b: Option<Param>) -> Option<Param> {
    match a {
        None => b,
        Some(x) => match b {
            None => a,
            Some(y) => if y.spec_lt(x) {
                b
            } else {
                a
            },
        },
    }
}

/// Whether the end `a` of an axis interval is the rational `e`.
pub open spec fn end_equals(a: Option<Param>, e: Param) -> bool {
    match a {
        Some(p) => p.num * e.den == e.num * p.den,
        None => false,
    }
}

/// The face through which the ray leaves: the first axis (x, then y, then
/// z) whose interval ends at `e`, the end of the whole interval, signed by
/// the direction on that axis.
pub open spec fn leaving_normal(sx: AxisSpan, sy: AxisSpan, sz: AxisSpan, e: Param) -> BlockVector {
    if end_equals(span_end(sx), e) {
        BlockVector { x: span_orientation(sx), y: 0, z: 0 }
    } else if end_equals(span_end(sy), e) {
        BlockVector { x: 0, y: span_orientation(sy), z: 0 }
    } else {
        BlockVector { x: 0, y: 0, z: span_orientation(sz) }
    }
}

/// Where a ray passes through a box.
#[derive(Copy, Clone, PartialEq, Eq, Debug, Structural)]
pub struct RayHitInfo {
    pub start: Param,
    pub end: Param,
    pub leaving_face_normal: BlockVector,
}

/// The hit of the three axis intervals: none when an axis is blocked, when
/// no axis constrains the ray, or when the intersection of the intervals
/// is empty (or a single point, unless `closed`).
pub open spec fn combine_spans(sx: AxisSpan, sy: AxisSpan, sz: AxisSpan, closed: bool) -> Option<RayHitInfo> {
    if sx is Blocked || sy is Blocked || sz is Blocked {
        None
    } else {
        let start = later_start(later_start(span_start(sx), span_start(sy)), span_start(sz));
        let end = earlier_end(earlier_end(span_end(sx), span_end(sy)), span_end(sz));
        match start {
            None => None,
            Some(s) => match end {
                None => None,
                Some(e) => if (if closed {
                    !e.spec_lt(s)
                } else {
                    s.spec_lt(e)
                }) {
                    Some(
                        RayHitInfo {
                            start: s,
                            end: e,
                            leaving_face_normal: leaving_normal(sx, sy, sz, e),
                        },
                    )
                } else {
                    None
                },
            },
        }
    }
}

impl RayHitInfo {
    pub fn start(&self) -> (r: Param)
        ensures
            r == self.start,
    {
        self.start
    }

    pub fn end(&self) -> (r: Param)
        ensures
            r == self.end,
    {
        self.end
    }

    pub fn leaving_face_normal(&self) -> (r: BlockVector)
        ensures
            r == self.leaving_face_normal,
    {
        self.leaving_face_normal
    }
}

fn calc_hit_interval(o: i64, d: i64, lo: i64, hi: i64, closed: bool) -> (r: AxisSpan)
    requires
        hit_ok(o as int),
        hit_ok(d as int),
        hit_ok(lo as int),
        hit_ok(hi as int),
    ensures
        r == axis_span(o as int, d as int, lo as int, hi as int, closed),
        r matches AxisSpan::Span { start, end, .. } ==> start.bounded() && end.bounded(),
{
    let start_dist = (lo as i128) - (o as i128);
    let end_dist = (hi as i128) - (o as i128);
    let dd = d as i128;
    assert(-0x800_0000_0000i128 <= start_dist <= 0x800_0000_0000i128);
    assert(-0x800_0000_0000i128 <= end_dist <= 0x800_0000_0000i128);
    if d != 0 {
        assert(-0x800_0000_0000i128 * 0x400_0000_0000 <= end_dist * dd <= 0x800_0000_0000i128
            * 0x400_0000_0000) by (nonlinear_arith)
            requires
                -0x800_0000_0000i128 <= end_dist <= 0x800_0000_0000i128,
                -0x400_0000_0000i128 <= dd <= 0x400_0000_0000i128,
        ;
        assert(-0x800_0000_0000i128 * 0x400_0000_0000 <= start_dist * dd <= 0x800_0000_0000i128
            * 0x400_0000_0000) by (nonlinear_arith)
            requires
                -0x800_0000_0000i128 <= start_dist <= 0x800_0000_0000i128,
                -0x400_0000_0000i128 <= dd <= 0x400_0000_0000i128,
        ;
        let (sn, en, den) = if dd > 0 {
            (start_dist, end_dist, dd)
        } else {
            (-start_dist, -end_dist, -dd)
        };
        if end_dist * dd > start_dist * dd {
            AxisSpan::Span {
                start: Param { num: sn, den },
                end: Param { num: en, den },
                orientation: 1,
            }
        } else {
            AxisSpan::Span {
                start: Param { num: en, den },
                end: Param { num: sn, den },
                orientation: -1,
            }
        }
    } else {
        assert(-0x800_0000_0000i128 * 0x800_0000_0000 <= start_dist * end_dist
            <= 0x800_0000_0000i128 * 0x800_0000_0000) by (nonlinear_arith)
            requires
                -0x800_0000_0000i128 <= end_dist <= 0x800_0000_0000i128,
                -0x800_0000_0000i128 <= start_dist <= 0x800_0000_0000i128,
        ;
        let product = start_dist * end_dist;
        if product < 0 || (closed && product == 0) {
            AxisSpan::Free
        } else {
            AxisSpan::Blocked
        }
    }
}

fn start_of(s: &AxisSpan) -> (r: Option<Param>)
    ensures
        r == span_start(*s),
{
    match s {
        AxisSpan::Span { start, .. } => Some(*start),
        _ => None,
    }
}

fn end_of(s: &AxisSpan) -> (r: Option<Param>)
    ensures
        r == span_end(*s),
{
    match s {
        AxisSpan::Span { end, .. } => Some(*end),
        _ => None,
    }
}

fn orientation_of(s: &AxisSpan) -> (r: i64)
    ensures
        r == span_orientation(*s),
{
    match s {
        AxisSpan::Span { orientation, .. } => *orientation,
        _ => 0,
    }
}

pub open spec fn opt_bounded(a: Option<Param>) -> bool {
    match a {
        Some(p) => p.bounded(),
        None => true,
    }
}

fn later(a: Option<Param>, b: Option<Param>) -> (r: Option<Param>)
    requires
        opt_bounded(a),
        opt_bounded(b),
    ensures
        r == later_start(a, b),
        opt_bounded(r),
{
    match a {
        None => b,
        Some(x) => match b {
            None => a,
            Some(y) => if x.lt(&y) {
                b
            } else {
                a
            },
        },
    }
}

fn earlier(a: Option<Param>, b: Option<Param>) -> (r: Option<Param>)
    requires
        opt_bounded(a),
        opt_bounded(b),
    ensures
        r == earlier_end(a, b),
        opt_bounded(r),
{
    match a {
        None => b,
        Some(x) => match b {
            None => a,
            Some(y) => if y.lt(&x) {
                b
            } else {
                a
            },
        },
    }
}

fn ends_at(a: Option<Param>, e: &Param) -> (r: bool)
    requires
        opt_bounded(a),
        e.bounded(),
    ensures
        r == end_equals(a, *e),
{
    match a {
        None => false,
        Some(p) => {
            proof {
                lemma_param_products(p, *e);
            }
            p.num * e.den == e.num * p.den
        },
    }
}

/// The block that holds world coordinate `c` (floor division by
/// `UNITS_PER_BLOCK`).
pub open spec fn block_of_unit(c: int) -> int {
    c / (UNITS_PER_BLOCK as int)
}

pub fn block_coordinate(c: i64) -> (r: i64)
    ensures
        r == block_of_unit(c as int),
{
    proof {
        assert((c >> 8u32) * 256 + (c & 255i64) == c && 0 <= (c & 255i64) < 256
            && -0x80_0000_0000_0000i64 <= (c >> 8u32) < 0x80_0000_0000_0000i64) by (bit_vector);
        vstd::arithmetic::div_mod::lemma_fundamental_div_mod_converse(
            c as int,
            256,
            (c >> 8u32) as int,
            (c & 255i64) as int,
        );
    }
    c >> 8u32
}

/// A ray: an origin and a direction. The direction's length is the unit
/// of the ray parameter.
#[derive(Copy, Clone, PartialEq, Eq, Debug, Structural)]
pub struct Ray {
    pub origin: Vec3,
    pub direction: Vec3,
}

impl Ray {
    /// Origin and direction within the coordinate range, direction not zero.
    pub open spec fn wf(self) -> bool {
        self.origin.in_range() && self.direction.in_range() && !(self.direction.x == 0
            && self.direction.y == 0 && self.direction.z == 0)
    }

    /// Origin and direction small enough for a hit computation.
    pub open spec fn hit_ready(self) -> bool {
        vec_hit_ok(self.origin) && vec_hit_ok(self.direction)
    }

    /// The hit of this ray with box `q`: the open test, where grazing a
    /// face or passing through a single point is no hit.
    pub open spec fn spec_hit(self, q: AAQuader) -> Option<RayHitInfo> {
        self.spec_hit_with(q, false)
    }

    /// Where this ray touches box `q`: the closed test, where a ray along a
    /// face or through an edge or corner counts.
    pub open spec fn spec_touch(self, q: AAQuader) -> Option<RayHitInfo> {
        self.spec_hit_with(q, true)
    }

    pub open spec fn spec_hit_with(self, q: AAQuader, closed: bool) -> Option<RayHitInfo> {
        combine_spans(
            axis_span(self.origin.x as int, self.direction.x as int, q.lower.x as int, q.higher.x as int, closed),
            axis_span(self.origin.y as int, self.direction.y as int, q.lower.y as int, q.higher.y as int, closed),
            axis_span(self.origin.z as int, self.direction.z as int, q.lower.z as int, q.higher.z as int, closed),
            closed,
        )
    }

    /// The traversal that starts at the block holding the origin.
    pub open spec fn spec_grid_snap(self) -> GridSnap {
        GridSnap {
            ray: self,
            current_block: BlockPosition(
                BlockVector {
                    x: block_of_unit(self.origin.x as int) as i64,
                    y: block_of_unit(self.origin.y as int) as i64,
                    z: block_of_unit(self.origin.z as int) as i64,
                },
            ),
        }
    }

    /// A ray from `origin` along a non-zero `direction`.
    pub fn new(origin: Vec3, direction: Vec3) -> (r: Ray)
        requires
            origin.in_range(),
            direction.in_range(),
            !(direction.x == 0 && direction.y == 0 && direction.z == 0),
        ensures
            r.origin == origin && r.direction == direction,
            r.wf(),
    {
        Ray { origin, direction }
    }

    /// Moves the origin by `v`.
    pub fn translate(&mut self, v: Vec3)
        requires
            old(self).origin.in_range(),
            v.in_range(),
        ensures
            final(self).direction == old(self).direction,
            final(self).origin.x == old(self).origin.x + v.x,
            final(self).origin.y == old(self).origin.y + v.y,
            final(self).origin.z == old(self).origin.z + v.z,
    {
        self.origin = self.origin.plus(&v);
    }

    /// Moves the origin to `v`.
    pub fn translate_to(&mut self, v: Vec3)
        ensures
            final(self).direction == old(self).direction,
            final(self).origin == v,
    {
        self.origin = v;
    }

    /// This ray with its origin moved by `v`.
    pub fn translated(&self, v: Vec3) -> (r: Ray)
        requires
            self.origin.in_range(),
            v.in_range(),
        ensures
            r.direction == self.direction,
            r.origin.x == self.origin.x + v.x,
            r.origin.y == self.origin.y + v.y,
            r.origin.z == self.origin.z + v.z,
    {
        Ray { origin: self.origin.plus(&v), direction: self.direction }
    }

    /// This ray with its origin moved to `v`.
    pub fn translated_to(&self, v: Vec3) -> (r: Ray)
        ensures
            r.direction == self.direction,
            r.origin == v,
    {
        Ray { origin: v, direction: self.direction }
    }

    /// Where this ray passes through `q`, by the slab method: `None` when
    /// it misses.
    pub fn hit_info(&self, q: &AAQuader) -> (r: Option<RayHitInfo>)
        requires
            self.hit_ready(),
            vec_hit_ok(q.lower),
            vec_hit_ok(q.higher),
        ensures
            r == self.spec_hit(*q),
    {
        self.hit_with(q, false)
    }

    /// Where this ray touches `q` (see `combine_spans`).
    pub fn touch_info(&self, q: &AAQuader) -> (r: Option<RayHitInfo>)
        requires
            self.hit_ready(),
            vec_hit_ok(q.lower),
            vec_hit_ok(q.higher),
        ensures
            r == self.spec_touch(*q),
    {
        self.hit_with(q, true)
    }

    fn hit_with(&self, q: &AAQuader, closed: bool) -> (r: Option<RayHitInfo>)
        requires
            self.hit_ready(),
            vec_hit_ok(q.lower),
            vec_hit_ok(q.higher),
        ensures
            r == self.spec_hit_with(*q, closed),
    {
        let sx = calc_hit_interval(self.origin.x, self.direction.x, q.lower.x, q.higher.x, closed);
        let sy = calc_hit_interval(self.origin.y, self.direction.y, q.lower.y, q.higher.y, closed);
        let sz = calc_hit_interval(self.origin.z, self.direction.z, q.lower.z, q.higher.z, closed);
        if matches!(sx, AxisSpan::Blocked) || matches!(sy, AxisSpan::Blocked) || matches!(sz, AxisSpan::Blocked) {
            return None;
        }
        let start = later(later(start_of(&sx), start_of(&sy)), start_of(&sz));
        let end = earlier(earlier(end_of(&sx), end_of(&sy)), end_of(&sz));
        match start {
            None => None,
            Some(s) => match end {
                None => None,
                Some(e) => {
                    let inside = if closed {
                        !e.lt(&s)
                    } else {
                        s.lt(&e)
                    };
                    if inside {
                        let normal = if ends_at(end_of(&sx), &e) {
                            BlockVector::new(orientation_of(&sx), 0, 0)
                        } else if ends_at(end_of(&sy), &e) {
                            BlockVector::new(0, orientation_of(&sy), 0)
                        } else {
                            BlockVector::new(0, 0, orientation_of(&sz))
                        };
                        Some(RayHitInfo { start: s, end: e, leaving_face_normal: normal })
                    } else {
                        None
                    }
                },
            },
        }
    }

    /// Whether this ray passes through `q`.
    pub fn intersect(&self, q: &AAQuader) -> (r: bool)
        requires
            self.hit_ready(),
            vec_hit_ok(q.lower),
            vec_hit_ok(q.higher),
        ensures
            r == self.spec_hit(*q).is_some(),
    {
        self.hit_info(q).is_some()
    }

    /// The blocks this ray passes through, in order, starting with the
    /// block that holds the origin. The traversal follows the ray moved
    /// forward by half its direction, so an origin on a block boundary
    /// gives no empty first step.
    pub fn grid_snap(&self) -> (r: GridSnap)
        requires
            self.wf(),
        ensures
            r == self.spec_grid_snap(),
            r.live(),
    {
        proof {
            lemma_start_live(*self);
        }
        GridSnap {
            ray: *self,
            current_block: BlockPosition::new(
                block_coordinate(self.origin.x),
                block_coordinate(self.origin.y),
                block_coordinate(self.origin.z),
            ),
        }
    }
}

/// Whether a block coordinate is inside the traversal range.
pub open spec fn block_ok(c: int) -> bool {
    -BLOCK_LIMIT < c < BLOCK_LIMIT
}

/// The unit box of a block, in world units.
pub open spec fn block_box(b: BlockPosition) -> AAQuader {
    AAQuader {
        lower: Vec3 {
            x: (b.0.x * UNITS_PER_BLOCK) as i64,
            y: (b.0.y * UNITS_PER_BLOCK) as i64,
            z: (b.0.z * UNITS_PER_BLOCK) as i64,
        },
        higher: Vec3 {
            x: ((b.0.x + 1) * UNITS_PER_BLOCK) as i64,
            y: ((b.0.y + 1) * UNITS_PER_BLOCK) as i64,
            z: ((b.0.z + 1) * UNITS_PER_BLOCK) as i64,
        },
    }
}

/// The unit box of a block, in doubled world units (twice
/// `UNITS_PER_BLOCK` per block).
pub open spec fn block_box2(b: BlockPosition) -> AAQuader {
    AAQuader {
        lower: Vec3 { x: (b.0.x * 512) as i64, y: (b.0.y * 512) as i64, z: (b.0.z * 512) as i64 },
        higher: Vec3 { x: ((b.0.x + 1) * 512) as i64, y: ((b.0.y + 1) * 512) as i64, z: ((b.0.z + 1) * 512) as i64 },
    }
}

/// The ray a traversal follows, in doubled world units: the origin moved
/// forward by half the direction, kept exact by doubling every coordinate.
pub open spec fn nudged(r: Ray) -> Ray {
    Ray {
        origin: Vec3 {
            x: (2 * r.origin.x + r.direction.x) as i64,
            y: (2 * r.origin.y + r.direction.y) as i64,
            z: (2 * r.origin.z + r.direction.z) as i64,
        },
        direction: Vec3 { x: (2 * r.direction.x) as i64, y: (2 * r.direction.y) as i64, z: (2 * r.direction.z) as i64 },
    }
}

/// A step to one of the six face-adjacent blocks.
pub open spec fn unit_axis(n: BlockVector) -> bool {
    (n.x == 1 || n.x == -1) && n.y == 0 && n.z == 0 || n.x == 0 && (n.y == 1 || n.y == -1) && n.z == 0 || n.x == 0
        && n.y == 0 && (n.z == 1 || n.z == -1)
}

/// A lazy traversal of the blocks along a ray.
#[derive(Copy, Clone, PartialEq, Eq, Debug, Structural)]
pub struct GridSnap {
    pub ray: Ray,
    pub current_block: BlockPosition,
}

impl GridSnap {
    /// The current block is inside the traversal range.
    pub open spec fn in_range(self) -> bool {
        let b = self.current_block;
        block_ok(b.0.x as int) && block_ok(b.0.y as int) && block_ok(b.0.z as int)
    }

    /// The ray is well formed and touches the current block; a traversal
    /// keeps this from step to step.
    pub open spec fn live(self) -> bool {
        self.ray.wf() && nudged(self.ray).spec_touch(block_box2(self.current_block)) is Some
    }

    /// The step from the current block to the next: the face through which
    /// the ray leaves the current block, when it touches the block and the
    /// block lies in range.
    pub open spec fn spec_step(self) -> Option<BlockVector> {
        if self.in_range() {
            match nudged(self.ray).spec_touch(block_box2(self.current_block)) {
                Some(h) => if h.leaving_face_normal == (BlockVector { x: 0, y: 0, z: 0 }) {
                    None
                } else {
                    Some(h.leaving_face_normal)
                },
                None => None,
            }
        } else {
            None
        }
    }

    /// The traversal after one step.
    pub open spec fn spec_advance(self) -> GridSnap {
        match self.spec_step() {
            Some(n) => GridSnap {
                ray: self.ray,
                current_block: BlockPosition(
                    BlockVector {
                        x: (self.current_block.0.x + n.x) as i64,
                        y: (self.current_block.0.y + n.y) as i64,
                        z: (self.current_block.0.z + n.z) as i64,
                    },
                ),
            },
            None => self,
        }
    }

    /// The current block, then a step to the face-adjacent block through
    /// which the ray leaves it. A live traversal always steps while its
    /// block is in range, and stays live; otherwise `None`, with nothing
    /// changed.
    pub fn next(&mut self) -> (r: Option<BlockPosition>)
        requires
            old(self).ray.wf(),
        ensures
            *final(self) == old(self).spec_advance(),
            old(self).spec_step() is Some ==> r == Some(old(self).current_block),
            old(self).spec_step() is None ==> r.is_none(),
            old(self).live() && old(self).in_range() ==> r == Some(old(self).current_block) && final(self).live()
                && unit_axis(old(self).spec_step().unwrap()),
    {
        proof {
            if self.live() && self.in_range() {
                lemma_step_live(*self);
            }
        }
        let b = self.current_block;
        if !(-BLOCK_LIMIT < b.0.x && b.0.x < BLOCK_LIMIT && -BLOCK_LIMIT < b.0.y && b.0.y
            < BLOCK_LIMIT && -BLOCK_LIMIT < b.0.z && b.0.z < BLOCK_LIMIT) {
            return None;
        }
        let unit = 2 * UNITS_PER_BLOCK;
        let collider = AAQuader::unchecked(
            Vec3::new(b.0.x * unit, b.0.y * unit, b.0.z * unit),
            Vec3::new((b.0.x + 1) * unit, (b.0.y + 1) * unit, (b.0.z + 1) * unit),
        );
        let o = self.ray.origin;
        let d = self.ray.direction;
        let ray2 = Ray {
            origin: Vec3::new(2 * o.x + d.x, 2 * o.y + d.y, 2 * o.z + d.z),
            direction: Vec3::new(2 * d.x, 2 * d.y, 2 * d.z),
        };
        assert(ray2 == nudged(self.ray));
        match ray2.touch_info(&collider) {
            Some(hit) => {
                let n = hit.leaving_face_normal;
                if n.x == 0 && n.y == 0 && n.z == 0 {
                    None
                } else {
                    proof {
                        lemma_normal_small(nudged(self.ray), block_box2(b));
                    }
                    self.current_block = BlockPosition::new(b.0.x + n.x, b.0.y + n.y, b.0.z + n.z);
                    Some(b)
                }
            },
            None => None,
        }
    }

    /// Up to `count` blocks of the traversal, in order; fewer when it stops.
    pub fn take(&mut self, count: usize) -> (r: Vec<BlockPosition>)
        requires
            old(self).ray.wf(),
        ensures
            r@ == snap_positions(*old(self), count as nat),
            final(self).ray == old(self).ray,
    {
        let mut r: Vec<BlockPosition> = Vec::new();
        let mut i: usize = 0;
        while i < count
            invariant
                i <= count,
                self.ray == old(self).ray,
                self.ray.wf(),
                r@ + snap_positions(*self, (count - i) as nat) == snap_positions(*old(self), count as nat),
            decreases count - i,
        {
            let ghost g = *self;
            match self.next() {
                Some(b) => {
                    assert(snap_positions(g, (count - i) as nat) == seq![b] + snap_positions(*self, (count - i - 1) as nat));
                    assert(r@.push(b) + snap_positions(*self, (count - i - 1) as nat) =~= r@ + snap_positions(g, (count - i) as nat));
                    r.push(b);
                },
                None => {
                    assert(snap_positions(g, (count - i) as nat) == Seq::<BlockPosition>::empty());
                    assert(r@ =~= r@ + snap_positions(g, (count - i) as nat));
                    return r;
                },
            }
            i += 1;
        }
        assert(r@ =~= r@ + snap_positions(*self, 0));
        r
    }
}

/// The first `n` blocks of a traversal, fewer when it stops.
pub open spec fn snap_positions(g: GridSnap, n: nat) -> Seq<BlockPosition>
    decreases n,
{
    if n == 0 {
        Seq::empty()
    } else {
        match g.spec_step() {
            None => Seq::empty(),
            Some(_) => seq![g.current_block] + snap_positions(g.spec_advance(), (n - 1) as nat),
        }
    }
}

// ----- rational facts -----

/// `a <= b` as rationals.
pub open spec fn param_le(a: Param, b: Param) -> bool {
    a.num * b.den <= b.num * a.den
}

proof fn lemma_le_trans(a: Param, b: Param, c: Param)
    requires
        a.den > 0,
        b.den > 0,
        c.den > 0,
        param_le(a, b),
        param_le(b, c),
    ensures
        param_le(a, c),
{
    assert(a.num * c.den * b.den <= c.num * a.den * b.den) by (nonlinear_arith)
        requires
            a.num * b.den <= b.num * a.den,
            b.num * c.den <= c.num * b.den,
            a.den > 0,
            c.den > 0,
    ;
    assert(a.num * c.den <= c.num * a.den) by (nonlinear_arith)
        requires
            a.num * c.den * b.den <= c.num * a.den * b.den,
            b.den > 0,
    ;
}

pub open spec fn opt_den(a: Option<Param>) -> bool {
    match a {
        Some(p) => p.den > 0,
        None => true,
    }
}

proof fn lemma_later(a: Option<Param>, b: Option<Param>)
    ensures
        later_start(a, b) == a || later_start(a, b) == b,
        later_start(a, b) is Some <==> (a is Some || b is Some),
        opt_den(a) && opt_den(b) ==> (later_start(a, b) matches Some(s) ==> (a matches Some(x) ==> param_le(x, s))
            && (b matches Some(y) ==> param_le(y, s))),
{
}

proof fn lemma_earlier(a: Option<Param>, b: Option<Param>)
    ensures
        earlier_end(a, b) == a || earlier_end(a, b) == b,
        earlier_end(a, b) is Some <==> (a is Some || b is Some),
        opt_den(a) && opt_den(b) ==> (earlier_end(a, b) matches Some(e) ==> (a matches Some(x) ==> param_le(e, x))
            && (b matches Some(y) ==> param_le(e, y))),
{
}

/// Whether an axis interval contains the parameter `t`.
pub open spec fn within(s: AxisSpan, t: Param) -> bool {
    match s {
        AxisSpan::Free => true,
        AxisSpan::Blocked => false,
        AxisSpan::Span { start, end, .. } => param_le(start, t) && param_le(t, end),
    }
}

pub open spec fn span_dens(s: AxisSpan) -> bool {
    match s {
        AxisSpan::Span { start, end, orientation } => start.den > 0 && end.den > 0 && (orientation == 1
            || orientation == -1),
        _ => true,
    }
}

/// The facts a closed hit gives: its start and end bound every axis
/// interval, its end is the end of the axis it leaves through, and that
/// axis moves.
proof fn lemma_hit_facts(sx: AxisSpan, sy: AxisSpan, sz: AxisSpan)
    requires
        span_dens(sx) && span_dens(sy) && span_dens(sz),
        combine_spans(sx, sy, sz, true) is Some,
    ensures
        ({
            let h = combine_spans(sx, sy, sz, true).unwrap();
            &&& h.start.den > 0 && h.end.den > 0
            &&& param_le(h.start, h.end)
            &&& !(sx is Blocked) && !(sy is Blocked) && !(sz is Blocked)
            &&& sx matches AxisSpan::Span { start, end, .. } ==> param_le(start, h.start) && param_le(h.end, end)
            &&& sy matches AxisSpan::Span { start, end, .. } ==> param_le(start, h.start) && param_le(h.end, end)
            &&& sz matches AxisSpan::Span { start, end, .. } ==> param_le(start, h.start) && param_le(h.end, end)
            &&& h.end == span_end(sx).unwrap() && sx is Span || h.end == span_end(sy).unwrap() && sy is Span || h.end
                == span_end(sz).unwrap() && sz is Span
        }),
{
    let (x0, y0, z0) = (span_start(sx), span_start(sy), span_start(sz));
    let (x1, y1, z1) = (span_end(sx), span_end(sy), span_end(sz));
    lemma_later(x0, y0);
    lemma_later(later_start(x0, y0), z0);
    lemma_earlier(x1, y1);
    lemma_earlier(earlier_end(x1, y1), z1);
    let h = combine_spans(sx, sy, sz, true).unwrap();
    let s0 = later_start(x0, y0);
    let e0 = earlier_end(x1, y1);
    if x0 is Some && s0 is Some {
        lemma_le_trans(x0.unwrap(), s0.unwrap(), h.start);
    }
    if y0 is Some && s0 is Some {
        lemma_le_trans(y0.unwrap(), s0.unwrap(), h.start);
    }
    if x1 is Some && e0 is Some {
        lemma_le_trans(h.end, e0.unwrap(), x1.unwrap());
    }
    if y1 is Some && e0 is Some {
        lemma_le_trans(h.end, e0.unwrap(), y1.unwrap());
    }
    assert(param_le(h.start, h.end));
    if z0 is Some && later_start(x0, y0) is Some {
        assert(param_le(z0.unwrap(), h.start));
    }
}

/// With a parameter inside every axis interval and one axis moving, the
/// closed hit exists.
proof fn lemma_witness(sx: AxisSpan, sy: AxisSpan, sz: AxisSpan, t: Param)
    requires
        span_dens(sx) && span_dens(sy) && span_dens(sz),
        t.den > 0,
        within(sx, t) && within(sy, t) && within(sz, t),
        sx is Span || sy is Span || sz is Span,
    ensures
        combine_spans(sx, sy, sz, true) is Some,
{
    let (x0, y0, z0) = (span_start(sx), span_start(sy), span_start(sz));
    let (x1, y1, z1) = (span_end(sx), span_end(sy), span_end(sz));
    lemma_later(x0, y0);
    lemma_later(later_start(x0, y0), z0);
    lemma_earlier(x1, y1);
    lemma_earlier(earlier_end(x1, y1), z1);
    let s = later_start(later_start(x0, y0), z0).unwrap();
    let e = earlier_end(earlier_end(x1, y1), z1).unwrap();
    assert(param_le(s, t));
    assert(param_le(t, e));
    lemma_le_trans(s, t, e);
}

pub proof fn lemma_normal_small(r: Ray, q: AAQuader)
    ensures
        r.spec_touch(q) matches Some(h) ==> -1 <= h.leaving_face_normal.x <= 1 && -1 <= h.leaving_face_normal.y <= 1
            && -1 <= h.leaving_face_normal.z <= 1,
{
}


proof fn lemma_frac_le_same(a: int, b: int, d: int)
    requires
        d != 0,
        -0x1_0000_0000_0000 <= a <= 0x1_0000_0000_0000,
        -0x1_0000_0000_0000 <= b <= 0x1_0000_0000_0000,
        -0x1_0000_0000_0000 <= d <= 0x1_0000_0000_0000,
        a * d <= b * d,
    ensures
        param_le(frac(a, d), frac(b, d)),
        frac(a, d).den > 0,
{
    if d > 0 {
        assert(a * d <= b * d);
    } else {
        assert((-a) * (-d) <= (-b) * (-d)) by (nonlinear_arith)
            requires
                a * d <= b * d,
        ;
    }
}

/// Stepping one block along an axis the ray moves on: the next block's
/// interval starts where the current one ends.
proof fn lemma_shift(o: int, d: int, lo: int)
    requires
        d != 0,
        -0x1000_0000_0000 <= o <= 0x1000_0000_0000,
        -0x1000_0000_0000 <= d <= 0x1000_0000_0000,
        -0x1000_0000_0000 <= lo <= 0x1000_0000_0000,
    ensures
        ({
            let cur = axis_span(o, d, lo, lo + 512, true);
            let n: int = if d > 0 { 1 } else { -1 };
            let nxt = axis_span(o, d, lo + 512 * n, lo + 512 + 512 * n, true);
            &&& cur is Span && nxt is Span
            &&& span_orientation(cur) == n
            &&& span_start(nxt) == span_end(cur)
            &&& param_le(span_start(nxt).unwrap(), span_end(nxt).unwrap())
            &&& span_dens(cur) && span_dens(nxt)
        }),
{
    let n: int = if d > 0 { 1 } else { -1 };
    assert((lo + 512 - o) * d - (lo - o) * d == 512 * d) by (nonlinear_arith);
    assert((lo + 512 * n + 512 - o) * d - (lo + 512 * n - o) * d == 512 * d) by (nonlinear_arith);
    if d > 0 {
        assert(512 * d > 0);
        lemma_frac_le_same(lo - o, lo + 512 - o, d);
        lemma_frac_le_same(lo + 512 - o, lo + 1024 - o, d);
        assert((lo + 1024 - o) * d - (lo + 512 - o) * d == 512 * d) by (nonlinear_arith);
    } else {
        assert(512 * d < 0);
        lemma_frac_le_same(lo + 512 - o, lo - o, d);
        lemma_frac_le_same(lo - o, lo - 512 - o, d);
        assert((lo - o) * d - (lo - 512 - o) * d == 512 * d) by (nonlinear_arith);
    }
}

proof fn lemma_start_axis(o: int, d: int, b: int)
    requires
        -COORD_LIMIT <= o <= COORD_LIMIT,
        -COORD_LIMIT <= d <= COORD_LIMIT,
        b == o / (UNITS_PER_BLOCK as int),
    ensures
        ({
            let sp = axis_span(2 * o + d, 2 * d, 512 * b, 512 * b + 512, true);
            &&& within(sp, Param { num: -1i128, den: 2i128 })
            &&& span_dens(sp)
            &&& d != 0 ==> sp is Span
        }),
{
    vstd::arithmetic::div_mod::lemma_fundamental_div_mod(o, 256);
    vstd::arithmetic::div_mod::lemma_mod_bound(o, 256);
    let lo = 512 * b;
    let o2 = 2 * o + d;
    let d2 = 2 * d;
    let sd = lo - o2;
    let ed = lo + 512 - o2;
    assert(lo <= 2 * o < lo + 512);
    assert(ed * d2 - sd * d2 == 512 * d2) by (nonlinear_arith)
        requires
            ed == sd + 512,
    ;
    if d > 0 {
        assert(512 * d2 > 0);
        assert(sd * 2 <= -1 * d2);
        assert(-1 * d2 <= ed * 2);
    } else if d < 0 {
        assert(512 * d2 < 0);
        assert((-ed) * 2 <= -1 * (-d2));
        assert(-1 * (-d2) <= (-sd) * 2);
    } else {
        assert(sd <= 0 && ed >= 0);
        assert(sd * ed <= 0) by (nonlinear_arith)
            requires
                sd <= 0,
                ed >= 0,
        ;
    }
}

proof fn lemma_block_unit_bound(c: int)
    requires
        -COORD_LIMIT <= c <= COORD_LIMIT,
    ensures
        -0x1_0000_0000 <= block_of_unit(c) <= 0x1_0000_0000,
{
    vstd::arithmetic::div_mod::lemma_fundamental_div_mod(c, 256);
    vstd::arithmetic::div_mod::lemma_mod_bound(c, 256);
}

/// The coordinates of the doubled ray and box, as integers.
proof fn lemma_doubled(r: Ray, b: BlockPosition)
    requires
        r.wf(),
        block_ok(b.0.x as int) && block_ok(b.0.y as int) && block_ok(b.0.z as int),
    ensures
        nudged(r).origin.x as int == 2 * r.origin.x + r.direction.x,
        nudged(r).origin.y as int == 2 * r.origin.y + r.direction.y,
        nudged(r).origin.z as int == 2 * r.origin.z + r.direction.z,
        nudged(r).direction.x as int == 2 * r.direction.x,
        nudged(r).direction.y as int == 2 * r.direction.y,
        nudged(r).direction.z as int == 2 * r.direction.z,
        block_box2(b).lower.x as int == 512 * b.0.x,
        block_box2(b).lower.y as int == 512 * b.0.y,
        block_box2(b).lower.z as int == 512 * b.0.z,
        block_box2(b).higher.x as int == 512 * b.0.x + 512,
        block_box2(b).higher.y as int == 512 * b.0.y + 512,
        block_box2(b).higher.z as int == 512 * b.0.z + 512,
        nudged(r).hit_ready(),
        vec_hit_ok(block_box2(b).lower) && vec_hit_ok(block_box2(b).higher),
{
}

/// The traversal a ray starts touches its first block.
pub proof fn lemma_start_live(r: Ray)
    requires
        r.wf(),
    ensures
        r.spec_grid_snap().live(),
{
    let g = r.spec_grid_snap();
    let b = g.current_block;
    lemma_block_unit_bound(r.origin.x as int);
    lemma_block_unit_bound(r.origin.y as int);
    lemma_block_unit_bound(r.origin.z as int);
    lemma_doubled(r, b);
    lemma_start_axis(r.origin.x as int, r.direction.x as int, b.0.x as int);
    lemma_start_axis(r.origin.y as int, r.direction.y as int, b.0.y as int);
    lemma_start_axis(r.origin.z as int, r.direction.z as int, b.0.z as int);
    let r2 = nudged(r);
    let q = block_box2(b);
    let sx = axis_span(r2.origin.x as int, r2.direction.x as int, q.lower.x as int, q.higher.x as int, true);
    let sy = axis_span(r2.origin.y as int, r2.direction.y as int, q.lower.y as int, q.higher.y as int, true);
    let sz = axis_span(r2.origin.z as int, r2.direction.z as int, q.lower.z as int, q.higher.z as int, true);
    assert(sx == axis_span(2 * r.origin.x + r.direction.x, 2 * r.direction.x, 512 * b.0.x, 512 * b.0.x + 512, true));
    assert(sy == axis_span(2 * r.origin.y + r.direction.y, 2 * r.direction.y, 512 * b.0.y, 512 * b.0.y + 512, true));
    assert(sz == axis_span(2 * r.origin.z + r.direction.z, 2 * r.direction.z, 512 * b.0.z, 512 * b.0.z + 512, true));
    lemma_witness(sx, sy, sz, Param { num: -1i128, den: 2i128 });
}

/// A live traversal in range steps to a face-adjacent block, and stays
/// live.
#[verifier::rlimit(100)]
pub proof fn lemma_step_live(g: GridSnap)
    requires
        g.live(),
        g.in_range(),
    ensures
        g.spec_step() matches Some(n) && unit_axis(n),
        g.spec_advance().live(),
{
    let r2 = nudged(g.ray);
    let b = g.current_block;
    let q = block_box2(b);
    let (ox, oy, oz) = (r2.origin.x as int, r2.origin.y as int, r2.origin.z as int);
    let (dx, dy, dz) = (r2.direction.x as int, r2.direction.y as int, r2.direction.z as int);
    let (lx, ly, lz) = (512 * b.0.x, 512 * b.0.y, 512 * b.0.z);
    let sx = axis_span(ox, dx, lx, lx + 512, true);
    let sy = axis_span(oy, dy, ly, ly + 512, true);
    let sz = axis_span(oz, dz, lz, lz + 512, true);
    lemma_doubled(g.ray, b);
    assert(r2.spec_touch(q) == combine_spans(sx, sy, sz, true));
    if dx != 0 { lemma_shift(ox, dx, lx); }
    if dy != 0 { lemma_shift(oy, dy, ly); }
    if dz != 0 { lemma_shift(oz, dz, lz); }
    lemma_hit_facts(sx, sy, sz);
    let h = combine_spans(sx, sy, sz, true).unwrap();
    let e = h.end;
    let n = h.leaving_face_normal;
    assert(n == leaving_normal(sx, sy, sz, e));
    if end_equals(span_end(sx), e) {
        let nx: int = if dx > 0 { 1 } else { -1 };
        let sx2 = axis_span(ox, dx, lx + 512 * nx, lx + 512 + 512 * nx, true);
        assert(n == BlockVector { x: nx as i64, y: 0, z: 0 });
        lemma_le_trans(e, span_end(sx).unwrap(), span_end(sx2).unwrap());
        assert(within(sx2, e));
        if sy is Span { lemma_le_trans(span_start(sy).unwrap(), h.start, e); }
        if sz is Span { lemma_le_trans(span_start(sz).unwrap(), h.start, e); }
        lemma_witness(sx2, sy, sz, e);
        let g2 = g.spec_advance();
        assert(nudged(g2.ray).spec_touch(block_box2(g2.current_block)) == combine_spans(sx2, sy, sz, true));
    } else if end_equals(span_end(sy), e) {
        let ny: int = if dy > 0 { 1 } else { -1 };
        let sy2 = axis_span(oy, dy, ly + 512 * ny, ly + 512 + 512 * ny, true);
        assert(n == BlockVector { x: 0, y: ny as i64, z: 0 });
        lemma_le_trans(e, span_end(sy).unwrap(), span_end(sy2).unwrap());
        assert(within(sy2, e));
        if sx is Span { lemma_le_trans(span_start(sx).unwrap(), h.start, e); }
        if sz is Span { lemma_le_trans(span_start(sz).unwrap(), h.start, e); }
        lemma_witness(sx, sy2, sz, e);
        let g2 = g.spec_advance();
        assert(nudged(g2.ray).spec_touch(block_box2(g2.current_block)) == combine_spans(sx, sy2, sz, true));
    } else {
        assert(end_equals(span_end(sz), e));
        let nz: int = if dz > 0 { 1 } else { -1 };
        let sz2 = axis_span(oz, dz, lz + 512 * nz, lz + 512 + 512 * nz, true);
        assert(n == BlockVector { x: 0, y: 0, z: nz as i64 });
        lemma_le_trans(e, span_end(sz).unwrap(), span_end(sz2).unwrap());
        assert(within(sz2, e));
        if sx is Span { lemma_le_trans(span_start(sx).unwrap(), h.start, e); }
        if sy is Span { lemma_le_trans(span_start(sy).unwrap(), h.start, e); }
        lemma_witness(sx, sy, sz2, e);
        let g2 = g.spec_advance();
        assert(nudged(g2.ray).spec_touch(block_box2(g2.current_block)) == combine_spans(sx, sy, sz2, true));
    }
}


/// The traversal after `n` steps.
pub open spec fn walk(g: GridSnap, n: nat) -> GridSnap
    decreases n,
{
    if n == 0 {
        g
    } else {
        walk(g, (n - 1) as nat).spec_advance()
    }
}

/// The ray from the center of block `(0, 0, 0)` (half of `UNITS_PER_BLOCK`
/// on each axis) along the x axis.
pub open spec fn x_axis_ray() -> Ray {
    Ray { origin: Vec3 { x: 128, y: 128, z: 128 }, direction: Vec3 { x: 1, y: 0, z: 0 } }
}

proof fn lemma_walk_keeps_ray(g: GridSnap, n: nat)
    ensures
        walk(g, n).ray == g.ray,
    decreases n,
{
    if n > 0 {
        lemma_walk_keeps_ray(g, (n - 1) as nat);
    }
}

/// After `n` steps, the traversal of `x_axis_ray` stands at `(n, 0, 0)`
/// and steps by `+x` next.
pub proof fn lemma_walk_along_x(n: nat)
    requires
        n + 1 < BLOCK_LIMIT,
    ensures
        walk(x_axis_ray().spec_grid_snap(), n).current_block == BlockPosition(
            BlockVector { x: n as i64, y: 0, z: 0 },
        ),
        walk(x_axis_ray().spec_grid_snap(), n).spec_step() == Some(BlockVector { x: 1, y: 0, z: 0 }),
    decreases n,
{
    let g0 = x_axis_ray().spec_grid_snap();
    assert(g0.current_block == BlockPosition(BlockVector { x: 0, y: 0, z: 0 }));
    if n > 0 {
        lemma_walk_along_x((n - 1) as nat);
    }
    let g = walk(g0, n);
    assert(g.current_block == BlockPosition(BlockVector { x: n as i64, y: 0, z: 0 }));
    assert(g.ray == g0.ray) by {
        lemma_walk_keeps_ray(g0, n);
    }
    lemma_doubled(g.ray, g.current_block);
    let k = n as int;
    let sx = axis_span(257, 2, k * 512, k * 512 + 512, true);
    let sy = axis_span(256, 0, 0, 512, true);
    assert(sy == AxisSpan::Free);
    assert((k * 512 + 512 - 257) * 2 > (k * 512 - 257) * 2);
    assert(sx == AxisSpan::Span { start: frac(k * 512 - 257, 2), end: frac(k * 512 + 512 - 257, 2), orientation: 1 });
    assert(nudged(g.ray).spec_touch(block_box2(g.current_block)) == combine_spans(sx, sy, sy, true));
    let e = frac(k * 512 + 512 - 257, 2);
    assert(end_equals(Some(e), e));
    assert(leaving_normal(sx, sy, sy, e) == BlockVector { x: 1, y: 0, z: 0 });
}

proof fn lemma_snap_from(m: nat, n: nat)
    requires
        m + n + 1 < BLOCK_LIMIT,
    ensures
        snap_positions(walk(x_axis_ray().spec_grid_snap(), m), n).len() == n,
        forall|k: int|
            0 <= k < n ==> #[trigger] snap_positions(walk(x_axis_ray().spec_grid_snap(), m), n)[k] == BlockPosition(
                BlockVector { x: (m + k) as i64, y: 0, z: 0 },
            ),
    decreases n,
{
    let g0 = x_axis_ray().spec_grid_snap();
    if n > 0 {
        lemma_walk_along_x(m);
        lemma_snap_from(m + 1, (n - 1) as nat);
        let rest = snap_positions(walk(g0, m + 1), (n - 1) as nat);
        assert(walk(g0, m + 1) == walk(g0, m).spec_advance());
        assert(snap_positions(walk(g0, m), n) == seq![walk(g0, m).current_block] + rest);
        assert forall|k: int| 0 <= k < n implies #[trigger] snap_positions(walk(g0, m), n)[k] == BlockPosition(
            BlockVector { x: (m + k) as i64, y: 0, z: 0 },
        ) by {
            if k > 0 {
                assert(snap_positions(walk(g0, m), n)[k] == rest[k - 1]);
            }
        }
    }
}

/// A ray from the center of block `(0, 0, 0)` along the x axis visits the
/// blocks `(0, 0, 0), (1, 0, 0), (2, 0, 0), ...`: its first `n` blocks are
/// exactly `(k, 0, 0)` for `k < n`, so x grows by one per step, with no
/// repeat and no skip, for as far as block coordinates are in range.
pub proof fn lemma_x_axis_traversal(n: nat)
    requires
        n + 1 < BLOCK_LIMIT,
    ensures
        snap_positions(x_axis_ray().spec_grid_snap(), n).len() == n,
        forall|k: int|
            0 <= k < n ==> #[trigger] snap_positions(x_axis_ray().spec_grid_snap(), n)[k] == BlockPosition(
                BlockVector { x: k as i64, y: 0, z: 0 },
            ),
{
    lemma_snap_from(0, n);
    assert(walk(x_axis_ray().spec_grid_snap(), 0) == x_axis_ray().spec_grid_snap());
}

/// A traversal started from a ray never stops while its block is in
/// range: every `n`-step walk is live, and if its block is in range it
/// steps to a face-adjacent block.
pub proof fn lemma_traversal_never_stops(r: Ray, n: nat)
    requires
        r.wf(),
    ensures
        walk(r.spec_grid_snap(), n).live(),
        walk(r.spec_grid_snap(), n).in_range() ==> (walk(r.spec_grid_snap(), n).spec_step() matches Some(s)
            && unit_axis(s)),
    decreases n,
{
    let g0 = r.spec_grid_snap();
    if n == 0 {
        lemma_start_live(r);
    } else {
        lemma_traversal_never_stops(r, (n - 1) as nat);
        let prev = walk(g0, (n - 1) as nat);
        if prev.in_range() {
            lemma_step_live(prev);
        }
    }
    let g = walk(g0, n);
    if g.in_range() {
        lemma_step_live(g);
    }
}

impl BlockPosition {
    /// Whether every coordinate lies inside the traversal range.
    pub open spec fn in_block_range(&self) -> bool {
        block_ok(self.0.x as int) && block_ok(self.0.y as int) && block_ok(self.0.z as int)
    }

    /// The block that holds world point `position`.
    pub fn from_vector(position: Vec3) -> (r: BlockPosition)
        ensures
            r.0.x == block_of_unit(position.x as int),
            r.0.y == block_of_unit(position.y as int),
            r.0.z == block_of_unit(position.z as int),
    {
        BlockPosition::new(block_coordinate(position.x), block_coordinate(position.y), block_coordinate(position.z))
    }

    /// The lower corner of this block, in world units.
    pub fn lower_corner(&self) -> (r: Vec3)
        requires
            self.in_block_range(),
        ensures
            r == block_box(*self).lower,
    {
        Vec3::new(self.0.x * UNITS_PER_BLOCK, self.0.y * UNITS_PER_BLOCK, self.0.z * UNITS_PER_BLOCK)
    }

    /// The higher corner of this block, in world units.
    pub fn higher_corner(&self) -> (r: Vec3)
        requires
            self.in_block_range(),
        ensures
            r == block_box(*self).higher,
    {
        Vec3::new(
            (self.0.x + 1) * UNITS_PER_BLOCK,
            (self.0.y + 1) * UNITS_PER_BLOCK,
            (self.0.z + 1) * UNITS_PER_BLOCK,
        )
    }

    /// The center of this block, in world units.
    pub fn block_center(&self) -> (r: Vec3)
        requires
            self.in_block_range(),
        ensures
            r.x == self.0.x * UNITS_PER_BLOCK + UNITS_PER_BLOCK / 2,
            r.y == self.0.y * UNITS_PER_BLOCK + UNITS_PER_BLOCK / 2,
            r.z == self.0.z * UNITS_PER_BLOCK + UNITS_PER_BLOCK / 2,
    {
        let half = UNITS_PER_BLOCK / 2;
        Vec3::new(
            self.0.x * UNITS_PER_BLOCK + half,
            self.0.y * UNITS_PER_BLOCK + half,
            self.0.z * UNITS_PER_BLOCK + half,
        )
    }
}

impl ChunkPosition {
    /// The chunk that holds world point `v`.
    pub fn from_point(v: Vec3) -> (r: ChunkPosition)
        ensures
            r.x == crate::coordinates::chunk_of(block_of_unit(v.x as int)),
            r.y == crate::coordinates::chunk_of(block_of_unit(v.y as int)),
            r.z == crate::coordinates::chunk_of(block_of_unit(v.z as int)),
    {
        ChunkPosition::new(
            crate::coordinates::chunk_coordinate(block_coordinate(v.x)),
            crate::coordinates::chunk_coordinate(block_coordinate(v.y)),
            crate::coordinates::chunk_coordinate(block_coordinate(v.z)),
        )
    }
}

} // verus!
