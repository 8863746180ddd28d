//! Block and chunk coordinates: the conversion between a global block
//! coordinate, the chunk that holds it and the offset inside that chunk.
use vstd::prelude::*;

verus! {

/// Exponent of the chunk edge length.
pub const CHUNK_SIZE_EXP: u32 = 4;

/// Edge length of a chunk, in blocks (`1 << CHUNK_SIZE_EXP`).
pub const CHUNK_SIZE: i64 = 16;

/// Mask of the chunk-local part of a coordinate (`CHUNK_SIZE - 1`).
pub const BLOCK_BITS: i64 = 15;

/// Largest chunk-local coordinate.
pub const MAX_CHILD: i64 = 15;

/// Bound on the magnitude of a chunk coordinate for which the block
/// coordinates of the chunk fit in an `i64`.
pub const CHUNK_LIMIT: i64 = 0x0100_0000_0000_0000;

/// The chunk that holds global coordinate `c` (floor division).
pub open spec fn chunk_of(c: int) -> int {
    c / (CHUNK_SIZE as int)
}

/// The offset of global coordinate `c` inside its chunk.
pub open spec fn local_of(c: int) -> int {
    c % (CHUNK_SIZE as int)
}

/// Whether `c` is a valid chunk-local coordinate.
pub open spec fn local_fits(c: int) -> bool {
    0 <= c < CHUNK_SIZE
}

/// Whether `v` lies in the range of an `i64`.
pub open spec fn fits_i64(v: int) -> bool {
    i64::MIN <= v <= i64::MAX
}

proof fn lemma_shift_mask(x: i64)
    ensures
        (x >> 4u32) as int == chunk_of(x as int),
        (x & 15i64) as int == local_of(x as int),
{
    assert((x >> 4u32) * 16 + (x & 15i64) == x && 0 <= (x & 15i64) < 16
        && -0x800_0000_0000_0000i64 <= (x >> 4u32) < 0x800_0000_0000_0000i64) by (bit_vector);
    let q = (x >> 4u32) as int;
    let r = (x & 15i64) as int;
    assert(q * 16 + r == x as int);
    vstd::arithmetic::div_mod::lemma_fundamental_div_mod_converse(x as int, 16, q, r);
}

/// Every integer is its chunk times the chunk size plus its local offset,
/// and the local offset lies in `[0, CHUNK_SIZE)`.
pub proof fn lemma_chunk_local_inverse(c: int)
    ensures
        chunk_of(c) * CHUNK_SIZE + local_of(c) == c,
        local_fits(local_of(c)),
{
    vstd::arithmetic::div_mod::lemma_fundamental_div_mod(c, 16);
    vstd::arithmetic::div_mod::lemma_mod_bound(c, 16);
}

/// A chunk coordinate plus a local offset that fits belongs to that chunk,
/// at that offset.
pub proof fn lemma_chunk_plus_local(chunk: int, local: int)
    requires
        local_fits(local),
    ensures
        chunk_of(chunk * CHUNK_SIZE + local) == chunk,
        local_of(chunk * CHUNK_SIZE + local) == local,
{
    vstd::arithmetic::div_mod::lemma_fundamental_div_mod_converse(chunk * 16 + local, 16, chunk, local);
}

/// The chunk that holds `c`, computed by arithmetic shift.
pub fn chunk_coordinate(c: i64) -> (r: i64)
    ensures
        r as int == chunk_of(c as int),
{
    proof {
        lemma_shift_mask(c);
    }
    c >> CHUNK_SIZE_EXP
}

/// The offset of `c` inside its chunk, computed by masking.
pub fn local_coordinate(c: i64) -> (r: i64)
    ensures
        r as int == local_of(c as int),
        local_fits(r as int),
{
    proof {
        lemma_shift_mask(c);
        lemma_chunk_local_inverse(c as int);
    }
    c & BLOCK_BITS
}

/// An offset between two block coordinates, or an offset inside a chunk.
#[derive(Copy, Clone, PartialEq, Eq, Debug, Hash, Structural)]
pub struct BlockVector {
    pub x: i64,
    pub y: i64,
    pub z: i64,
}

/// The six face-adjacent offsets, in the order +x, +y, +z, -x, -y, -z.
pub open spec fn adjacent_offset(i: int) -> (int, int, int) {
    if i == 0 {
        (1, 0, 0)
    } else if i == 1 {
        (0, 1, 0)
    } else if i == 2 {
        (0, 0, 1)
    } else if i == 3 {
        (-1, 0, 0)
    } else if i == 4 {
        (0, -1, 0)
    } else {
        (0, 0, -1)
    }
}

impl BlockVector {
    /// Whether all three components are valid chunk-local coordinates.
    pub open spec fn spec_fits(self) -> bool {
        local_fits(self.x as int) && local_fits(self.y as int) && local_fits(self.z as int)
    }

    /// Whether adding `(dx, dy, dz)` to this vector stays in range.
    pub open spec fn can_add(self, dx: int, dy: int, dz: int) -> bool {
        fits_i64(self.x + dx) && fits_i64(self.y + dy) && fits_i64(self.z + dz)
    }

    pub fn new(x: i64, y: i64, z: i64) -> (r: BlockVector)
        ensures
            r.x == x && r.y == y && r.z == z,
    {
        BlockVector { x, y, z }
    }

    /// Whether all three components lie in `[0, CHUNK_SIZE)`.
    pub fn fits(&self) -> (r: bool)
        ensures
            r == self.spec_fits(),
    {
        let fx = self.x >= 0 && self.x < CHUNK_SIZE;
        let fy = self.y >= 0 && self.y < CHUNK_SIZE;
        let fz = self.z >= 0 && self.z < CHUNK_SIZE;
        fx && fy && fz
    }

    /// This vector with `x` added to its x component.
    pub fn with_x(&self, x: i64) -> (r: BlockVector)
        requires
            self.can_add(x as int, 0, 0),
        ensures
            r.x == self.x + x && r.y == self.y && r.z == self.z,
    {
        BlockVector { x: self.x + x, y: self.y, z: self.z }
    }

    /// This vector with `y` added to its y component.
    pub fn with_y(&self, y: i64) -> (r: BlockVector)
        requires
            self.can_add(0, y as int, 0),
        ensures
            r.x == self.x && r.y == self.y + y && r.z == self.z,
    {
        BlockVector { x: self.x, y: self.y + y, z: self.z }
    }

    /// This vector with `z` added to its z component.
    pub fn with_z(&self, z: i64) -> (r: BlockVector)
        requires
            self.can_add(0, 0, z as int),
        ensures
            r.x == self.x && r.y == self.y && r.z == self.z + z,
    {
        BlockVector { x: self.x, y: self.y, z: self.z + z }
    }

    /// The block at this vector taken as a global coordinate.
    pub fn global(&self) -> (r: BlockPosition)
        ensures
            r.0 == *self,
    {
        BlockPosition(*self)
    }

    /// The chunk-local part of each component.
    pub fn chunk_relative(&self) -> (r: BlockVector)
        ensures
            r.x == local_of(self.x as int),
            r.y == local_of(self.y as int),
            r.z == local_of(self.z as int),
            r.spec_fits(),
    {
        BlockVector::new(local_coordinate(self.x), local_coordinate(self.y), local_coordinate(self.z))
    }

    /// The six face-adjacent vectors, in the order +x, +y, +z, -x, -y, -z.
    pub fn adjacent(&self) -> (r: Vec<BlockVector>)
        requires
            self.can_add(1, 1, 1),
            self.can_add(-1, -1, -1),
        ensures
            r@.len() == 6,
            forall|i: int|
                0 <= i < 6 ==> r@[i].x == self.x + adjacent_offset(i).0 && r@[i].y == self.y
                    + adjacent_offset(i).1 && r@[i].z == self.z + adjacent_offset(i).2,
    {
        let mut r: Vec<BlockVector> = Vec::new();
        r.push(self.with_x(1));
        r.push(self.with_y(1));
        r.push(self.with_z(1));
        r.push(self.with_x(-1));
        r.push(self.with_y(-1));
        r.push(self.with_z(-1));
        r
    }

    /// The componentwise sum of two vectors.
    pub fn plus(&self, o: &BlockVector) -> (r: BlockVector)
        requires
            self.can_add(o.x as int, o.y as int, o.z as int),
        ensures
            r.x == self.x + o.x && r.y == self.y + o.y && r.z == self.z + o.z,
    {
        BlockVector::new(self.x + o.x, self.y + o.y, self.z + o.z)
    }

    /// The componentwise difference of two vectors.
    pub fn minus(&self, o: &BlockVector) -> (r: BlockVector)
        requires
            self.can_add(-o.x, -o.y, -o.z),
        ensures
            r.x == self.x - o.x && r.y == self.y - o.y && r.z == self.z - o.z,
    {
        BlockVector::new(self.x - o.x, self.y - o.y, self.z - o.z)
    }

    /// This vector with every component multiplied by `k`.
    pub fn scaled(&self, k: i64) -> (r: BlockVector)
        requires
            fits_i64(self.x * k) && fits_i64(self.y * k) && fits_i64(self.z * k),
        ensures
            r.x == self.x * k && r.y == self.y * k && r.z == self.z * k,
    {
        BlockVector::new(self.x * k, self.y * k, self.z * k)
    }

    /// This vector with every component negated.
    pub fn negated(&self) -> (r: BlockVector)
        requires
            self.x != i64::MIN && self.y != i64::MIN && self.z != i64::MIN,
        ensures
            r.x == -self.x && r.y == -self.y && r.z == -self.z,
    {
        BlockVector::new(-self.x, -self.y, -self.z)
    }
}

/// The absolute position of a block.
#[derive(Copy, Clone, PartialEq, Eq, Debug, Hash, Structural)]
pub struct BlockPosition(pub BlockVector);

impl BlockPosition {
    /// The chunk that holds this block.
    pub open spec fn spec_chunk(self) -> ChunkPosition {
        ChunkPosition {
            x: chunk_of(self.0.x as int) as i64,
            y: chunk_of(self.0.y as int) as i64,
            z: chunk_of(self.0.z as int) as i64,
        }
    }

    /// The offset of this block inside its chunk.
    pub open spec fn spec_chunk_relative(self) -> BlockVector {
        BlockVector {
            x: local_of(self.0.x as int) as i64,
            y: local_of(self.0.y as int) as i64,
            z: local_of(self.0.z as int) as i64,
        }
    }

    pub fn new(x: i64, y: i64, z: i64) -> (r: BlockPosition)
        ensures
            r.0.x == x && r.0.y == y && r.0.z == z,
    {
        BlockPosition(BlockVector::new(x, y, z))
    }

    pub fn zero() -> (r: BlockPosition)
        ensures
            r.0.x == 0 && r.0.y == 0 && r.0.z == 0,
    {
        BlockPosition::new(0, 0, 0)
    }

    pub fn x(&self) -> (r: i64)
        ensures
            r == self.0.x,
    {
        self.0.x
    }

    pub fn y(&self) -> (r: i64)
        ensures
            r == self.0.y,
    {
        self.0.y
    }

    pub fn z(&self) -> (r: i64)
        ensures
            r == self.0.z,
    {
        self.0.z
    }

    /// This position with `x` added to its x coordinate.
    pub fn with_x(&self, x: i64) -> (r: BlockPosition)
        requires
            self.0.can_add(x as int, 0, 0),
        ensures
            r.0.x == self.0.x + x && r.0.y == self.0.y && r.0.z == self.0.z,
    {
        BlockPosition(self.0.with_x(x))
    }

    /// This position with `y` added to its y coordinate.
    pub fn with_y(&self, y: i64) -> (r: BlockPosition)
        requires
            self.0.can_add(0, y as int, 0),
        ensures
            r.0.x == self.0.x && r.0.y == self.0.y + y && r.0.z == self.0.z,
    {
        BlockPosition(self.0.with_y(y))
    }

    /// This position with `z` added to its z coordinate.
    pub fn with_z(&self, z: i64) -> (r: BlockPosition)
        requires
            self.0.can_add(0, 0, z as int),
        ensures
            r.0.x == self.0.x && r.0.y == self.0.y && r.0.z == self.0.z + z,
    {
        BlockPosition(self.0.with_z(z))
    }

    /// The chunk this block belongs to (arithmetic shift of each coordinate).
    pub fn chunk(&self) -> (r: ChunkPosition)
        ensures
            r == self.spec_chunk(),
    {
        ChunkPosition::new(chunk_coordinate(self.0.x), chunk_coordinate(self.0.y), chunk_coordinate(self.0.z))
    }

    /// The six face-adjacent positions, in the order +x, +y, +z, -x, -y, -z.
    pub fn adjacent(&self) -> (r: Vec<BlockPosition>)
        requires
            self.0.can_add(1, 1, 1),
            self.0.can_add(-1, -1, -1),
        ensures
            r@.len() == 6,
            forall|i: int|
                0 <= i < 6 ==> r@[i].0.x == self.0.x + adjacent_offset(i).0 && r@[i].0.y == self.0.y
                    + adjacent_offset(i).1 && r@[i].0.z == self.0.z + adjacent_offset(i).2,
    {
        let vectors = self.0.adjacent();
        let mut r: Vec<BlockPosition> = Vec::new();
        let mut i: usize = 0;
        while i < vectors.len()
            invariant
                vectors@.len() == 6,
                i <= 6,
                r@.len() == i,
                forall|j: int| 0 <= j < i ==> r@[j].0 == vectors@[j],
            decreases 6 - i,
        {
            r.push(BlockPosition(vectors[i]));
            i += 1;
        }
        assert forall|i: int| 0 <= i < 6 implies r@[i].0.x == self.0.x + adjacent_offset(i).0 && r@[i].0.y
            == self.0.y + adjacent_offset(i).1 && r@[i].0.z == self.0.z + adjacent_offset(i).2 by {
            assert(r@[i].0 == vectors@[i]);
        }
        r
    }

    /// The offset of this block inside its chunk (bit mask of each coordinate).
    pub fn chunk_relative(&self) -> (r: BlockVector)
        ensures
            r == self.spec_chunk_relative(),
            r.spec_fits(),
    {
        self.0.chunk_relative()
    }

    /// The offset inside the chunk, and the chunk.
    pub fn local(&self) -> (r: (BlockVector, ChunkPosition))
        ensures
            r.0 == self.spec_chunk_relative(),
            r.1 == self.spec_chunk(),
    {
        (self.chunk_relative(), self.chunk())
    }

    /// This position moved by `v`.
    pub fn offset(&self, v: &BlockVector) -> (r: BlockPosition)
        requires
            self.0.can_add(v.x as int, v.y as int, v.z as int),
        ensures
            r.0.x == self.0.x + v.x && r.0.y == self.0.y + v.y && r.0.z == self.0.z + v.z,
    {
        BlockPosition(self.0.plus(v))
    }

    /// The vector from `o` to this position.
    pub fn difference(&self, o: &BlockPosition) -> (r: BlockVector)
        requires
            self.0.can_add(-o.0.x, -o.0.y, -o.0.z),
        ensures
            r.x == self.0.x - o.0.x && r.y == self.0.y - o.0.y && r.z == self.0.z - o.0.z,
    {
        self.0.minus(&o.0)
    }

    /// The offset of this position from the lower corner of chunk `c`.
    pub fn relative_to(&self, c: &ChunkPosition) -> (r: BlockVector)
        requires
            c.spec_bounded(),
            fits_i64(self.0.x - c.x * CHUNK_SIZE),
            fits_i64(self.0.y - c.y * CHUNK_SIZE),
            fits_i64(self.0.z - c.z * CHUNK_SIZE),
        ensures
            r.x == self.0.x - c.x * CHUNK_SIZE,
            r.y == self.0.y - c.y * CHUNK_SIZE,
            r.z == self.0.z - c.z * CHUNK_SIZE,
    {
        BlockVector::new(
            self.0.x - c.x * CHUNK_SIZE,
            self.0.y - c.y * CHUNK_SIZE,
            self.0.z - c.z * CHUNK_SIZE,
        )
    }
}

/// The coordinate of a chunk, in chunk-grid units.
#[derive(Copy, Clone, PartialEq, Eq, Debug, Hash, Structural)]
pub struct ChunkPosition {
    pub x: i64,
    pub y: i64,
    pub z: i64,
}

impl ChunkPosition {
    /// Whether every coordinate has magnitude below `CHUNK_LIMIT`.
    pub open spec fn spec_bounded(self) -> bool {
        -CHUNK_LIMIT < self.x < CHUNK_LIMIT && -CHUNK_LIMIT < self.y < CHUNK_LIMIT && -CHUNK_LIMIT
            < self.z < CHUNK_LIMIT
    }

    /// The global position of the block at local offset `v` of this chunk.
    pub open spec fn spec_add(self, v: BlockVector) -> BlockPosition {
        BlockPosition(
            BlockVector {
                x: (self.x * CHUNK_SIZE + v.x) as i64,
                y: (self.y * CHUNK_SIZE + v.y) as i64,
                z: (self.z * CHUNK_SIZE + v.z) as i64,
            },
        )
    }

    /// Whether `spec_add(v)` stays in the range of an `i64`.
    pub open spec fn can_add(self, v: BlockVector) -> bool {
        fits_i64(self.x * CHUNK_SIZE) && fits_i64(self.y * CHUNK_SIZE) && fits_i64(self.z * CHUNK_SIZE)
            && fits_i64(self.x * CHUNK_SIZE + v.x) && fits_i64(self.y * CHUNK_SIZE + v.y) && fits_i64(
            self.z * CHUNK_SIZE + v.z,
        )
    }

    pub open spec fn with_x_spec(self, d: int) -> ChunkPosition {
        ChunkPosition { x: (self.x + d) as i64, y: self.y, z: self.z }
    }

    pub open spec fn with_y_spec(self, d: int) -> ChunkPosition {
        ChunkPosition { x: self.x, y: (self.y + d) as i64, z: self.z }
    }

    pub open spec fn with_z_spec(self, d: int) -> ChunkPosition {
        ChunkPosition { x: self.x, y: self.y, z: (self.z + d) as i64 }
    }

    pub fn new(x: i64, y: i64, z: i64) -> (r: ChunkPosition)
        ensures
            r.x == x && r.y == y && r.z == z,
    {
        ChunkPosition { x, y, z }
    }

    /// This position with `x` added to its x coordinate.
    pub fn with_x(&self, x: i64) -> (r: ChunkPosition)
        requires
            fits_i64(self.x + x),
        ensures
            r.x == self.x + x && r.y == self.y && r.z == self.z,
    {
        ChunkPosition { x: self.x + x, y: self.y, z: self.z }
    }

    /// This position with `y` added to its y coordinate.
    pub fn with_y(&self, y: i64) -> (r: ChunkPosition)
        requires
            fits_i64(self.y + y),
        ensures
            r.x == self.x && r.y == self.y + y && r.z == self.z,
    {
        ChunkPosition { x: self.x, y: self.y + y, z: self.z }
    }

    /// This position with `z` added to its z coordinate.
    pub fn with_z(&self, z: i64) -> (r: ChunkPosition)
        requires
            fits_i64(self.z + z),
        ensures
            r.x == self.x && r.y == self.y && r.z == self.z + z,
    {
        ChunkPosition { x: self.x, y: self.y, z: self.z + z }
    }

    /// The global position of the block at local offset `v` of this chunk.
    pub fn block(&self, v: &BlockVector) -> (r: BlockPosition)
        requires
            self.can_add(*v),
        ensures
            r == self.spec_add(*v),
    {
        BlockPosition::new(
            self.x * CHUNK_SIZE + v.x,
            self.y * CHUNK_SIZE + v.y,
            self.z * CHUNK_SIZE + v.z,
        )
    }
}

impl core::ops::Add<BlockVector> for ChunkPosition {
    type Output = BlockPosition;

    fn add(self, rhs: BlockVector) -> (r: BlockPosition) {
        self.block(&rhs)
    }
}

impl vstd::std_specs::ops::AddSpecImpl<BlockVector> for ChunkPosition {
    open spec fn obeys_add_spec() -> bool {
        true
    }

    open spec fn add_req(self, rhs: BlockVector) -> bool {
        self.can_add(rhs)
    }

    open spec fn add_spec(self, rhs: BlockVector) -> BlockPosition {
        self.spec_add(rhs)
    }
}

/// For a chunk `p` and an offset `v` that fits, the block `p + v` lies in
/// chunk `p` at offset `v`.
pub proof fn lemma_chunk_add_inverse(p: ChunkPosition, v: BlockVector)
    requires
        v.spec_fits(),
        p.can_add(v),
    ensures
        p.spec_add(v).spec_chunk() == p,
        p.spec_add(v).spec_chunk_relative() == v,
{
    lemma_chunk_plus_local(p.x as int, v.x as int);
    lemma_chunk_plus_local(p.y as int, v.y as int);
    lemma_chunk_plus_local(p.z as int, v.z as int);
}

} // verus!
