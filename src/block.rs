//! The content of one voxel: a type id, an auxiliary data byte and flags.
use vstd::prelude::*;

verus! {

/// Flag bit: the block is powered.
pub const POWERED_BIT: u8 = 1;

/// Flag bit: the block is a full opaque cube that hides adjacent faces.
pub const BLOCK_MESH_BIT: u8 = 2;

/// Type id of air.
pub const AIR_ID: u16 = 0;

/// Type id of stone.
pub const STONE_ID: u16 = 1;

/// Type id of dirt.
pub const DIRT_ID: u16 = 2;

/// Type id of grass.
pub const GRASS_ID: u16 = 3;

/// Type id of wood.
pub const WOOD_ID: u16 = 4;

/// Type id of a log.
pub const LOG_ID: u16 = 5;

/// A set of block flags.
#[derive(Copy, Clone, PartialEq, Eq, Debug, Hash, Structural)]
pub struct BlockInfo(pub u8);

impl BlockInfo {
    /// No flag set.
    pub fn empty() -> (r: BlockInfo)
        ensures
            r.0 == 0,
    {
        BlockInfo(0)
    }

    /// Only the powered flag.
    pub fn powered() -> (r: BlockInfo)
        ensures
            r.0 == POWERED_BIT,
    {
        BlockInfo(POWERED_BIT)
    }

    /// Only the block-mesh flag.
    pub fn block_mesh() -> (r: BlockInfo)
        ensures
            r.0 == BLOCK_MESH_BIT,
    {
        BlockInfo(BLOCK_MESH_BIT)
    }

    /// Whether every flag of `other` is set here.
    pub open spec fn spec_contains(self, other: BlockInfo) -> bool {
        self.0 & other.0 == other.0
    }

    /// Whether every flag of `other` is set here.
    pub fn contains(self, other: BlockInfo) -> (r: bool)
        ensures
            r == self.spec_contains(other),
    {
        (self.0 & other.0) == other.0
    }

    /// Whether at least one flag of `other` is set here.
    pub fn contains_any(self, other: BlockInfo) -> (r: bool)
        ensures
            r == (self.0 & other.0 != 0),
    {
        (self.0 & other.0) != 0
    }

    /// The union of two flag sets.
    pub fn union(self, other: BlockInfo) -> (r: BlockInfo)
        ensures
            r.0 == self.0 | other.0,
    {
        BlockInfo(self.0 | other.0)
    }

    /// The names of the known flags that are set, joined by `" | "`, or
    /// `"EMPTY"` when neither is set.
    pub fn describe(self) -> (r: &'static str)
        ensures
            r@ == (if self.0 & 3 == 0 {
                "EMPTY"@
            } else if self.0 & 3 == 1 {
                "POWERED"@
            } else if self.0 & 3 == 2 {
                "BLOCK_MESH"@
            } else {
                "POWERED | BLOCK_MESH"@
            }),
    {
        proof {
            reveal_strlit("EMPTY");
            reveal_strlit("POWERED");
            reveal_strlit("BLOCK_MESH");
            reveal_strlit("POWERED | BLOCK_MESH");
        }
        let bits = self.0;
        let powered = self.contains(BlockInfo::powered());
        let mesh = self.contains(BlockInfo::block_mesh());
        assert(bits & 1 == 1 <==> bits & 3 == 1 || bits & 3 == 3) by (bit_vector);
        assert(bits & 2 == 2 <==> bits & 3 == 2 || bits & 3 == 3) by (bit_vector);
        assert(bits & 3 == 0 || bits & 3 == 1 || bits & 3 == 2 || bits & 3 == 3) by (bit_vector);
        if powered && mesh {
            "POWERED | BLOCK_MESH"
        } else if powered {
            "POWERED"
        } else if mesh {
            "BLOCK_MESH"
        } else {
            "EMPTY"
        }
    }
}

/// One voxel's content. Equality is structural.
#[derive(Copy, Clone, PartialEq, Eq, Debug, Structural)]
pub struct BlockInner {
    pub btype: u16,
    pub data: u8,
    pub info: BlockInfo,
}

/// Whether a block hides the faces of the blocks next to it.
pub open spec fn spec_is_opaque(b: BlockInner) -> bool {
    b.info.0 & BLOCK_MESH_BIT == BLOCK_MESH_BIT
}

impl BlockInner {
    pub open spec fn spec_air() -> BlockInner {
        BlockInner { btype: AIR_ID, data: 0, info: BlockInfo(0) }
    }

    pub open spec fn spec_solid(btype: u16) -> BlockInner {
        BlockInner { btype, data: 0, info: BlockInfo(BLOCK_MESH_BIT) }
    }

    /// The empty block.
    pub fn air() -> (r: BlockInner)
        ensures
            r == BlockInner::spec_air(),
    {
        BlockInner { btype: AIR_ID, data: 0, info: BlockInfo::empty() }
    }

    /// A full opaque block of the given type.
    pub fn solid(btype: u16) -> (r: BlockInner)
        ensures
            r == BlockInner::spec_solid(btype),
    {
        BlockInner { btype, data: 0, info: BlockInfo::block_mesh() }
    }

    pub fn stone() -> (r: BlockInner)
        ensures
            r == BlockInner::spec_solid(STONE_ID),
    {
        BlockInner::solid(STONE_ID)
    }

    pub fn dirt() -> (r: BlockInner)
        ensures
            r == BlockInner::spec_solid(DIRT_ID),
    {
        BlockInner::solid(DIRT_ID)
    }

    pub fn grass() -> (r: BlockInner)
        ensures
            r == BlockInner::spec_solid(GRASS_ID),
    {
        BlockInner::solid(GRASS_ID)
    }

    pub fn wood() -> (r: BlockInner)
        ensures
            r == BlockInner::spec_solid(WOOD_ID),
    {
        BlockInner::solid(WOOD_ID)
    }

    pub fn log() -> (r: BlockInner)
        ensures
            r == BlockInner::spec_solid(LOG_ID),
    {
        BlockInner::solid(LOG_ID)
    }

    /// Whether this block hides the faces of the blocks next to it.
    pub fn is_opaque(&self) -> (r: bool)
        ensures
            r == spec_is_opaque(*self),
    {
        self.info.contains(BlockInfo::block_mesh())
    }
}

/// One of the six faces of a cube.
#[derive(Copy, Clone, PartialEq, Eq, Debug, Structural)]
pub enum Side {
    Top,
    Front,
    Back,
    Left,
    Right,
    Bottom,
}

impl Side {
    pub open spec fn spec_index(self) -> int {
        match self {
            Side::Top => 0,
            Side::Front => 1,
            Side::Back => 2,
            Side::Left => 3,
            Side::Right => 4,
            Side::Bottom => 5,
        }
    }

    /// The slot of this side in a `Sides` table.
    pub fn index(self) -> (r: usize)
        ensures
            r == self.spec_index(),
            r < 6,
    {
        match self {
            Side::Top => 0,
            Side::Front => 1,
            Side::Back => 2,
            Side::Left => 3,
            Side::Right => 4,
            Side::Bottom => 5,
        }
    }
}

/// One value for each side of a cube, indexed by `Side`.
#[derive(Copy, Clone, Debug)]
pub struct Sides<T> {
    pub values: [T; 6],
}

impl<T: Copy> Sides<T> {
    /// The same value on every side.
    pub fn filled(value: T) -> (r: Sides<T>)
        ensures
            forall|i: int| 0 <= i < 6 ==> r.values@[i] == value,
    {
        Sides { values: [value, value, value, value, value, value] }
    }

    /// The given values, in the order of `Side`.
    pub fn new(values: [T; 6]) -> (r: Sides<T>)
        ensures
            r.values == values,
    {
        Sides { values }
    }

    /// The six values, in the order of `Side`.
    pub fn inner(self) -> (r: [T; 6])
        ensures
            r == self.values,
    {
        self.values
    }

    /// The value on side `side`.
    pub fn get(&self, side: Side) -> (r: T)
        ensures
            r == self.values@[side.spec_index()],
    {
        self.values[side.index()]
    }

    /// Replaces the value on side `side`.
    pub fn set(&mut self, side: Side, value: T)
        ensures
            final(self).values@ == old(self).values@.update(side.spec_index(), value),
    {
        self.values[side.index()] = value;
    }
}

} // verus!
