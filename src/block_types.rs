//! The static catalogue of block types: how each type looks and feels.
use vstd::prelude::*;
use crate::block::{BlockInfo, Sides};
use crate::collider::{AAQuader, Vec3, UNITS_PER_BLOCK};

verus! {

/// How a block type is drawn.
#[derive(Copy, Clone, Debug)]
pub enum BlockLook {
    /// Nothing is drawn.
    Empty,
    /// Drawn by a mesh of its own, outside the chunk mesh.
    DynamicBlockMesh,
    /// Drawn by a custom mesh, outside the chunk mesh.
    CustomMesh,
    /// A textured cube, with one atlas index per side.
    Cube { textures: Sides<u32> },
}

/// How a block type collides.
#[derive(Clone, Debug)]
pub enum BlockFeel {
    /// No collision.
    Empty,
    /// A set of boxes in block-local world units.
    ColliderSet(Vec<AAQuader>),
    /// Collision decided elsewhere.
    Custom,
}

/// One entry of the catalogue.
#[derive(Clone, Debug)]
pub struct BlockType {
    pub name: &'static str,
    pub look: BlockLook,
    pub feel: BlockFeel,
    pub info: BlockInfo,
}

/// The textures of a block type that is drawn as a cube, or `None`; an id
/// beyond the catalogue is drawn as nothing.
pub open spec fn cube_textures(cat: Seq<BlockType>, id: int) -> Option<Sides<u32>> {
    if 0 <= id < cat.len() {
        match cat[id].look {
            BlockLook::Cube { textures } => Some(textures),
            _ => None,
        }
    } else {
        None
    }
}

/// The textures of block type `id` when it is drawn as a cube.
pub fn cube_textures_of(cat: &Vec<BlockType>, id: u16) -> (r: Option<Sides<u32>>)
    ensures
        r == cube_textures(cat@, id as int),
{
    let i = id as usize;
    if i < cat.len() {
        match &cat[i].look {
            BlockLook::Cube { textures } => Some(*textures),
            _ => None,
        }
    } else {
        None
    }
}

/// The collider boxes of block type `id`; none for a type without a
/// collider set or beyond the catalogue.
pub open spec fn colliders_of(cat: Seq<BlockType>, id: int) -> Seq<AAQuader> {
    if 0 <= id < cat.len() {
        match cat[id].feel {
            BlockFeel::ColliderSet(boxes) => boxes@,
            _ => Seq::empty(),
        }
    } else {
        Seq::empty()
    }
}

/// The collider boxes of block type `id`.
pub fn colliders(cat: &Vec<BlockType>, id: u16) -> (r: &[AAQuader])
    ensures
        r@ == colliders_of(cat@, id as int),
{
    let i = id as usize;
    if i < cat.len() {
        match &cat[i].feel {
            BlockFeel::ColliderSet(boxes) => boxes.as_slice(),
            _ => &[],
        }
    } else {
        &[]
    }
}

/// The unit cube of one block, in block-local world units.
pub open spec fn spec_unit_box() -> AAQuader {
    AAQuader {
        lower: Vec3 { x: 0, y: 0, z: 0 },
        higher: Vec3 { x: UNITS_PER_BLOCK, y: UNITS_PER_BLOCK, z: UNITS_PER_BLOCK },
    }
}

/// The empty block type.
pub struct Air;

impl Air {
    pub fn name(&self) -> (r: &'static str)
        ensures
            r@ == "air"@,
    {
        proof {
            reveal_strlit("air");
        }
        "air"
    }

    pub fn get_block_look(&self) -> (r: BlockLook)
        ensures
            r is Empty,
    {
        BlockLook::Empty
    }

    pub fn get_feel(&self) -> (r: BlockFeel)
        ensures
            r is Empty,
    {
        BlockFeel::Empty
    }

    pub fn info(&self) -> (r: BlockInfo)
        ensures
            r.0 == 0,
    {
        BlockInfo::empty()
    }

    /// The catalogue entry of air.
    pub fn block_type(&self) -> (r: BlockType)
        ensures
            r.look is Empty,
            r.feel is Empty,
            r.info.0 == 0,
    {
        BlockType { name: self.name(), look: self.get_block_look(), feel: self.get_feel(), info: self.info() }
    }
}

/// A textured solid cube.
pub struct Cube {
    pub textures: Sides<u32>,
    pub name: &'static str,
}

impl Cube {
    /// The same texture on every side.
    pub fn uniform(name: &'static str, texture: u32) -> (r: Cube)
        ensures
            forall|i: int| 0 <= i < 6 ==> r.textures.values@[i] == texture,
    {
        Cube { name, textures: Sides::filled(texture) }
    }

    /// One texture on top, one on the four sides and one below.
    pub fn top_side_bottom(name: &'static str, top: u32, side: u32, bottom: u32) -> (r: Cube)
        ensures
            r.textures.values == [top, side, side, side, side, bottom],
    {
        Cube { name, textures: Sides::new([top, side, side, side, side, bottom]) }
    }

    pub fn new(name: &'static str, textures: Sides<u32>) -> (r: Cube)
        ensures
            r.textures == textures,
    {
        Cube { name, textures }
    }

    pub fn name(&self) -> (r: &'static str)
        ensures
            r == self.name,
    {
        self.name
    }

    pub fn get_block_look(&self) -> (r: BlockLook)
        ensures
            r == (BlockLook::Cube { textures: self.textures }),
    {
        BlockLook::Cube { textures: self.textures }
    }

    pub fn get_feel(&self) -> (r: BlockFeel)
        ensures
            r matches BlockFeel::ColliderSet(boxes) && boxes@ == seq![spec_unit_box()],
    {
        let mut boxes: Vec<AAQuader> = Vec::new();
        boxes.push(
            AAQuader::new(
                Vec3::zero(),
                Vec3::new(UNITS_PER_BLOCK, UNITS_PER_BLOCK, UNITS_PER_BLOCK),
            ),
        );
        assert(boxes@ =~= seq![spec_unit_box()]);
        BlockFeel::ColliderSet(boxes)
    }

    pub fn info(&self) -> (r: BlockInfo)
        ensures
            r == BlockInfo(crate::block::BLOCK_MESH_BIT),
    {
        BlockInfo::block_mesh()
    }

    /// The catalogue entry of this cube.
    pub fn block_type(&self) -> (r: BlockType)
        ensures
            r.look == (BlockLook::Cube { textures: self.textures }),
            r.feel matches BlockFeel::ColliderSet(boxes) && boxes@ == seq![spec_unit_box()],
    {
        BlockType { name: self.name(), look: self.get_block_look(), feel: self.get_feel(), info: self.info() }
    }
}

/// The catalogue: air, stone, dirt, grass, log and wood, indexed by type
/// id.
pub fn get_block_types() -> (r: Vec<BlockType>)
    ensures
        r@.len() == 6,
        r@[0].look is Empty,
        r@[0].feel is Empty,
        forall|i: int| 1 <= i < 6 ==> r@[i].look is Cube,
        forall|i: int| 1 <= i < 6 ==> #[trigger] colliders_of(r@, i) == seq![spec_unit_box()],
        cube_textures(r@, 1) == Some(Sides { values: [1u32, 1, 1, 1, 1, 1] }),
        cube_textures(r@, 2) == Some(Sides { values: [2u32, 2, 2, 2, 2, 2] }),
        cube_textures(r@, 3) == Some(Sides { values: [0u32, 3, 3, 3, 3, 2] }),
        cube_textures(r@, 4) == Some(Sides { values: [21u32, 20, 20, 20, 20, 21] }),
        cube_textures(r@, 5) == Some(Sides { values: [4u32, 4, 4, 4, 4, 4] }),
{
    let mut r: Vec<BlockType> = Vec::new();
    r.push(Air.block_type());
    r.push(Cube::new("stone", Sides::new([1, 1, 1, 1, 1, 1])).block_type());
    r.push(Cube::new("dirt", Sides::new([2, 2, 2, 2, 2, 2])).block_type());
    r.push(Cube::top_side_bottom("grass", 0, 3, 2).block_type());
    r.push(Cube::top_side_bottom("log", 21, 20, 21).block_type());
    r.push(Cube::new("wood", Sides::new([4, 4, 4, 4, 4, 4])).block_type());
    r
}

} // verus!
