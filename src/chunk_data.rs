//! Dense storage of the blocks of one chunk.
use vstd::prelude::*;
use crate::block::BlockInner;
use crate::coordinates::{BlockVector, CHUNK_SIZE};

verus! {

/// Number of blocks in a chunk.
pub const VOLUME: usize = 4096;

/// The slot of local position `v` in row-major order (x outer, y middle,
/// z inner).
pub open spec fn local_index(v: BlockVector) -> int {
    v.x * 256 + v.y * 16 + v.z
}

/// The local position stored in slot `i`.
pub open spec fn index_position(i: int) -> BlockVector {
    BlockVector { x: (i / 256) as i64, y: ((i / 16) % 16) as i64, z: (i % 16) as i64 }
}

/// Slot and position are inverse to each other.
pub proof fn lemma_index_position(v: BlockVector)
    requires
        v.spec_fits(),
    ensures
        0 <= local_index(v) < VOLUME,
        index_position(local_index(v)) == v,
{
    let i = local_index(v);
    assert(0 <= i < 4096) by (nonlinear_arith)
        requires
            0 <= v.x < 16 && 0 <= v.y < 16 && 0 <= v.z < 16 && i == v.x * 256 + v.y * 16 + v.z,
    ;
    vstd::arithmetic::div_mod::lemma_fundamental_div_mod_converse(i, 256, v.x as int, v.y * 16 + v.z);
    vstd::arithmetic::div_mod::lemma_fundamental_div_mod_converse(i, 16, v.x * 16 + v.y, v.z as int);
    vstd::arithmetic::div_mod::lemma_fundamental_div_mod_converse(v.x * 16 + v.y, 16, v.x as int, v.y as int);
}

/// Every slot holds a position that fits.
pub proof fn lemma_position_index(i: int)
    requires
        0 <= i < VOLUME,
    ensures
        index_position(i).spec_fits(),
        local_index(index_position(i)) == i,
{
    vstd::arithmetic::div_mod::lemma_fundamental_div_mod(i, 256);
    vstd::arithmetic::div_mod::lemma_fundamental_div_mod(i, 16);
    vstd::arithmetic::div_mod::lemma_fundamental_div_mod(i / 16, 16);
    vstd::arithmetic::div_mod::lemma_div_denominator(i, 16, 16);
    vstd::arithmetic::div_mod::lemma_fundamental_div_mod(i, 256);
    vstd::arithmetic::div_mod::lemma_mod_bound(i, 256);
    vstd::arithmetic::div_mod::lemma_mod_bound(i, 16);
    vstd::arithmetic::div_mod::lemma_mod_bound(i / 16, 16);
    assert(0 <= i / 256 < 16) by (nonlinear_arith)
        requires
            0 <= i < 4096,
            i == 256 * (i / 256) + i % 256,
            0 <= i % 256 < 256,
    ;
}

fn slot(pos: &BlockVector) -> (r: usize)
    requires
        pos.spec_fits(),
    ensures
        r == local_index(*pos),
        r < VOLUME,
{
    proof {
        lemma_index_position(*pos);
    }
    (pos.x * 256 + pos.y * CHUNK_SIZE + pos.z) as usize
}

/// The blocks of one chunk, `CHUNK_SIZE`³ of them.
pub struct ChunkData {
    blocks: Vec<BlockInner>,
}

impl View for ChunkData {
    type V = Seq<BlockInner>;

    closed spec fn view(&self) -> Seq<BlockInner> {
        self.blocks@
    }
}

impl ChunkData {
    #[verifier::type_invariant]
    closed spec fn inv(self) -> bool {
        self.blocks@.len() == VOLUME
    }

    /// Storage built from the blocks in row-major order.
    pub fn new(blocks: Vec<BlockInner>) -> (r: ChunkData)
        requires
            blocks@.len() == VOLUME,
        ensures
            r@ == blocks@,
    {
        ChunkData { blocks }
    }

    /// Storage with every slot holding `block`.
    pub fn filled(block: BlockInner) -> (r: ChunkData)
        ensures
            r@ == Seq::new(VOLUME as nat, |i: int| block),
    {
        let mut blocks: Vec<BlockInner> = Vec::new();
        let mut i: usize = 0;
        while i < VOLUME
            invariant
                i <= VOLUME,
                blocks@ == Seq::new(i as nat, |j: int| block),
            decreases VOLUME - i,
        {
            blocks.push(block);
            i += 1;
        }
        ChunkData { blocks }
    }

    /// The number of slots; always `VOLUME`.
    pub fn len(&self) -> (r: usize)
        ensures
            r == self@.len(),
            r == VOLUME,
    {
        proof {
            use_type_invariant(self);
        }
        self.blocks.len()
    }

    /// The block at `pos`, or `None` when `pos` does not fit.
    pub fn get(&self, pos: BlockVector) -> (r: Option<BlockInner>)
        ensures
            self@.len() == VOLUME,
            pos.spec_fits() ==> r == Some(self@[local_index(pos)]),
            !pos.spec_fits() ==> r.is_none(),
    {
        proof {
            use_type_invariant(self);
        }
        if pos.fits() {
            Some(self.blocks[slot(&pos)])
        } else {
            None
        }
    }

    /// The block at `pos`, which the caller has checked to fit.
    pub fn get_unchecked(&self, pos: BlockVector) -> (r: BlockInner)
        requires
            pos.spec_fits(),
        ensures
            self@.len() == VOLUME,
            r == self@[local_index(pos)],
    {
        proof {
            use_type_invariant(self);
        }
        self.blocks[slot(&pos)]
    }

    /// The block in slot `i` of the row-major order.
    pub fn get_index(&self, i: usize) -> (r: BlockInner)
        requires
            i < VOLUME,
        ensures
            self@.len() == VOLUME,
            r == self@[i as int],
    {
        proof {
            use_type_invariant(self);
        }
        self.blocks[i]
    }

    /// Stores `block` at `pos` and returns the block that was there; leaves
    /// the storage unchanged and returns `None` when `pos` does not fit.
    pub fn set(&mut self, pos: BlockVector, block: BlockInner) -> (r: Option<BlockInner>)
        ensures
            old(self)@.len() == VOLUME,
            pos.spec_fits() ==> r == Some(old(self)@[local_index(pos)]) && final(self)@ == old(
                self,
            )@.update(local_index(pos), block),
            !pos.spec_fits() ==> r.is_none() && final(self)@ == old(self)@,
    {
        proof {
            use_type_invariant(&*self);
        }
        if pos.fits() {
            let i = slot(&pos);
            let previous = self.blocks[i];
            self.blocks[i] = block;
            Some(previous)
        } else {
            None
        }
    }

    /// Stores `block` in slot `i` of the row-major order.
    pub fn set_index(&mut self, i: usize, block: BlockInner)
        requires
            i < VOLUME,
        ensures
            old(self)@.len() == VOLUME,
            final(self)@ == old(self)@.update(i as int, block),
    {
        proof {
            use_type_invariant(&*self);
        }
        self.blocks[i] = block;
    }

    /// Stores air at `pos`, which must fit, and returns the block that was
    /// there.
    pub fn clear(&mut self, pos: BlockVector) -> (r: BlockInner)
        requires
            pos.spec_fits(),
        ensures
            old(self)@.len() == VOLUME,
            r == old(self)@[local_index(pos)],
            final(self)@ == old(self)@.update(local_index(pos), BlockInner::spec_air()),
    {
        let previous = self.set(pos, BlockInner::air());
        previous.unwrap()
    }

    /// Every local position with its block, in row-major order (x outer,
    /// y middle, z inner).
    pub fn iter(&self) -> (r: Vec<(BlockVector, BlockInner)>)
        ensures
            r@.len() == VOLUME,
            forall|i: int|
                0 <= i < VOLUME ==> r@[i].0 == index_position(i) && r@[i].1 == self@[i],
    {
        proof {
            use_type_invariant(self);
        }
        let mut r: Vec<(BlockVector, BlockInner)> = Vec::new();
        let mut x: i64 = 0;
        while x < CHUNK_SIZE
            invariant
                0 <= x <= 16,
                self@.len() == VOLUME,
                r@.len() == x * 256,
                forall|i: int|
                    0 <= i < r@.len() ==> r@[i].0 == index_position(i) && r@[i].1 == self@[i],
            decreases 16 - x,
        {
            let mut y: i64 = 0;
            while y < CHUNK_SIZE
                invariant
                    0 <= x < 16,
                    0 <= y <= 16,
                    self@.len() == VOLUME,
                    r@.len() == x * 256 + y * 16,
                    forall|i: int|
                        0 <= i < r@.len() ==> r@[i].0 == index_position(i) && r@[i].1 == self@[i],
                decreases 16 - y,
            {
                let mut z: i64 = 0;
                while z < CHUNK_SIZE
                    invariant
                        0 <= x < 16,
                        0 <= y < 16,
                        0 <= z <= 16,
                        self@.len() == VOLUME,
                        r@.len() == x * 256 + y * 16 + z,
                        forall|i: int|
                            0 <= i < r@.len() ==> r@[i].0 == index_position(i) && r@[i].1
                                == self@[i],
                    decreases 16 - z,
                {
                    let pos = BlockVector::new(x, y, z);
                    proof {
                        lemma_index_position(pos);
                    }
                    let block = self.get_unchecked(pos);
                    r.push((pos, block));
                    z += 1;
                }
                y += 1;
            }
            x += 1;
        }
        r
    }

    /// Whether two chunks hold the same blocks in every slot.
    pub fn same_blocks(&self, other: &ChunkData) -> (r: bool)
        ensures
            r == (self@ == other@),
    {
        proof {
            use_type_invariant(self);
            use_type_invariant(other);
        }
        let mut i: usize = 0;
        while i < VOLUME
            invariant
                i <= VOLUME,
                self@.len() == VOLUME,
                other@.len() == VOLUME,
                forall|j: int| 0 <= j < i ==> self@[j] == other@[j],
            decreases VOLUME - i,
        {
            if self.blocks[i] != other.blocks[i] {
                return false;
            }
            i += 1;
        }
        assert(self@ =~= other@);
        true
    }
}

/// Storing a block at a position that fits and reading it back gives that
/// block.
pub proof fn lemma_set_then_get(before: Seq<BlockInner>, pos: BlockVector, block: BlockInner)
    requires
        before.len() == VOLUME,
        pos.spec_fits(),
    ensures
        before.update(local_index(pos), block)[local_index(pos)] == block,
        before.update(local_index(pos), block).len() == VOLUME,
{
    lemma_index_position(pos);
}

} // verus!
