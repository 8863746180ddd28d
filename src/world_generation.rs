//! Terrain generation, and the in-memory world provider that uses it.
use vstd::prelude::*;
use rand::RngCore;
use crate::block::BlockInner;
use crate::chunk_data::{index_position, lemma_position_index, ChunkData, VOLUME};
use crate::collider::UNITS_PER_BLOCK;
use crate::coordinates::{BlockPosition, ChunkPosition, CHUNK_SIZE};
use crate::noise::{create_perlin_noise, next_seed, next_seed_of, noise_at, write_perlin_noise, MAP_CELLS};

verus! {

/// Depth of the dirt band below the top block of a column.
pub const DIRT_DEPTH: i64 = 5;

/// The terrain height of world column `(wx, wz)`, in world units: four
/// layers of noise with steps 64, 16, 4 and 2 blocks, each with its own
/// seed and a smaller amplitude.
pub open spec fn terrain_height(seed: u64, wx: int, wz: int) -> int {
    let s1 = next_seed(seed);
    let s2 = next_seed(s1);
    let s3 = next_seed(s2);
    noise_at(seed, 64, 0, 2048, wx, wz) + noise_at(s1, 16, 0, 512, wx, wz) + noise_at(s2, 4, 0, 205, wx, wz)
        + noise_at(s3, 2, 0, 51, wx, wz)
}

/// The block at local height `y` of a column of height `h` (world units):
/// solid when `h` reaches `y` less half a block; the topmost solid block of
/// the chunk is grass, the `DIRT_DEPTH` below it dirt, the rest stone.
pub open spec fn column_block(h: int, y: int) -> BlockInner {
    let top_raw = (h + UNITS_PER_BLOCK / 2) / (UNITS_PER_BLOCK as int);
    let top = if top_raw > CHUNK_SIZE - 1 { CHUNK_SIZE - 1 } else { top_raw };
    if h < y * UNITS_PER_BLOCK - UNITS_PER_BLOCK / 2 {
        BlockInner::spec_air()
    } else if y == top {
        BlockInner::spec_solid(crate::block::GRASS_ID)
    } else if y >= top - DIRT_DEPTH {
        BlockInner::spec_solid(crate::block::DIRT_ID)
    } else {
        BlockInner::spec_solid(crate::block::STONE_ID)
    }
}

/// The block in slot `i` of the chunk at `position` generated from `seed`:
/// terrain in the chunks at vertical index 0, air everywhere else.
pub open spec fn terrain_block(seed: u64, position: ChunkPosition, i: int) -> BlockInner {
    if position.y != 0 {
        BlockInner::spec_air()
    } else {
        let v = index_position(i);
        column_block(
            terrain_height(seed, position.x * CHUNK_SIZE + v.x, position.z * CHUNK_SIZE + v.z),
            v.y as int,
        )
    }
}

/// The chunk at `position` generated from `seed`: the same inputs always
/// give the same blocks.
pub open spec fn generated(seed: u64, position: ChunkPosition) -> Seq<BlockInner> {
    Seq::new(VOLUME as nat, |i: int| terrain_block(seed, position, i))
}

fn column_block_of(h: i64, y: i64) -> (r: BlockInner)
    requires
        0 <= h <= 0x1000_0000,
        0 <= y < CHUNK_SIZE,
    ensures
        r == column_block(h as int, y as int),
{
    let top_raw = (h + UNITS_PER_BLOCK / 2) / UNITS_PER_BLOCK;
    let top = if top_raw > CHUNK_SIZE - 1 { CHUNK_SIZE - 1 } else { top_raw };
    if h < y * UNITS_PER_BLOCK - UNITS_PER_BLOCK / 2 {
        BlockInner::air()
    } else if y == top {
        BlockInner::grass()
    } else if y >= top - DIRT_DEPTH {
        BlockInner::dirt()
    } else {
        BlockInner::stone()
    }
}

/// The terrain heights of the 16 × 16 columns of a chunk whose lower
/// corner is at world column `(x_start, z_start)`; cell `x * 16 + z`.
pub fn terrain_heights(seed: u64, x_start: i64, z_start: i64) -> (r: Vec<i64>)
    requires
        crate::noise::coord_ok(x_start as int),
        crate::noise::coord_ok(z_start as int),
    ensures
        r@.len() == MAP_CELLS,
        forall|c: int|
            0 <= c < MAP_CELLS ==> #[trigger] r@[c] == terrain_height(seed, x_start + c / 16, z_start + c % 16),
        forall|c: int| 0 <= c < MAP_CELLS ==> 0 <= #[trigger] r@[c] <= 2048 + 512 + 205 + 51,
{
    let s1 = next_seed_of(seed);
    let s2 = next_seed_of(s1);
    let s3 = next_seed_of(s2);
    let mut noise = create_perlin_noise(seed, x_start, z_start, 64, 0, 2048);
    let ghost n0 = noise@;
    write_perlin_noise(&mut noise, s1, x_start, z_start, 16, 0, 512);
    let ghost n1 = noise@;
    write_perlin_noise(&mut noise, s2, x_start, z_start, 4, 0, 205);
    let ghost n2 = noise@;
    write_perlin_noise(&mut noise, s3, x_start, z_start, 2, 0, 51);
    assert forall|c: int| 0 <= c < MAP_CELLS implies #[trigger] noise@[c] == terrain_height(
        seed,
        x_start + c / 16,
        z_start + c % 16,
    ) && 0 <= noise@[c] <= 2048 + 512 + 205 + 51 by {
        assert(n0[c] == noise_at(seed, 64, 0, 2048, x_start + c / 16, z_start + c % 16));
        assert(n1[c] == n0[c] + noise_at(s1, 16, 0, 512, x_start + c / 16, z_start + c % 16));
        assert(n2[c] == n1[c] + noise_at(s2, 4, 0, 205, x_start + c / 16, z_start + c % 16));
        assert(noise@[c] == n2[c] + noise_at(s3, 2, 0, 51, x_start + c / 16, z_start + c % 16));
        crate::noise::lemma_noise_bounded(seed, 64, 0, 2048, x_start + c / 16, z_start + c % 16);
    }
    noise
}

fn blocks_from_heights(seed: u64, position: ChunkPosition, noise: &Vec<i64>) -> (r: Vec<BlockInner>)
    requires
        position.y == 0,
        noise@.len() == MAP_CELLS,
        forall|c: int|
            0 <= c < MAP_CELLS ==> #[trigger] noise@[c] == terrain_height(
                seed,
                position.x * CHUNK_SIZE + c / 16,
                position.z * CHUNK_SIZE + c % 16,
            ),
        forall|c: int| 0 <= c < MAP_CELLS ==> 0 <= #[trigger] noise@[c] <= 2048 + 512 + 205 + 51,
    ensures
        r@ == generated(seed, position),
{
    let mut blocks: Vec<BlockInner> = Vec::new();
    let mut i: usize = 0;
    while i < VOLUME
        invariant
            i <= VOLUME,
            position.y == 0,
            noise@.len() == MAP_CELLS,
            forall|c: int|
                0 <= c < MAP_CELLS ==> #[trigger] noise@[c] == terrain_height(
                    seed,
                    position.x * CHUNK_SIZE + c / 16,
                    position.z * CHUNK_SIZE + c % 16,
                ),
            forall|c: int| 0 <= c < MAP_CELLS ==> 0 <= #[trigger] noise@[c] <= 2048 + 512 + 205 + 51,
            blocks@.len() == i,
            forall|j: int| 0 <= j < i ==> #[trigger] blocks@[j] == terrain_block(seed, position, j),
        decreases VOLUME - i,
    {
        let x = i / 256;
        let y = ((i / 16) % 16) as i64;
        let z = i % 16;
        proof {
            lemma_position_index(i as int);
        }
        let c = x * 16 + z;
        proof {
            vstd::arithmetic::div_mod::lemma_fundamental_div_mod_converse(c as int, 16, x as int, z as int);
        }
        let h = noise[c];
        let block = column_block_of(h, y);
        blocks.push(block);
        i += 1;
    }
    assert(blocks@ =~= generated(seed, position));
    blocks
}

/// Generates the chunk at `position` from `seed` (see `terrain_block`).
pub fn generate_chunk(seed: u64, position: ChunkPosition) -> (r: ChunkData)
    requires
        position.spec_bounded(),
    ensures
        r@ == generated(seed, position),
{
    if position.y != 0 {
        let r = ChunkData::filled(BlockInner::air());
        assert(r@ =~= generated(seed, position));
        return r;
    }
    let noise = terrain_heights(seed, position.x * CHUNK_SIZE, position.z * CHUNK_SIZE);
    ChunkData::new(blocks_from_heights(seed, position, &noise))
}

/// Relies on rand's `thread_rng`: a seed drawn from the thread-local
/// generator; nothing is known of its value.
#[verifier::external_body]
fn random_seed() -> u64 {
    rand::thread_rng().next_u64()
}

/// An edit of one block, exchanged with a world provider.
#[derive(Copy, Clone, PartialEq, Eq, Debug, Structural)]
pub enum ChunkUpdate {
    BlockUpdate(BlockPosition, BlockInner),
}

impl ChunkUpdate {
    /// The chunk that holds the edited block.
    pub fn position(&self) -> (r: ChunkPosition)
        ensures
            match self {
                ChunkUpdate::BlockUpdate(p, _) => r == p.spec_chunk(),
            },
    {
        match self {
            ChunkUpdate::BlockUpdate(p, _) => p.chunk(),
        }
    }
}

/// A single-player world provider that keeps nothing: every chunk is
/// generated from the seed, and edits are dropped.
#[derive(Copy, Clone, PartialEq, Eq, Debug, Structural)]
pub struct InMemory {
    pub seed: u64,
}

impl InMemory {
    /// A provider with a random seed.
    pub fn new() -> InMemory {
        InMemory { seed: random_seed() }
    }

    pub fn with_seed(seed: u64) -> (r: InMemory)
        ensures
            r.seed == seed,
    {
        InMemory { seed }
    }

    /// The chunk at `position`, generated from the seed.
    pub fn load_chunk(&mut self, position: ChunkPosition) -> (r: ChunkData)
        requires
            position.spec_bounded(),
        ensures
            *final(self) == *old(self),
            r@ == generated(old(self).seed, position),
    {
        generate_chunk(self.seed, position)
    }

    /// No edit ever comes from elsewhere.
    pub fn get_chunk_update(&mut self) -> (r: Option<ChunkUpdate>)
        ensures
            *final(self) == *old(self),
            r.is_none(),
    {
        None
    }

    /// Edits are not kept.
    pub fn apply_chunk_update(&mut self, update: ChunkUpdate)
        ensures
            *final(self) == *old(self),
    {
    }
}

} // verus!
