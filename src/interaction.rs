//! Block picking along a view ray: which block a player breaks, and where a
//! placed block goes.
use vstd::prelude::*;
use crate::block::BlockInner;
use crate::chunk_manager::ChunkManager;
use crate::chunk_data::local_index;
use crate::coordinates::{BlockPosition, ChunkPosition};
use crate::ray::{snap_positions, Ray};

verus! {

/// How many blocks along the view ray a player reaches.
pub const REACH: usize = 100;

/// The first block of `s` that is loaded and not air.
pub open spec fn first_solid(world: ChunkManager, s: Seq<BlockPosition>) -> Option<BlockPosition>
    decreases s.len(),
{
    if s.len() == 0 {
        None
    } else {
        match world.spec_get(s[0]) {
            Some(b) => if b != BlockInner::spec_air() {
                Some(s[0])
            } else {
                first_solid(world, s.drop_first())
            },
            None => first_solid(world, s.drop_first()),
        }
    }
}

/// The last block before the first block of `s` that is not loaded air
/// (`prev` when that is the first one); `None` when every block of `s` is
/// loaded air.
pub open spec fn last_free(world: ChunkManager, s: Seq<BlockPosition>, prev: BlockPosition) -> Option<BlockPosition>
    decreases s.len(),
{
    if s.len() == 0 {
        None
    } else if world.spec_get(s[0]) != Some(BlockInner::spec_air()) {
        Some(prev)
    } else {
        last_free(world, s.drop_first(), s[0])
    }
}

proof fn lemma_first_solid_step(world: ChunkManager, s: Seq<BlockPosition>)
    requires
        s.len() > 0,
    ensures
        first_solid(world, s) == match world.spec_get(s[0]) {
            Some(b) => if b != BlockInner::spec_air() {
                Some(s[0])
            } else {
                first_solid(world, s.drop_first())
            },
            None => first_solid(world, s.drop_first()),
        },
{
}

proof fn lemma_last_free_step(world: ChunkManager, s: Seq<BlockPosition>, prev: BlockPosition)
    requires
        s.len() > 0,
    ensures
        last_free(world, s, prev) == if world.spec_get(s[0]) != Some(BlockInner::spec_air()) {
            Some(prev)
        } else {
            last_free(world, s.drop_first(), s[0])
        },
{
}

/// `after` is `before` with `block` stored at `p` through
/// `ChunkManager::set`: no chunk loaded or unloaded, every other block the
/// same, and the edit's chunks marked for rebuilding.
pub open spec fn edited(before: ChunkManager, after: ChunkManager, p: BlockPosition, block: BlockInner) -> bool {
    &&& forall|q: ChunkPosition| #[trigger] after.is_loaded(q) == before.is_loaded(q)
    &&& forall|q: ChunkPosition|
        before.is_loaded(q) && q != p.spec_chunk() ==> #[trigger] after.chunk_view(q) == before.chunk_view(q)
    &&& after.chunk_view(p.spec_chunk()) == before.chunk_view(p.spec_chunk()).update(
        local_index(p.spec_chunk_relative()),
        block,
    )
    &&& after.pending().to_set() == before.pending().to_set().union(ChunkManager::remesh_targets(p))
}

/// The block a player breaks: the first loaded block that is not air among
/// the first `max_steps` blocks along `ray`.
pub fn break_target(world: &ChunkManager, ray: &Ray, max_steps: usize) -> (r: Option<BlockPosition>)
    requires
        world.wf(),
        ray.wf(),
    ensures
        r == first_solid(*world, snap_positions(ray.spec_grid_snap(), max_steps as nat)),
{
    let mut snap = ray.grid_snap();
    let positions = snap.take(max_steps);
    let ghost all = positions@;
    let ghost w = *world;
    let air = BlockInner::air();
    assert(all.subrange(0, all.len() as int) =~= all);
    let mut i: usize = 0;
    while i < positions.len()
        invariant
            world.wf(),
            w == *world,
            i <= positions@.len(),
            all == positions@,
            all == snap_positions(ray.spec_grid_snap(), max_steps as nat),
            air == BlockInner::spec_air(),
            first_solid(w, all) == first_solid(w, all.subrange(i as int, all.len() as int)),
        decreases positions@.len() - i,
    {
        let p = positions[i];
        let ghost rest = all.subrange(i as int, all.len() as int);
        proof {
            assert(rest.drop_first() =~= all.subrange(i + 1, all.len() as int));
            assert(rest[0] == p);
            lemma_first_solid_step(w, rest);
        }
        let found = world.get(p);
        if let Some(b) = found {
            if b != air {
                return Some(p);
            }
        }
        i += 1;
    }
    None
}

/// Where a placed block goes: the last block before the first block that
/// is not loaded air, among `start` and then the first `max_steps` blocks
/// along `ray`; `None` when all of those are loaded air.
pub fn place_target(world: &ChunkManager, ray: &Ray, start: BlockPosition, max_steps: usize) -> (r: Option<BlockPosition>)
    requires
        world.wf(),
        ray.wf(),
    ensures
        r == last_free(*world, snap_positions(ray.spec_grid_snap(), max_steps as nat), start),
{
    let mut snap = ray.grid_snap();
    let positions = snap.take(max_steps);
    let ghost all = positions@;
    let ghost w = *world;
    let air = BlockInner::air();
    let mut prev = start;
    assert(all.subrange(0, all.len() as int) =~= all);
    let mut i: usize = 0;
    while i < positions.len()
        invariant
            world.wf(),
            w == *world,
            i <= positions@.len(),
            all == positions@,
            all == snap_positions(ray.spec_grid_snap(), max_steps as nat),
            air == BlockInner::spec_air(),
            last_free(w, all, start) == last_free(w, all.subrange(i as int, all.len() as int), prev),
        decreases positions@.len() - i,
    {
        let p = positions[i];
        let ghost rest = all.subrange(i as int, all.len() as int);
        proof {
            assert(rest.drop_first() =~= all.subrange(i + 1, all.len() as int));
            assert(rest[0] == p);
            lemma_last_free_step(w, rest, prev);
        }
        let found = world.get(p);
        let is_air = match found {
            Some(b) => b == air,
            None => false,
        };
        if !is_air {
            return Some(prev);
        }
        prev = p;
        i += 1;
    }
    None
}

/// Breaks the block `break_target` picks (stores air there). Returns the
/// position broken, if any.
pub fn break_block(world: &mut ChunkManager, ray: &Ray) -> (r: Option<BlockPosition>)
    requires
        old(world).wf(),
        ray.wf(),
    ensures
        final(world).wf(),
        r == first_solid(*old(world), snap_positions(ray.spec_grid_snap(), REACH as nat)),
        r is None ==> *final(world) == *old(world),
        r matches Some(p) ==> final(world).spec_get(p) == Some(BlockInner::spec_air()),
        r matches Some(p) ==> edited(*old(world), *final(world), p, BlockInner::spec_air()),
{
    let target = break_target(world, ray, REACH);
    match target {
        Some(p) => {
            proof {
                lemma_first_solid_loaded(*world, snap_positions(ray.spec_grid_snap(), REACH as nat));
                world.lemma_view_len(p.spec_chunk());
            }
            world.set(p, BlockInner::air());
            proof {
                crate::chunk_data::lemma_set_then_get(
                    old(world).chunk_view(p.spec_chunk()),
                    p.spec_chunk_relative(),
                    BlockInner::spec_air(),
                );
                crate::coordinates::lemma_chunk_local_inverse(p.0.x as int);
            }
            Some(p)
        },
        None => None,
    }
}

/// Places `block` where `place_target` picks, starting from the block
/// `start` that holds the viewer. Returns the position filled, if any.
pub fn place_block(world: &mut ChunkManager, ray: &Ray, start: BlockPosition, block: BlockInner) -> (r: Option<BlockPosition>)
    requires
        old(world).wf(),
        ray.wf(),
    ensures
        final(world).wf(),
        r == last_free(*old(world), snap_positions(ray.spec_grid_snap(), REACH as nat), start),
        r is None ==> *final(world) == *old(world),
        r matches Some(p) ==> (old(world).is_loaded(p.spec_chunk()) ==> edited(*old(world), *final(world), p, block)),
        r matches Some(p) ==> (!old(world).is_loaded(p.spec_chunk()) ==> final(world).pending() == old(world).pending()
            && forall|q: ChunkPosition| #[trigger] final(world).is_loaded(q) == old(world).is_loaded(q)),
{
    let target = place_target(world, ray, start, REACH);
    match target {
        Some(p) => {
            world.set(p, block);
            Some(p)
        },
        None => None,
    }
}

proof fn lemma_first_solid_loaded(world: ChunkManager, s: Seq<BlockPosition>)
    ensures
        first_solid(world, s) matches Some(p) ==> world.is_loaded(p.spec_chunk()),
    decreases s.len(),
{
    if s.len() > 0 {
        lemma_first_solid_loaded(world, s.drop_first());
    }
}

} // verus!
