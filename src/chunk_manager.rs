//! The registry of loaded chunks: loading and unloading around a reference
//! point, block edits, and the set of chunks whose mesh must be rebuilt.
use vstd::prelude::*;
use crate::block::BlockInner;
use crate::chunk_data::{local_index, ChunkData, VOLUME};
use crate::coordinates::{BlockPosition, ChunkPosition, BlockVector, MAX_CHILD};
use crate::world_generation::{generated, InMemory};
use crate::collider::Vec3;
use crate::block_types::BlockType;
use crate::chunk_mesh::{mesh_of, chunk_faces, create_chunk_mesh, lemma_chunk_faces_ok, opt_view, AdjacentChunks, ChunkMesh, ChunkMeshBuilder};
use itertools::Itertools;

verus! {

/// Bound on the magnitude of the coordinates of a chunk the manager holds.
pub const MANAGED_LIMIT: i64 = 0x2000_0000;

/// Largest load radius, in world units (64 chunk lengths).
pub const MAX_LOAD_RADIUS: i64 = 0x4_0000;

/// Largest unload radius, in world units.
pub const MAX_UNLOAD_RADIUS: i64 = 0x1_0000_0000;

/// Largest half-width, in chunks, of the cube of candidates a scope update
/// looks at.
pub const MAX_WINDOW: i64 = 64;

/// World units per chunk edge.
pub const CHUNK_UNITS: i64 = 4096;

/// The center of chunk coordinate `c`, in world units.
pub open spec fn center_unit(c: int) -> int {
    c * CHUNK_UNITS + CHUNK_UNITS / 2
}

/// The squared distance from the center of chunk `p` to point `r`, in
/// world units.
pub open spec fn dist2(p: ChunkPosition, r: Vec3) -> int {
    let dx = center_unit(p.x as int) - r.x;
    let dy = center_unit(p.y as int) - r.y;
    let dz = center_unit(p.z as int) - r.z;
    dx * dx + dy * dy + dz * dz
}

/// The square of a radius of `d` world units.
pub open spec fn radius2(d: int) -> int {
    d * d
}

/// The half-width, in chunks, of the cube of candidates for a load radius
/// of `d` world units: `d` in chunk lengths, rounded up.
pub open spec fn window(d: int) -> int {
    (d + CHUNK_UNITS - 1) / (CHUNK_UNITS as int)
}

/// The offset in slot `i` of the cube `[-r, r]`³ listed in lexicographic
/// order.
pub open spec fn cube_offset(r: int, i: int) -> (i64, i64, i64) {
    let n = 2 * r + 1;
    ((i / (n * n) - r) as i64, ((i / n) % n - r) as i64, (i % n - r) as i64)
}

/// Relies on itertools' `cartesian_product`, which yields the pairs of its
/// two iterators with the first one outer: nested twice over `-r..=r`, the
/// offsets of the cube `[-r, r]`³ in lexicographic order.
#[verifier::external_body]
fn offset_cube(r: i64) -> (v: Vec<(i64, i64, i64)>)
    requires
        0 <= r <= MAX_WINDOW,
    ensures
        v@.len() == (2 * r + 1) * (2 * r + 1) * (2 * r + 1),
        forall|i: int| 0 <= i < v@.len() ==> #[trigger] v@[i] == cube_offset(r as int, i),
{
    (-r..=r).cartesian_product(-r..=r).cartesian_product(-r..=r).map(|((x, y), z)| (x, y, z)).collect()
}

/// Whether a chunk position lies in the range the manager holds.
pub open spec fn managed(p: ChunkPosition) -> bool {
    -MANAGED_LIMIT <= p.x <= MANAGED_LIMIT && -MANAGED_LIMIT <= p.y <= MANAGED_LIMIT && -MANAGED_LIMIT
        <= p.z <= MANAGED_LIMIT
}

/// The six chunks that share a face with `p`.
pub open spec fn face_neighbor(p: ChunkPosition, q: ChunkPosition) -> bool {
    let dx = q.x - p.x;
    let dy = q.y - p.y;
    let dz = q.z - p.z;
    (dx == 1 || dx == -1) && dy == 0 && dz == 0 || dx == 0 && (dy == 1 || dy == -1) && dz == 0 || dx
        == 0 && dy == 0 && (dz == 1 || dz == -1)
}


proof fn lemma_axis_window(qc: int, rc: int, pcc: int, d: int)
    requires
        0 <= d,
        pcc == rc / CHUNK_UNITS as int,
        (center_unit(qc) - rc) * (center_unit(qc) - rc) <= radius2(d),
    ensures
        -window(d) <= qc - pcc <= window(d),
{
    let a = center_unit(qc) - rc;
    assert(-d <= a <= d) by (nonlinear_arith)
        requires
            a * a <= d * d,
            0 <= d,
    ;
    vstd::arithmetic::div_mod::lemma_fundamental_div_mod(rc, CHUNK_UNITS as int);
    vstd::arithmetic::div_mod::lemma_mod_bound(rc, CHUNK_UNITS as int);
    vstd::arithmetic::div_mod::lemma_fundamental_div_mod(d + 4095, 4096);
    vstd::arithmetic::div_mod::lemma_mod_bound(d + 4095, 4096);
    let w = window(d);
    assert(4096 * w >= d);
    let f = rc % CHUNK_UNITS as int;
    assert(a == 4096 * (qc - pcc) + 2048 - f);
    assert(-w <= qc - pcc <= w) by (nonlinear_arith)
        requires
            a == 4096 * (qc - pcc) + 2048 - f,
            0 <= f < 4096,
            -d <= a <= d,
            4096 * w >= d,
    ;
}

/// A chunk whose center lies within `d` world units of `r` lies in the
/// cube of half-width `window(d)` around the chunk that holds `r`.
proof fn lemma_window(q: ChunkPosition, r: Vec3, pc: ChunkPosition, d: int)
    requires
        0 <= d,
        pc.x == (r.x as int) / (CHUNK_UNITS as int),
        pc.y == (r.y as int) / (CHUNK_UNITS as int),
        pc.z == (r.z as int) / (CHUNK_UNITS as int),
        dist2(q, r) <= radius2(d),
    ensures
        -window(d) <= q.x - pc.x <= window(d),
        -window(d) <= q.y - pc.y <= window(d),
        -window(d) <= q.z - pc.z <= window(d),
{
    let dx = center_unit(q.x as int) - r.x;
    let dy = center_unit(q.y as int) - r.y;
    let dz = center_unit(q.z as int) - r.z;
    assert(dx * dx >= 0 && dy * dy >= 0 && dz * dz >= 0) by (nonlinear_arith);
    lemma_axis_window(q.x as int, r.x as int, pc.x as int, d);
    lemma_axis_window(q.y as int, r.y as int, pc.y as int, d);
    lemma_axis_window(q.z as int, r.z as int, pc.z as int, d);
}

/// Every offset of the cube `[-d, d]`³ has a slot in its lexicographic
/// listing.
proof fn lemma_cube_slot(d: int, dx: int, dy: int, dz: int) -> (j: int)
    requires
        0 <= d,
        -d <= dx <= d,
        -d <= dy <= d,
        -d <= dz <= d,
    ensures
        0 <= j < (2 * d + 1) * (2 * d + 1) * (2 * d + 1),
        cube_offset(d, j) == (dx as i64, dy as i64, dz as i64),
{
    let n = 2 * d + 1;
    let a = dx + d;
    let b = dy + d;
    let c = dz + d;
    let j = a * (n * n) + b * n + c;
    assert(0 <= b * n + c < n * n) by (nonlinear_arith)
        requires
            0 <= b < n,
            0 <= c < n,
    ;
    assert(0 <= j < n * n * n) by (nonlinear_arith)
        requires
            0 <= a < n,
            0 <= b * n + c < n * n,
            j == a * (n * n) + b * n + c,
    ;
    assert(n * n > 0) by (nonlinear_arith)
        requires
            n > 0,
    ;
    vstd::arithmetic::div_mod::lemma_fundamental_div_mod_converse(j, n * n, a, b * n + c);
    assert(j == (a * n + b) * n + c) by (nonlinear_arith)
        requires
            j == a * (n * n) + b * n + c,
    ;
    vstd::arithmetic::div_mod::lemma_fundamental_div_mod_converse(j, n, a * n + b, c);
    vstd::arithmetic::div_mod::lemma_fundamental_div_mod_converse(a * n + b, n, a, b);
    j
}

fn chunk_dist2(q: &ChunkPosition, r: &Vec3) -> (d: i128)
    requires
        managed(*q),
        r.in_range(),
    ensures
        d == dist2(*q, *r),
{
    let dx = (q.x as i128) * 4096 + 2048 - r.x as i128;
    let dy = (q.y as i128) * 4096 + 2048 - r.y as i128;
    let dz = (q.z as i128) * 4096 + 2048 - r.z as i128;
    assert(dx * dx <= 0x10_0000_0000_0000_0000_0000_0000 && dy * dy <= 0x10_0000_0000_0000_0000_0000_0000 && dz * dz
        <= 0x10_0000_0000_0000_0000_0000_0000) by (nonlinear_arith)
        requires
            -0x4_0000_0000_0000 <= dx <= 0x4_0000_0000_0000,
            -0x4_0000_0000_0000 <= dy <= 0x4_0000_0000_0000,
            -0x4_0000_0000_0000 <= dz <= 0x4_0000_0000_0000,
    ;
    assert(dx * dx >= 0 && dy * dy >= 0 && dz * dz >= 0) by (nonlinear_arith);
    dx * dx + dy * dy + dz * dz
}

fn radius2_of(d: i64) -> (r: i128)
    requires
        0 <= d <= MAX_UNLOAD_RADIUS,
    ensures
        r == radius2(d as int),
{
    let u = d as i128;
    assert(u * u <= 0x1_0000_0000 * 0x1_0000_0000) by (nonlinear_arith)
        requires
            0 <= u <= 0x1_0000_0000,
    ;
    u * u
}

/// Whether `q` is the position of one of the chunks from slot `k` on.
pub open spec fn in_suffix(chunks: Seq<Chunk>, k: int, q: ChunkPosition) -> bool {
    exists|j: int| k <= j < chunks.len() && #[trigger] chunks[j].position == q
}


proof fn lemma_chunk_of_reference(c: int)
    requires
        crate::collider::coord_ok(c),
    ensures
        c / 256 / 16 == c / (CHUNK_UNITS as int),
        -0x1000_0001 <= c / (CHUNK_UNITS as int) <= 0x1000_0001,
{
    vstd::arithmetic::div_mod::lemma_fundamental_div_mod(c, 256);
    vstd::arithmetic::div_mod::lemma_mod_bound(c, 256);
    vstd::arithmetic::div_mod::lemma_fundamental_div_mod(c / 256, 16);
    vstd::arithmetic::div_mod::lemma_mod_bound(c / 256, 16);
    let a = c / 256;
    let b = a / 16;
    let r = 256 * (a % 16) + c % 256;
    assert(c == 4096 * b + r && 0 <= r < 4096) by (nonlinear_arith)
        requires
            c == 256 * a + c % 256,
            0 <= c % 256 < 256,
            a == 16 * b + a % 16,
            0 <= a % 16 < 16,
            r == 256 * (a % 16) + c % 256,
    ;
    vstd::arithmetic::div_mod::lemma_fundamental_div_mod_converse(c, 4096, b, r);
    assert(-0x1000_0001 <= b <= 0x1000_0001) by (nonlinear_arith)
        requires
            c == 4096 * b + r,
            0 <= r < 4096,
            -0x100_0000_0000 <= c <= 0x100_0000_0000,
    ;
}

proof fn lemma_cube_offset_bounds(d: int, i: int)
    requires
        0 <= d,
        0 <= i < (2 * d + 1) * (2 * d + 1) * (2 * d + 1),
    ensures
        -d <= cube_offset(d, i).0 <= d,
        -d <= cube_offset(d, i).1 <= d,
        -d <= cube_offset(d, i).2 <= d,
{
    let n = 2 * d + 1;
    assert(n * n > 0) by (nonlinear_arith)
        requires
            n > 0,
    ;
    vstd::arithmetic::div_mod::lemma_mod_bound(i, n);
    vstd::arithmetic::div_mod::lemma_mod_bound(i / n, n);
    vstd::arithmetic::div_mod::lemma_div_pos_is_pos(i, n);
    vstd::arithmetic::div_mod::lemma_div_pos_is_pos(i, n * n);
    vstd::arithmetic::div_mod::lemma_fundamental_div_mod(i, n * n);
    vstd::arithmetic::div_mod::lemma_mod_bound(i, n * n);
    assert(i / (n * n) < n) by (nonlinear_arith)
        requires
            i == (n * n) * (i / (n * n)) + i % (n * n),
            0 <= i % (n * n),
            i < n * n * n,
            n * n > 0,
    ;
}

/// `after` is `before` with the pending list emptied and nothing else
/// changed.
pub open spec fn drained(before: ChunkManager, after: ChunkManager) -> bool {
    &&& after.pending().len() == 0
    &&& after.seed() == before.seed()
    &&& after.load_radius() == before.load_radius()
    &&& after.unload_radius() == before.unload_radius()
    &&& forall|q: ChunkPosition| #[trigger] after.is_loaded(q) == before.is_loaded(q)
    &&& forall|q: ChunkPosition| #[trigger] after.chunk_view(q) == before.chunk_view(q)
}

/// Draining twice with nothing in between: the second drain has no
/// rebuild to do.
pub proof fn lemma_drain_idempotent(first: ChunkManager, second: ChunkManager)
    requires
        drained(first, second),
    ensures
        second.remesh_work().len() == 0,
{
    assert(second.pending().filter(|p: ChunkPosition| second.is_loaded(p)) =~= Seq::<ChunkPosition>::empty());
}

/// One loaded chunk.
pub struct Chunk {
    pub position: ChunkPosition,
    pub data: ChunkData,
}

/// The registry of loaded chunks.
pub struct ChunkManager {
    chunks: Vec<Chunk>,
    player_chunk: ChunkPosition,
    chunk_loading_distance: i64,
    chunk_discard_distance: i64,
    chunk_rerender: Vec<ChunkPosition>,
    provider: InMemory,
}

impl ChunkManager {
    /// Positions are unique, managed, and the pending list has no
    /// duplicates.
    pub closed spec fn wf(&self) -> bool {
        &&& forall|i: int, j: int|
            0 <= i < j < self.chunks@.len() ==> self.chunks@[i].position != self.chunks@[j].position
        &&& forall|i: int| 0 <= i < self.chunks@.len() ==> managed(#[trigger] self.chunks@[i].position)
        &&& forall|i: int| 0 <= i < self.chunks@.len() ==> (#[trigger] self.chunks@[i]).data@.len() == VOLUME
        &&& self.chunk_rerender@.no_duplicates()
        &&& 0 <= self.chunk_loading_distance <= MAX_LOAD_RADIUS
        &&& 0 <= self.chunk_discard_distance <= MAX_UNLOAD_RADIUS
    }

    /// Whether the chunk at `p` is loaded.
    pub closed spec fn is_loaded(&self, p: ChunkPosition) -> bool {
        exists|i: int| 0 <= i < self.chunks@.len() && #[trigger] self.chunks@[i].position == p
    }

    /// The positions of the loaded chunks.
    pub closed spec fn positions(&self) -> Seq<ChunkPosition> {
        self.chunks@.map_values(|c: Chunk| c.position)
    }

    /// The blocks of the loaded chunk at `p`.
    pub closed spec fn chunk_view(&self, p: ChunkPosition) -> Seq<BlockInner> {
        let i = choose|i: int| 0 <= i < self.chunks@.len() && #[trigger] self.chunks@[i].position == p;
        self.chunks@[i].data@
    }

    /// The positions waiting for a mesh rebuild, in the order they were
    /// marked.
    pub closed spec fn pending(&self) -> Seq<ChunkPosition> {
        self.chunk_rerender@
    }

    /// The seed chunks are generated from.
    pub closed spec fn seed(&self) -> u64 {
        self.provider.seed
    }

    pub closed spec fn load_radius(&self) -> int {
        self.chunk_loading_distance as int
    }

    pub closed spec fn unload_radius(&self) -> int {
        self.chunk_discard_distance as int
    }

    /// The rebuilds a drain performs: the pending positions whose chunk is
    /// loaded, in order.
    pub open spec fn remesh_work(&self) -> Seq<ChunkPosition> {
        self.pending().filter(|p: ChunkPosition| self.is_loaded(p))
    }

    /// An empty registry around `current_position`, loading chunks within
    /// `load_distance` world units (`CHUNK_UNITS` per chunk length) of the
    /// reference point and dropping those beyond `unload_distance`. Keeping the load distance at most the
    /// unload distance is the operator's responsibility.
    pub fn new(provider: InMemory, current_position: ChunkPosition, load_distance: i64, unload_distance: i64) -> (r: ChunkManager)
        requires
            0 <= load_distance <= MAX_LOAD_RADIUS,
            0 <= unload_distance <= MAX_UNLOAD_RADIUS,
        ensures
            r.wf(),
            forall|p: ChunkPosition| !r.is_loaded(p),
            r.pending().len() == 0,
            r.seed() == provider.seed,
            r.load_radius() == load_distance,
            r.unload_radius() == unload_distance,
    {
        ChunkManager {
            chunks: Vec::new(),
            player_chunk: current_position,
            chunk_loading_distance: load_distance,
            chunk_discard_distance: unload_distance,
            chunk_rerender: Vec::new(),
            provider,
        }
    }

    fn find(&self, p: &ChunkPosition) -> (r: Option<usize>)
        requires
            self.wf(),
        ensures
            r matches Some(i) ==> i < self.chunks@.len() && self.chunks@[i as int].position == *p
                && self.is_loaded(*p) && self.chunk_view(*p) == self.chunks@[i as int].data@,
            r is None ==> !self.is_loaded(*p),
    {
        let mut i: usize = 0;
        while i < self.chunks.len()
            invariant
                i <= self.chunks@.len(),
                self.wf(),
                forall|j: int| 0 <= j < i ==> self.chunks@[j].position != *p,
            decreases self.chunks@.len() - i,
        {
            if self.chunks[i].position == *p {
                proof {
                    let k = choose|k: int| 0 <= k < self.chunks@.len() && #[trigger] self.chunks@[k].position == *p;
                    assert(self.chunks@[i as int].position == *p);
                    if k < i as int {
                        assert(self.chunks@[k].position != self.chunks@[i as int].position);
                    } else if k > i as int {
                        assert(self.chunks@[i as int].position != self.chunks@[k].position);
                    }
                }
                return Some(i);
            }
            i += 1;
        }
        None
    }

    /// Whether the chunk at `p` is loaded.
    pub fn contains(&self, p: &ChunkPosition) -> (r: bool)
        requires
            self.wf(),
        ensures
            r == self.is_loaded(*p),
    {
        self.find(p).is_some()
    }

    /// The number of loaded chunks.
    pub fn loaded_count(&self) -> (r: usize)
        ensures
            r == self.positions().len(),
    {
        self.chunks.len()
    }

    /// The positions of the loaded chunks.
    pub fn loaded_positions(&self) -> (r: Vec<ChunkPosition>)
        ensures
            r@ == self.positions(),
    {
        let mut r: Vec<ChunkPosition> = Vec::new();
        let mut i: usize = 0;
        while i < self.chunks.len()
            invariant
                i <= self.chunks@.len(),
                r@ == self.chunks@.take(i as int).map_values(|c: Chunk| c.position),
            decreases self.chunks@.len() - i,
        {
            r.push(self.chunks[i].position);
            i += 1;
            assert(r@ =~= self.chunks@.take(i as int).map_values(|c: Chunk| c.position));
        }
        assert(self.chunks@.take(i as int) =~= self.chunks@);
        r
    }

    /// The positions waiting for a mesh rebuild, in the order they were
    /// marked.
    pub fn pending_positions(&self) -> (r: Vec<ChunkPosition>)
        ensures
            r@ == self.pending(),
    {
        self.chunk_rerender.clone()
    }

    /// The block at global `position`, or `None` when its chunk is not
    /// loaded.
    pub open spec fn spec_get(&self, position: BlockPosition) -> Option<BlockInner> {
        if self.is_loaded(position.spec_chunk()) {
            Some(self.chunk_view(position.spec_chunk())[local_index(position.spec_chunk_relative())])
        } else {
            None
        }
    }

    /// The block at global `position`, or `None` when its chunk is not
    /// loaded.
    pub fn get(&self, position: BlockPosition) -> (r: Option<BlockInner>)
        requires
            self.wf(),
        ensures
            r == self.spec_get(position),
    {
        let (local, chunk) = position.local();
        match self.find(&chunk) {
            Some(i) => Some(self.chunks[i].data.get_unchecked(local)),
            None => None,
        }
    }

    /// Adds `p` to the pending list unless it is there.
    fn mark(&mut self, p: ChunkPosition)
        requires
            old(self).wf(),
        ensures
            final(self).wf(),
            final(self).chunks == old(self).chunks,
            final(self).player_chunk == old(self).player_chunk,
            final(self).provider == old(self).provider,
            final(self).chunk_loading_distance == old(self).chunk_loading_distance,
            final(self).chunk_discard_distance == old(self).chunk_discard_distance,
            final(self).pending() == if old(self).pending().contains(p) {
                old(self).pending()
            } else {
                old(self).pending().push(p)
            },
            final(self).pending().to_set() == old(self).pending().to_set().insert(p),
    {
        let mut i: usize = 0;
        while i < self.chunk_rerender.len()
            invariant
                i <= self.chunk_rerender@.len(),
                *self == *old(self),
                old(self).wf(),
                forall|j: int| 0 <= j < i ==> self.chunk_rerender@[j] != p,
            decreases self.chunk_rerender@.len() - i,
        {
            if self.chunk_rerender[i] == p {
                assert(self.pending().contains(p)) by {
                    assert(self.pending()[i as int] == p);
                }
                assert(self.pending().to_set() =~= old(self).pending().to_set().insert(p));
                return;
            }
            i += 1;
        }
        self.chunk_rerender.push(p);
        proof {
            assert(!old(self).pending().contains(p));
            assert forall|q: ChunkPosition| self.pending().contains(q) <==> old(self).pending().contains(q) || q == p by {
                if self.pending().contains(q) {
                    let j = choose|j: int| 0 <= j < self.pending().len() && self.pending()[j] == q;
                    if j < old(self).pending().len() {
                        assert(old(self).pending()[j] == q);
                    }
                }
                if old(self).pending().contains(q) {
                    let j = choose|j: int| 0 <= j < old(self).pending().len() && old(self).pending()[j] == q;
                    assert(self.pending()[j] == q);
                }
                if q == p {
                    assert(self.pending()[self.pending().len() - 1] == q);
                }
            }
            assert(self.pending().to_set() =~= old(self).pending().to_set().insert(p));
            assert(self.chunk_rerender@.no_duplicates()) by {
                assert forall|a: int, b: int| 0 <= a < b < self.chunk_rerender@.len() implies self.chunk_rerender@[a] != self.chunk_rerender@[b] by {
                    if b == self.chunk_rerender@.len() - 1 {
                        assert(old(self).chunk_rerender@[a] != p);
                    }
                }
            }
        }
    }

    /// Every loaded chunk holds `VOLUME` blocks.
    pub proof fn lemma_view_len(&self, p: ChunkPosition)
        requires
            self.wf(),
            self.is_loaded(p),
        ensures
            self.chunk_view(p).len() == VOLUME,
    {
        let i = choose|i: int| 0 <= i < self.chunks@.len() && #[trigger] self.chunks@[i].position == p;
        self.lemma_view_at(i);
    }

    proof fn lemma_view_at(&self, i: int)
        requires
            self.wf(),
            0 <= i < self.chunks@.len(),
        ensures
            self.chunks@[i].data@.len() == VOLUME,
            self.is_loaded(self.chunks@[i].position),
            self.chunk_view(self.chunks@[i].position) == self.chunks@[i].data@,
    {
        let p = self.chunks@[i].position;
        assert(self.chunks@[i].position == p);
        let k = choose|k: int| 0 <= k < self.chunks@.len() && #[trigger] self.chunks@[k].position == p;
        if k < i {
            assert(self.chunks@[k].position != self.chunks@[i].position);
        } else if k > i {
            assert(self.chunks@[i].position != self.chunks@[k].position);
        }
    }

    /// The chunks to rebuild after an edit at `position`: its own chunk,
    /// and each chunk that shares the face the block lies on.
    pub open spec fn remesh_targets(position: BlockPosition) -> Set<ChunkPosition> {
        let c = position.spec_chunk();
        let l = position.spec_chunk_relative();
        Set::empty().insert(c).union(
            Set::new(
                |q: ChunkPosition|
                    (l.x == 0 && q == (ChunkPosition { x: (c.x - 1) as i64, ..c })) || (l.x == MAX_CHILD
                        && q == (ChunkPosition { x: (c.x + 1) as i64, ..c })) || (l.y == 0 && q == (
                    ChunkPosition { y: (c.y - 1) as i64, ..c })) || (l.y == MAX_CHILD && q == (
                    ChunkPosition { y: (c.y + 1) as i64, ..c })) || (l.z == 0 && q == (ChunkPosition {
                        z: (c.z - 1) as i64,
                        ..c
                    })) || (l.z == MAX_CHILD && q == (ChunkPosition { z: (c.z + 1) as i64, ..c })),
            ),
        )
    }

    /// Stores `block` at global `position` when its chunk is loaded, and
    /// marks for rebuilding its chunk and each neighbor chunk whose shared
    /// face the block lies on. Returns whether the edit was made; when the
    /// chunk is not loaded nothing changes.
    pub fn set(&mut self, position: BlockPosition, block: BlockInner) -> (r: bool)
        requires
            old(self).wf(),
        ensures
            final(self).wf(),
            r == old(self).is_loaded(position.spec_chunk()),
            final(self).seed() == old(self).seed(),
            final(self).load_radius() == old(self).load_radius(),
            final(self).unload_radius() == old(self).unload_radius(),
            forall|q: ChunkPosition| final(self).is_loaded(q) == old(self).is_loaded(q),
            forall|q: ChunkPosition|
                old(self).is_loaded(q) && q != position.spec_chunk() ==> final(self).chunk_view(q)
                    == old(self).chunk_view(q),
            r ==> final(self).chunk_view(position.spec_chunk()) == old(self).chunk_view(
                position.spec_chunk(),
            ).update(local_index(position.spec_chunk_relative()), block),
            r ==> final(self).pending().to_set() == old(self).pending().to_set().union(
                ChunkManager::remesh_targets(position),
            ),
            !r ==> final(self).pending() == old(self).pending(),
    {
        let (local, chunk) = position.local();
        match self.find(&chunk) {
            None => false,
            Some(i) => {
                self.chunks[i].data.set(local, block);
                proof {
                    self.lemma_same_positions(*old(self), i as int);
                }
                let ghost edited = *self;
                self.mark(chunk);
                if local.x == 0 {
                    self.mark(chunk.with_x(-1));
                }
                if local.x == MAX_CHILD {
                    self.mark(chunk.with_x(1));
                }
                if local.y == 0 {
                    self.mark(chunk.with_y(-1));
                }
                if local.y == MAX_CHILD {
                    self.mark(chunk.with_y(1));
                }
                if local.z == 0 {
                    self.mark(chunk.with_z(-1));
                }
                if local.z == MAX_CHILD {
                    self.mark(chunk.with_z(1));
                }
                proof {
                    assert(self.chunks == edited.chunks);
                    assert(self.pending().to_set() =~= old(self).pending().to_set().union(
                        ChunkManager::remesh_targets(position),
                    ));
                }
                true
            },
        }
    }

    /// After the chunk at slot `i` had its blocks changed and nothing else,
    /// every other view, and the set of loaded positions, are unchanged.
    proof fn lemma_same_positions(&self, before: ChunkManager, i: int)
        requires
            before.wf(),
            0 <= i < before.chunks@.len(),
            self.chunks@.len() == before.chunks@.len(),
            self.chunks@[i].position == before.chunks@[i].position,
            self.chunks@[i].data@.len() == VOLUME,
            forall|j: int| 0 <= j < self.chunks@.len() && j != i ==> self.chunks@[j] == before.chunks@[j],
            self.chunk_rerender == before.chunk_rerender,
            self.chunk_loading_distance == before.chunk_loading_distance,
            self.chunk_discard_distance == before.chunk_discard_distance,
        ensures
            self.wf(),
            forall|q: ChunkPosition| self.is_loaded(q) == before.is_loaded(q),
            forall|q: ChunkPosition|
                before.is_loaded(q) && q != before.chunks@[i].position ==> self.chunk_view(q) == before.chunk_view(q),
            self.chunk_view(before.chunks@[i].position) == self.chunks@[i].data@,
    {
        assert forall|a: int, b: int| 0 <= a < b < self.chunks@.len() implies self.chunks@[a].position != self.chunks@[b].position by {
            assert(before.chunks@[a].position != before.chunks@[b].position);
        }
        assert forall|a: int| 0 <= a < self.chunks@.len() implies managed(#[trigger] self.chunks@[a].position) by {
            assert(managed(before.chunks@[a].position));
        }
        assert forall|a: int| 0 <= a < self.chunks@.len() implies (#[trigger] self.chunks@[a]).data@.len() == VOLUME by {
            if a != i {
                assert(before.chunks@[a].data@.len() == VOLUME);
            }
        }
        assert forall|q: ChunkPosition| self.is_loaded(q) == before.is_loaded(q) by {
            if self.is_loaded(q) {
                let j = choose|j: int| 0 <= j < self.chunks@.len() && #[trigger] self.chunks@[j].position == q;
                assert(before.chunks@[j].position == q);
            }
            if before.is_loaded(q) {
                let j = choose|j: int| 0 <= j < before.chunks@.len() && #[trigger] before.chunks@[j].position == q;
                assert(self.chunks@[j].position == q);
            }
        }
        assert forall|q: ChunkPosition|
            before.is_loaded(q) && q != before.chunks@[i].position implies self.chunk_view(q) == before.chunk_view(q) by {
            let j = choose|j: int| 0 <= j < before.chunks@.len() && #[trigger] before.chunks@[j].position == q;
            before.lemma_view_at(j);
            self.lemma_view_at(j);
        }
        self.lemma_view_at(i);
    }

    /// The loaded face neighbors of `p`.
    pub open spec fn loaded_neighbors(&self, p: ChunkPosition) -> Set<ChunkPosition> {
        Set::new(|q: ChunkPosition| face_neighbor(p, q) && self.is_loaded(q))
    }

    fn mark_if_loaded(&mut self, q: ChunkPosition)
        requires
            old(self).wf(),
        ensures
            final(self).wf(),
            final(self).chunks == old(self).chunks,
            final(self).player_chunk == old(self).player_chunk,
            final(self).provider == old(self).provider,
            final(self).chunk_loading_distance == old(self).chunk_loading_distance,
            final(self).chunk_discard_distance == old(self).chunk_discard_distance,
            final(self).pending().to_set() == if old(self).is_loaded(q) {
                old(self).pending().to_set().insert(q)
            } else {
                old(self).pending().to_set()
            },
    {
        if self.contains(&q) {
            self.mark(q);
        }
    }

    /// Loads the chunk at `p` from the provider when it is not loaded, and
    /// then marks for rebuilding it and every loaded chunk that shares a
    /// face with it. Returns whether it was loaded now; when it was loaded
    /// already nothing changes.
    pub fn load_chunk(&mut self, p: ChunkPosition) -> (r: bool)
        requires
            old(self).wf(),
            managed(p),
        ensures
            final(self).wf(),
            r == !old(self).is_loaded(p),
            final(self).seed() == old(self).seed(),
            final(self).load_radius() == old(self).load_radius(),
            final(self).unload_radius() == old(self).unload_radius(),
            forall|q: ChunkPosition| final(self).is_loaded(q) == (old(self).is_loaded(q) || q == p),
            forall|q: ChunkPosition| old(self).is_loaded(q) ==> final(self).chunk_view(q) == old(self).chunk_view(q),
            r ==> final(self).chunk_view(p) == generated(old(self).seed(), p),
            r ==> final(self).pending().to_set() == old(self).pending().to_set().insert(p).union(
                old(self).loaded_neighbors(p),
            ),
            !r ==> final(self).pending() == old(self).pending(),
    {
        if self.contains(&p) {
            return false;
        }
        let data = self.provider.load_chunk(p);
        let ghost before = *self;
        self.chunks.push(Chunk { position: p, data });
        proof {
            let n = before.chunks@.len() as int;
            assert forall|a: int, b: int| 0 <= a < b < self.chunks@.len() implies self.chunks@[a].position != self.chunks@[b].position by {
                if b == n {
                    assert(before.chunks@[a].position == self.chunks@[a].position);
                    if before.chunks@[a].position == p {
                        assert(before.is_loaded(p));
                    }
                } else {
                    assert(before.chunks@[a].position != before.chunks@[b].position);
                }
            }
            assert forall|a: int| 0 <= a < self.chunks@.len() implies managed(#[trigger] self.chunks@[a].position) by {
                if a < n {
                    assert(managed(before.chunks@[a].position));
                }
            }
            assert forall|q: ChunkPosition| self.is_loaded(q) == (before.is_loaded(q) || q == p) by {
                if self.is_loaded(q) {
                    let j = choose|j: int| 0 <= j < self.chunks@.len() && #[trigger] self.chunks@[j].position == q;
                    if j < n {
                        assert(before.chunks@[j].position == q);
                    }
                }
                if before.is_loaded(q) {
                    let j = choose|j: int| 0 <= j < before.chunks@.len() && #[trigger] before.chunks@[j].position == q;
                    assert(self.chunks@[j].position == q);
                }
                if q == p {
                    assert(self.chunks@[n].position == q);
                }
            }
            assert forall|q: ChunkPosition| before.is_loaded(q) implies self.chunk_view(q) == before.chunk_view(q) by {
                let j = choose|j: int| 0 <= j < before.chunks@.len() && #[trigger] before.chunks@[j].position == q;
                before.lemma_view_at(j);
                self.lemma_view_at(j);
            }
            self.lemma_view_at(n);
        }
        let ghost loaded = *self;
        self.mark(p);
        self.mark_if_loaded(p.with_x(1));
        self.mark_if_loaded(p.with_x(-1));
        self.mark_if_loaded(p.with_y(1));
        self.mark_if_loaded(p.with_y(-1));
        self.mark_if_loaded(p.with_z(1));
        self.mark_if_loaded(p.with_z(-1));
        proof {
            assert(self.chunks == loaded.chunks);
            assert forall|q: ChunkPosition| #[trigger] face_neighbor(p, q) implies q != p && (q == p.with_x_spec(1)
                || q == p.with_x_spec(-1) || q == p.with_y_spec(1) || q == p.with_y_spec(-1) || q
                == p.with_z_spec(1) || q == p.with_z_spec(-1)) by {}
            assert(self.pending().to_set() =~= old(self).pending().to_set().insert(p).union(
                old(self).loaded_neighbors(p),
            ));
        }
        true
    }

    /// Moves the reference point to `reference` (world units): loads every
    /// chunk whose center lies within the load radius, then unloads every
    /// chunk whose center lies beyond the unload radius.
    /// Loading comes first, so a chunk inside both radii stays loaded.
    pub fn update_chunk_scope(&mut self, reference: Vec3)
        requires
            old(self).wf(),
            reference.in_range(),
        ensures
            final(self).wf(),
            final(self).seed() == old(self).seed(),
            final(self).load_radius() == old(self).load_radius(),
            final(self).unload_radius() == old(self).unload_radius(),
            forall|q: ChunkPosition|
                #[trigger] final(self).is_loaded(q) == ((old(self).is_loaded(q) || dist2(q, reference) <= radius2(
                    old(self).load_radius(),
                )) && dist2(q, reference) <= radius2(old(self).unload_radius())),
            forall|q: ChunkPosition|
                final(self).is_loaded(q) && old(self).is_loaded(q) ==> #[trigger] final(self).chunk_view(q)
                    == old(self).chunk_view(q),
            forall|q: ChunkPosition|
                final(self).is_loaded(q) && !old(self).is_loaded(q) ==> #[trigger] final(self).chunk_view(q)
                    == generated(old(self).seed(), q),
            forall|q: ChunkPosition|
                final(self).is_loaded(q) && !old(self).is_loaded(q) ==> #[trigger] final(self).pending().contains(q),
            forall|q: ChunkPosition| old(self).pending().contains(q) ==> #[trigger] final(self).pending().contains(q),
            forall|q: ChunkPosition, n: ChunkPosition|
                #[trigger] face_neighbor(q, n) && final(self).is_loaded(q) && !old(self).is_loaded(q) && final(self).is_loaded(n)
                    ==> final(self).pending().contains(n),
    {
        let pc = ChunkPosition::new(
            crate::coordinates::chunk_coordinate(crate::ray::block_coordinate(reference.x)),
            crate::coordinates::chunk_coordinate(crate::ray::block_coordinate(reference.y)),
            crate::coordinates::chunk_coordinate(crate::ray::block_coordinate(reference.z)),
        );
        proof {
            lemma_chunk_of_reference(reference.x as int);
            lemma_chunk_of_reference(reference.y as int);
            lemma_chunk_of_reference(reference.z as int);
        }
        self.player_chunk = pc;
        let ld = self.chunk_loading_distance;
        let load2 = radius2_of(ld);
        let w = (ld + CHUNK_UNITS - 1) / CHUNK_UNITS;
        assert(w == window(ld as int));
        assert(0 <= w <= MAX_WINDOW);
        let offs = offset_cube(w);
        let ghost start = *self;
        let mut k: usize = 0;
        while k < offs.len()
            invariant
                k <= offs@.len(),
                offs@.len() == (2 * w + 1) * (2 * w + 1) * (2 * w + 1),
                forall|i: int| 0 <= i < offs@.len() ==> #[trigger] offs@[i] == cube_offset(w as int, i),
                w == window(ld as int),
                0 <= w <= MAX_WINDOW,
                self.wf(),
                start.wf(),
                ld == self.chunk_loading_distance,
                load2 == radius2(ld as int),
                reference.in_range(),
                pc.x == (reference.x as int) / (CHUNK_UNITS as int),
                pc.y == (reference.y as int) / (CHUNK_UNITS as int),
                pc.z == (reference.z as int) / (CHUNK_UNITS as int),
                -0x1000_0001 <= pc.x <= 0x1000_0001,
                -0x1000_0001 <= pc.y <= 0x1000_0001,
                -0x1000_0001 <= pc.z <= 0x1000_0001,
                self.provider == old(self).provider,
                self.chunk_loading_distance == old(self).chunk_loading_distance,
                self.chunk_discard_distance == old(self).chunk_discard_distance,
                start.chunks == old(self).chunks,
                start.chunk_rerender == old(self).chunk_rerender,
                forall|q: ChunkPosition| #[trigger] self.is_loaded(q) ==> old(self).is_loaded(q) || dist2(q, reference) <= load2,
                forall|q: ChunkPosition| old(self).is_loaded(q) ==> #[trigger] self.is_loaded(q),
                forall|j: int|
                    0 <= j < k ==> ({
                        let o = #[trigger] offs@[j];
                        let q = ChunkPosition { x: (pc.x + o.0) as i64, y: (pc.y + o.1) as i64, z: (pc.z + o.2) as i64 };
                        dist2(q, reference) <= load2 ==> self.is_loaded(q)
                    }),
                forall|q: ChunkPosition| old(self).is_loaded(q) ==> #[trigger] self.chunk_view(q) == old(self).chunk_view(q),
                forall|q: ChunkPosition|
                    self.is_loaded(q) && !old(self).is_loaded(q) ==> #[trigger] self.chunk_view(q) == generated(old(self).seed(), q)
                        && self.pending().contains(q),
                forall|q: ChunkPosition| old(self).pending().contains(q) ==> #[trigger] self.pending().contains(q),
                forall|q: ChunkPosition, n: ChunkPosition|
                    #[trigger] face_neighbor(q, n) && self.is_loaded(q) && !old(self).is_loaded(q) && self.is_loaded(n)
                        ==> self.pending().contains(n),
            decreases offs@.len() - k,
        {
            let o = offs[k];
            assert(o == cube_offset(w as int, k as int));
            proof {
                lemma_cube_offset_bounds(w as int, k as int);
            }
            let q = ChunkPosition::new(pc.x + o.0, pc.y + o.1, pc.z + o.2);
            let ghost before = *self;
            if chunk_dist2(&q, &reference) <= load2 {
                self.load_chunk(q);
                proof {
                    assert forall|q2: ChunkPosition| before.pending().contains(q2) implies #[trigger] self.pending().contains(q2) by {
                        assert(before.pending().to_set().contains(q2));
                        assert(self.pending().to_set().contains(q2));
                    }
                    if !before.is_loaded(q) {
                        assert(self.pending().to_set().contains(q));
                    }
                    assert forall|a: ChunkPosition, n: ChunkPosition|
                        #[trigger] face_neighbor(a, n) && self.is_loaded(a) && !old(self).is_loaded(a) && self.is_loaded(n)
                            implies self.pending().contains(n) by {
                        if !before.is_loaded(q) {
                            if n == q {
                                assert(self.pending().to_set().contains(n));
                            } else if a == q {
                                assert(before.is_loaded(n));
                                assert(before.loaded_neighbors(q).contains(n));
                                assert(self.pending().to_set().contains(n));
                            } else {
                                assert(before.is_loaded(a) && before.is_loaded(n));
                                assert(before.pending().contains(n));
                            }
                        } else {
                            assert(before.pending().contains(n));
                        }
                    }
                }
            }
            k += 1;
        }
        proof {
            assert forall|q: ChunkPosition| dist2(q, reference) <= load2 implies #[trigger] self.is_loaded(q) by {
                lemma_window(q, reference, pc, ld as int);
                let j = lemma_cube_slot(w as int, q.x - pc.x, q.y - pc.y, q.z - pc.z);
                assert(offs@[j] == cube_offset(w as int, j));
            }
        }
        let ghost loaded = *self;
        self.unload_far(reference);
        proof {
            assert(self.pending() == loaded.pending());
            assert forall|q: ChunkPosition|
                self.is_loaded(q) && !old(self).is_loaded(q) implies #[trigger] self.pending().contains(q) by {
                assert(loaded.is_loaded(q));
                assert(loaded.chunk_view(q) == generated(old(self).seed(), q));
                assert(loaded.pending().contains(q));
            }
            assert forall|q: ChunkPosition| old(self).pending().contains(q) implies #[trigger] self.pending().contains(q) by {
                assert(loaded.pending().contains(q));
            }
            assert forall|q: ChunkPosition, n: ChunkPosition|
                #[trigger] face_neighbor(q, n) && self.is_loaded(q) && !old(self).is_loaded(q) && self.is_loaded(n)
                    implies self.pending().contains(n) by {
                assert(loaded.is_loaded(q) && loaded.is_loaded(n));
            }
            assert forall|q: ChunkPosition| self.is_loaded(q) && old(self).is_loaded(q) implies #[trigger] self.chunk_view(q)
                == old(self).chunk_view(q) by {
                assert(loaded.chunk_view(q) == old(self).chunk_view(q));
            }
            assert forall|q: ChunkPosition| self.is_loaded(q) && !old(self).is_loaded(q) implies #[trigger] self.chunk_view(q)
                == generated(old(self).seed(), q) by {
                assert(loaded.is_loaded(q));
            }
        }
    }

    /// Drops every chunk whose center lies beyond the unload radius from
    /// `reference`.
    fn unload_far(&mut self, reference: Vec3)
        requires
            old(self).wf(),
            reference.in_range(),
        ensures
            final(self).wf(),
            final(self).provider == old(self).provider,
            final(self).chunk_loading_distance == old(self).chunk_loading_distance,
            final(self).chunk_discard_distance == old(self).chunk_discard_distance,
            final(self).chunk_rerender == old(self).chunk_rerender,
            forall|q: ChunkPosition|
                #[trigger] final(self).is_loaded(q) == (old(self).is_loaded(q) && dist2(q, reference) <= radius2(
                    old(self).unload_radius(),
                )),
            forall|q: ChunkPosition| final(self).is_loaded(q) ==> #[trigger] final(self).chunk_view(q) == old(self).chunk_view(q),
    {
        let unload2 = radius2_of(self.chunk_discard_distance);
        let mut taken: Vec<Chunk> = Vec::new();
        std::mem::swap(&mut self.chunks, &mut taken);
        let ghost orig = taken@;
        let ghost mid = *old(self);
        assert(mid.chunks@ == orig);
        while taken.len() > 0
            invariant
                taken@ == orig.take(taken@.len() as int),
                taken@.len() <= orig.len(),
                mid.wf(),
                mid.chunks@ == orig,
                unload2 == radius2(mid.unload_radius()),
                reference.in_range(),
                self.provider == old(self).provider,
                self.chunk_loading_distance == old(self).chunk_loading_distance,
                self.chunk_discard_distance == old(self).chunk_discard_distance,
                self.chunk_rerender == old(self).chunk_rerender,
                self.wf(),
                forall|q: ChunkPosition|
                    #[trigger] self.is_loaded(q) == (in_suffix(orig, taken@.len() as int, q) && dist2(q, reference) <= unload2),
                forall|q: ChunkPosition| self.is_loaded(q) ==> #[trigger] self.chunk_view(q) == mid.chunk_view(q),
            decreases taken@.len(),
        {
            let ghost t = taken@.len() - 1;
            let c = taken.pop().unwrap();
            assert(c == orig[t]);
            proof {
                assert(managed(orig[t].position));
            }
            let ghost before = *self;
            if chunk_dist2(&c.position, &reference) <= unload2 {
                self.chunks.push(c);
                proof {
                    let n = before.chunks@.len() as int;
                    assert forall|a: int, b: int| 0 <= a < b < self.chunks@.len() implies self.chunks@[a].position != self.chunks@[b].position by {
                        if b == n {
                            let p = self.chunks@[a].position;
                            assert(before.chunks@[a].position == p);
                            assert(before.is_loaded(p));
                            let j = choose|j: int| t + 1 <= j < orig.len() && #[trigger] orig[j].position == p;
                            assert(orig[j].position != orig[t].position);
                        } else {
                            assert(before.chunks@[a].position != before.chunks@[b].position);
                        }
                    }
                    assert forall|a: int| 0 <= a < self.chunks@.len() implies managed(#[trigger] self.chunks@[a].position) by {
                        if a < n {
                            assert(managed(before.chunks@[a].position));
                        }
                    }
                    assert forall|q: ChunkPosition|
                        #[trigger] self.is_loaded(q) == (in_suffix(orig, t, q) && dist2(q, reference) <= unload2) by {
                        if self.is_loaded(q) {
                            let j = choose|j: int| 0 <= j < self.chunks@.len() && #[trigger] self.chunks@[j].position == q;
                            if j < n {
                                assert(before.chunks@[j].position == q);
                                assert(before.is_loaded(q));
                                let w = choose|w: int| t + 1 <= w < orig.len() && #[trigger] orig[w].position == q;
                                assert(orig[w].position == q);
                            } else {
                                assert(orig[t].position == q);
                            }
                        }
                        if in_suffix(orig, t, q) && dist2(q, reference) <= unload2 {
                            let w = choose|w: int| t <= w < orig.len() && #[trigger] orig[w].position == q;
                            if w == t {
                                assert(self.chunks@[n].position == q);
                            } else {
                                assert(in_suffix(orig, t + 1, q));
                                assert(before.is_loaded(q));
                                let j = choose|j: int| 0 <= j < before.chunks@.len() && #[trigger] before.chunks@[j].position == q;
                                assert(self.chunks@[j].position == q);
                            }
                        }
                    }
                    assert forall|q: ChunkPosition| self.is_loaded(q) implies #[trigger] self.chunk_view(q) == mid.chunk_view(q) by {
                        let j = choose|j: int| 0 <= j < self.chunks@.len() && #[trigger] self.chunks@[j].position == q;
                        self.lemma_view_at(j);
                        if j < n {
                            before.lemma_view_at(j);
                        } else {
                            mid.lemma_view_at(t);
                        }
                    }
                }
            } else {
                proof {
                    assert forall|q: ChunkPosition|
                        #[trigger] self.is_loaded(q) == (in_suffix(orig, t, q) && dist2(q, reference) <= unload2) by {
                        if in_suffix(orig, t, q) && dist2(q, reference) <= unload2 {
                            let w = choose|w: int| t <= w < orig.len() && #[trigger] orig[w].position == q;
                            if w != t {
                                assert(in_suffix(orig, t + 1, q));
                            }
                        }
                        if in_suffix(orig, t + 1, q) {
                            let w = choose|w: int| t + 1 <= w < orig.len() && #[trigger] orig[w].position == q;
                            assert(in_suffix(orig, t, q));
                        }
                    }
                }
            }
        }
        proof {
            assert forall|q: ChunkPosition| #[trigger] in_suffix(orig, 0, q) == mid.is_loaded(q) by {
                if in_suffix(orig, 0, q) {
                    let w = choose|w: int| 0 <= w < orig.len() && #[trigger] orig[w].position == q;
                    assert(mid.chunks@[w].position == q);
                }
                if mid.is_loaded(q) {
                    let w = choose|w: int| 0 <= w < mid.chunks@.len() && #[trigger] mid.chunks@[w].position == q;
                    assert(orig[w].position == q);
                }
            }
        }
    }

    /// The neighbor chunks of `p` in face order (+y, +x, +z, -y, -x, -z),
    /// each absent when not loaded.
    pub open spec fn adjacent_views(&self, p: ChunkPosition) -> Seq<Option<Seq<BlockInner>>> {
        seq![
            self.view_if_loaded(p.with_y_spec(1)),
            self.view_if_loaded(p.with_x_spec(1)),
            self.view_if_loaded(p.with_z_spec(1)),
            self.view_if_loaded(p.with_y_spec(-1)),
            self.view_if_loaded(p.with_x_spec(-1)),
            self.view_if_loaded(p.with_z_spec(-1)),
        ]
    }

    pub open spec fn view_if_loaded(&self, p: ChunkPosition) -> Option<Seq<BlockInner>> {
        if self.is_loaded(p) {
            Some(self.chunk_view(p))
        } else {
            None
        }
    }

    fn data_of(&self, p: &ChunkPosition) -> (r: Option<&ChunkData>)
        requires
            self.wf(),
        ensures
            opt_view(r) == self.view_if_loaded(*p),
    {
        match self.find(p) {
            Some(i) => Some(&self.chunks[i].data),
            None => None,
        }
    }

    /// The mesh of the loaded chunk at `p`, `None` when it shows no face.
    pub fn build_mesh(&self, p: &ChunkPosition, blocks: &Vec<BlockType>) -> (r: Option<ChunkMesh>)
        requires
            self.wf(),
            self.is_loaded(*p),
        ensures
            mesh_of(chunk_faces(self.chunk_view(*p), self.adjacent_views(*p), blocks@, VOLUME as int), r),
    {
        let i = self.find(p).unwrap();
        proof {
            assert(managed(self.chunks@[i as int].position));
        }
        let adjacent = AdjacentChunks {
            x_positive: self.data_of(&p.with_x(1)),
            x_negative: self.data_of(&p.with_x(-1)),
            y_positive: self.data_of(&p.with_y(1)),
            y_negative: self.data_of(&p.with_y(-1)),
            z_positive: self.data_of(&p.with_z(1)),
            z_negative: self.data_of(&p.with_z(-1)),
        };
        assert(adjacent.spec_seq() =~= self.adjacent_views(*p));
        let mut builder = ChunkMeshBuilder::empty();
        create_chunk_mesh(&self.chunks[i].data, &adjacent, blocks, &mut builder);
        proof {
            let faces = chunk_faces(self.chunk_view(*p), self.adjacent_views(*p), blocks@, VOLUME as int);
            assert(builder.faces@ =~= faces);
            lemma_chunk_faces_ok(self.chunk_view(*p), self.adjacent_views(*p), blocks@, VOLUME as int);
        }
        ChunkMesh::from_builder(builder)
    }

    /// Rebuilds the mesh of every pending chunk that is loaded, in the
    /// order they were marked, skips the pending positions whose chunk was
    /// unloaded, and empties the pending list.
    pub fn drain_remesh(&mut self, blocks: &Vec<BlockType>) -> (r: Vec<(ChunkPosition, Option<ChunkMesh>)>)
        requires
            old(self).wf(),
        ensures
            final(self).wf(),
            drained(*old(self), *final(self)),
            r@.len() == old(self).remesh_work().len(),
            forall|k: int|
                0 <= k < r@.len() ==> (#[trigger] r@[k]).0 == old(self).remesh_work()[k] && mesh_of(
                    chunk_faces(old(self).chunk_view(r@[k].0), old(self).adjacent_views(r@[k].0), blocks@, VOLUME as int),
                    r@[k].1,
                ),
    {
        let mut pending: Vec<ChunkPosition> = Vec::new();
        std::mem::swap(&mut self.chunk_rerender, &mut pending);
        let ghost work = old(self).remesh_work();
        let mut r: Vec<(ChunkPosition, Option<ChunkMesh>)> = Vec::new();
        let mut j: usize = 0;
        while j < pending.len()
            invariant
                j <= pending@.len(),
                pending@ == old(self).pending(),
                self.chunks == old(self).chunks,
                self.provider == old(self).provider,
                self.chunk_loading_distance == old(self).chunk_loading_distance,
                self.chunk_discard_distance == old(self).chunk_discard_distance,
                self.chunk_rerender@.len() == 0,
                old(self).wf(),
                self.wf(),
                work == old(self).remesh_work(),
                r@.len() == pending@.take(j as int).filter(|p: ChunkPosition| old(self).is_loaded(p)).len(),
                forall|k: int|
                    0 <= k < r@.len() ==> (#[trigger] r@[k]).0 == pending@.take(j as int).filter(
                        |p: ChunkPosition| old(self).is_loaded(p),
                    )[k] && mesh_of(
                        chunk_faces(old(self).chunk_view(r@[k].0), old(self).adjacent_views(r@[k].0), blocks@, VOLUME as int),
                        r@[k].1,
                    ),
            decreases pending@.len() - j,
        {
            let p = pending[j];
            let ghost before = r@;
            let ghost f = |q: ChunkPosition| old(self).is_loaded(q);
            let ghost s1 = pending@.take(j + 1);
            proof {
                assert(s1.len() == j + 1);
                assert(s1.drop_last() =~= pending@.take(j as int));
                assert(s1.last() == p);
                reveal_with_fuel(Seq::filter, 2);
                assert(s1.filter(f) == if f(p) {
                    pending@.take(j as int).filter(f).push(p)
                } else {
                    pending@.take(j as int).filter(f)
                });
                assert(self.adjacent_views(p) == old(self).adjacent_views(p));
                assert(self.chunk_view(p) == old(self).chunk_view(p));
            }
            if self.contains(&p) {
                let mesh = self.build_mesh(&p, blocks);
                r.push((p, mesh));
                proof {
                    assert forall|k: int| 0 <= k < r@.len() implies (#[trigger] r@[k]).0 == s1.filter(f)[k] && mesh_of(
                        chunk_faces(old(self).chunk_view(r@[k].0), old(self).adjacent_views(r@[k].0), blocks@, VOLUME as int),
                        r@[k].1,
                    ) by {
                        if k < before.len() {
                            assert(r@[k] == before[k]);
                        }
                    }
                }
            }
            j += 1;
        }
        assert(pending@.take(j as int) =~= pending@);
        r
    }
}

} // verus!
