//! Face-culled surface meshes of chunks.
use vstd::prelude::*;
use crate::block::{spec_is_opaque, BlockInner, Side, Sides};
use crate::block_types::{cube_textures, cube_textures_of, BlockType};
use crate::chunk_data::{index_position, lemma_index_position, lemma_position_index, local_index, ChunkData, VOLUME};
use crate::coordinates::{local_fits, local_of, BlockVector};

verus! {

/// Resolution of the texture atlas: it holds `UV_RESOLUTION`² textures.
pub const UV_RESOLUTION: u32 = 16;

/// Half the edge length of a chunk; face positions are relative to the
/// chunk's center.
pub const HALF_CHUNK: i64 = 8;

/// One quad: its outward normal, its first corner, the two edges from that
/// corner, and its texture in the atlas.
#[derive(Copy, Clone, PartialEq, Eq, Debug, Structural)]
pub struct Face {
    pub normal: BlockVector,
    pub start: BlockVector,
    pub ax1: BlockVector,
    pub ax2: BlockVector,
    pub uv_resolution: u32,
    pub uv_index: u32,
}

impl Face {
    pub fn new(
        normal: BlockVector,
        start: BlockVector,
        ax1: BlockVector,
        ax2: BlockVector,
        uv_resolution: u32,
        uv_index: u32,
    ) -> (r: Face)
        ensures
            r == (Face { normal, start, ax1, ax2, uv_resolution, uv_index }),
    {
        Face { normal, start, ax1, ax2, uv_resolution, uv_index }
    }
}

pub open spec fn bv(x: int, y: int, z: int) -> BlockVector {
    BlockVector { x: x as i64, y: y as i64, z: z as i64 }
}

/// The direction of face `k` of a cube, in emission order: +y, +x, +z, -y,
/// -x, -z.
pub open spec fn face_offset(k: int) -> BlockVector {
    if k == 0 {
        bv(0, 1, 0)
    } else if k == 1 {
        bv(1, 0, 0)
    } else if k == 2 {
        bv(0, 0, 1)
    } else if k == 3 {
        bv(0, -1, 0)
    } else if k == 4 {
        bv(-1, 0, 0)
    } else {
        bv(0, 0, -1)
    }
}

/// The texture side of face `k`.
pub open spec fn face_side(k: int) -> Side {
    if k == 0 {
        Side::Top
    } else if k == 1 {
        Side::Front
    } else if k == 2 {
        Side::Left
    } else if k == 3 {
        Side::Bottom
    } else if k == 4 {
        Side::Back
    } else {
        Side::Right
    }
}

/// Face `k` of a unit cube at the origin, wound so that its normal points
/// outward.
pub open spec fn face_template(k: int, textures: Sides<u32>) -> Face {
    let tex = textures.values@[face_side(k).spec_index()];
    if k == 0 {
        Face { normal: bv(0, 1, 0), start: bv(1, 1, 1), ax1: bv(-1, 0, 0), ax2: bv(0, 0, -1), uv_resolution: UV_RESOLUTION, uv_index: tex }
    } else if k == 1 {
        Face { normal: bv(1, 0, 0), start: bv(1, 1, 1), ax1: bv(0, 0, -1), ax2: bv(0, -1, 0), uv_resolution: UV_RESOLUTION, uv_index: tex }
    } else if k == 2 {
        Face { normal: bv(0, 0, 1), start: bv(0, 1, 1), ax1: bv(1, 0, 0), ax2: bv(0, -1, 0), uv_resolution: UV_RESOLUTION, uv_index: tex }
    } else if k == 3 {
        Face { normal: bv(0, -1, 0), start: bv(0, 0, 0), ax1: bv(0, 0, 1), ax2: bv(1, 0, 0), uv_resolution: UV_RESOLUTION, uv_index: tex }
    } else if k == 4 {
        Face { normal: bv(-1, 0, 0), start: bv(0, 1, 0), ax1: bv(0, 0, 1), ax2: bv(0, -1, 0), uv_resolution: UV_RESOLUTION, uv_index: tex }
    } else {
        Face { normal: bv(0, 0, -1), start: bv(1, 1, 0), ax1: bv(-1, 0, 0), ax2: bv(0, -1, 0), uv_resolution: UV_RESOLUTION, uv_index: tex }
    }
}

fn face_for(k: usize, textures: &Sides<u32>) -> (r: Face)
    requires
        k < 6,
    ensures
        r == face_template(k as int, *textures),
{
    let res = UV_RESOLUTION;
    if k == 0 {
        Face::new(BlockVector::new(0, 1, 0), BlockVector::new(1, 1, 1), BlockVector::new(-1, 0, 0), BlockVector::new(0, 0, -1), res, textures.get(Side::Top))
    } else if k == 1 {
        Face::new(BlockVector::new(1, 0, 0), BlockVector::new(1, 1, 1), BlockVector::new(0, 0, -1), BlockVector::new(0, -1, 0), res, textures.get(Side::Front))
    } else if k == 2 {
        Face::new(BlockVector::new(0, 0, 1), BlockVector::new(0, 1, 1), BlockVector::new(1, 0, 0), BlockVector::new(0, -1, 0), res, textures.get(Side::Left))
    } else if k == 3 {
        Face::new(BlockVector::new(0, -1, 0), BlockVector::new(0, 0, 0), BlockVector::new(0, 0, 1), BlockVector::new(1, 0, 0), res, textures.get(Side::Bottom))
    } else if k == 4 {
        Face::new(BlockVector::new(-1, 0, 0), BlockVector::new(0, 1, 0), BlockVector::new(0, 0, 1), BlockVector::new(0, -1, 0), res, textures.get(Side::Back))
    } else {
        Face::new(BlockVector::new(0, 0, -1), BlockVector::new(1, 1, 0), BlockVector::new(-1, 0, 0), BlockVector::new(0, -1, 0), res, textures.get(Side::Right))
    }
}

fn offset_for(k: usize) -> (r: BlockVector)
    requires
        k < 6,
    ensures
        r == face_offset(k as int),
{
    if k == 0 {
        BlockVector::new(0, 1, 0)
    } else if k == 1 {
        BlockVector::new(1, 0, 0)
    } else if k == 2 {
        BlockVector::new(0, 0, 1)
    } else if k == 3 {
        BlockVector::new(0, -1, 0)
    } else if k == 4 {
        BlockVector::new(-1, 0, 0)
    } else {
        BlockVector::new(0, 0, -1)
    }
}

/// The chunk-local offset of a cell next to a chunk.
pub open spec fn wrap_local(p: BlockVector) -> BlockVector {
    BlockVector {
        x: local_of(p.x as int) as i64,
        y: local_of(p.y as int) as i64,
        z: local_of(p.z as int) as i64,
    }
}

/// Whether the cell at `p` (inside the chunk when it fits, else in the
/// neighbor chunk `adj`) lets a face show: it is not opaque, or it lies in
/// a neighbor chunk that is not loaded.
pub open spec fn neighbor_open(data: Seq<BlockInner>, adj: Option<Seq<BlockInner>>, p: BlockVector) -> bool {
    if p.spec_fits() {
        !spec_is_opaque(data[local_index(p)])
    } else {
        match adj {
            None => true,
            Some(a) => !spec_is_opaque(a[local_index(wrap_local(p))]),
        }
    }
}

/// Where the faces of the block at `pos` are placed: its lower corner
/// relative to the chunk's center.
pub open spec fn face_position(pos: BlockVector) -> BlockVector {
    bv(pos.x - HALF_CHUNK, pos.y - HALF_CHUNK, pos.z - HALF_CHUNK)
}

/// The first `k` faces of a cube at `pos` that are not hidden.
pub open spec fn block_faces_upto(
    data: Seq<BlockInner>,
    adj: Seq<Option<Seq<BlockInner>>>,
    textures: Sides<u32>,
    pos: BlockVector,
    k: int,
) -> Seq<(Face, BlockVector)>
    decreases k,
{
    if k <= 0 {
        Seq::empty()
    } else {
        let prev = block_faces_upto(data, adj, textures, pos, k - 1);
        let o = face_offset(k - 1);
        let p = bv(pos.x + o.x, pos.y + o.y, pos.z + o.z);
        if neighbor_open(data, adj[k - 1], p) {
            prev.push((face_template(k - 1, textures), face_position(pos)))
        } else {
            prev
        }
    }
}

/// The faces of the block in slot `i`: those of its cube that are not
/// hidden, or none when its type is not drawn as a cube.
pub open spec fn block_faces(
    data: Seq<BlockInner>,
    adj: Seq<Option<Seq<BlockInner>>>,
    cat: Seq<BlockType>,
    i: int,
) -> Seq<(Face, BlockVector)> {
    match cube_textures(cat, data[i].btype as int) {
        Some(t) => block_faces_upto(data, adj, t, index_position(i), 6),
        None => Seq::empty(),
    }
}

/// The faces of the first `n` slots of a chunk, in slot order.
pub open spec fn chunk_faces(
    data: Seq<BlockInner>,
    adj: Seq<Option<Seq<BlockInner>>>,
    cat: Seq<BlockType>,
    n: int,
) -> Seq<(Face, BlockVector)>
    decreases n,
{
    if n <= 0 {
        Seq::empty()
    } else {
        chunk_faces(data, adj, cat, n - 1) + block_faces(data, adj, cat, n - 1)
    }
}

pub open spec fn opt_view(c: Option<&ChunkData>) -> Option<Seq<BlockInner>> {
    match c {
        Some(d) => Some(d@),
        None => None,
    }
}

/// The six chunks next to a chunk, each absent when not loaded.
pub struct AdjacentChunks<'a> {
    pub x_positive: Option<&'a ChunkData>,
    pub x_negative: Option<&'a ChunkData>,
    pub y_positive: Option<&'a ChunkData>,
    pub y_negative: Option<&'a ChunkData>,
    pub z_positive: Option<&'a ChunkData>,
    pub z_negative: Option<&'a ChunkData>,
}

impl<'a> AdjacentChunks<'a> {
    /// The neighbors in face order: +y, +x, +z, -y, -x, -z.
    pub open spec fn spec_seq(&self) -> Seq<Option<Seq<BlockInner>>> {
        seq![
            opt_view(self.y_positive),
            opt_view(self.x_positive),
            opt_view(self.z_positive),
            opt_view(self.y_negative),
            opt_view(self.x_negative),
            opt_view(self.z_negative),
        ]
    }

    /// No neighbor loaded.
    pub fn none() -> (r: AdjacentChunks<'a>)
        ensures
            forall|k: int| 0 <= k < 6 ==> #[trigger] r.spec_seq()[k] is None,
    {
        AdjacentChunks {
            x_positive: None,
            x_negative: None,
            y_positive: None,
            y_negative: None,
            z_positive: None,
            z_negative: None,
        }
    }

    fn for_face(&self, k: usize) -> (r: Option<&'a ChunkData>)
        requires
            k < 6,
        ensures
            opt_view(r) == self.spec_seq()[k as int],
    {
        if k == 0 {
            self.y_positive
        } else if k == 1 {
            self.x_positive
        } else if k == 2 {
            self.z_positive
        } else if k == 3 {
            self.y_negative
        } else if k == 4 {
            self.x_negative
        } else {
            self.z_negative
        }
    }
}

fn neighbor_is_open(data: &ChunkData, adj: Option<&ChunkData>, p: BlockVector) -> (r: bool)
    ensures
        r == neighbor_open(data@, opt_view(adj), p),
{
    if p.fits() {
        !data.get_unchecked(p).is_opaque()
    } else {
        match adj {
            None => true,
            Some(c) => {
                let rel = p.chunk_relative();
                !c.get_unchecked(rel).is_opaque()
            },
        }
    }
}

/// The faces collected for one mesh, each with the position it is placed
/// at.
pub struct ChunkMeshBuilder {
    pub faces: Vec<(Face, BlockVector)>,
}

impl ChunkMeshBuilder {
    pub fn empty() -> (r: ChunkMeshBuilder)
        ensures
            r.faces@.len() == 0,
    {
        ChunkMeshBuilder { faces: Vec::new() }
    }

    /// Adds `face`, placed at `position`.
    pub fn add_face(&mut self, face: Face, position: BlockVector)
        ensures
            final(self).faces@ == old(self).faces@.push((face, position)),
    {
        self.faces.push((face, position));
    }
}

/// Adds to `builder` the faces of every block of `chunk` that is drawn as a
/// cube and whose neighbor cell on that side lets it show (see
/// `neighbor_open`), in slot order and, per block, in face order.
pub fn create_chunk_mesh(
    chunk: &ChunkData,
    adjacent: &AdjacentChunks,
    blocks: &Vec<BlockType>,
    builder: &mut ChunkMeshBuilder,
)
    ensures
        final(builder).faces@ == old(builder).faces@ + chunk_faces(chunk@, adjacent.spec_seq(), blocks@, VOLUME as int),
{
    let ghost adj = adjacent.spec_seq();
    let mut i: usize = 0;
    while i < VOLUME
        invariant
            i <= VOLUME,
            adj == adjacent.spec_seq(),
            builder.faces@ == old(builder).faces@ + chunk_faces(chunk@, adj, blocks@, i as int),
        decreases VOLUME - i,
    {
        let block = chunk.get_index(i);
        let ghost before = builder.faces@;
        match cube_textures_of(blocks, block.btype) {
            Some(textures) => {
                let pos = BlockVector::new((i / 256) as i64, ((i / 16) % 16) as i64, (i % 16) as i64);
                assert(pos == index_position(i as int));
                proof {
                    lemma_position_index(i as int);
                }
                let mut k: usize = 0;
                while k < 6
                    invariant
                        k <= 6,
                        i < VOLUME,
                        pos == index_position(i as int),
                        pos.spec_fits(),
                        adj == adjacent.spec_seq(),
                        builder.faces@ == before + block_faces_upto(chunk@, adj, textures, pos, k as int),
                    decreases 6 - k,
                {
                    let o = offset_for(k);
                    let p = BlockVector::new(pos.x + o.x, pos.y + o.y, pos.z + o.z);
                    let ghost mid = builder.faces@;
                    if neighbor_is_open(chunk, adjacent.for_face(k), p) {
                        let face = face_for(k, &textures);
                        builder.add_face(face, BlockVector::new(pos.x - HALF_CHUNK, pos.y - HALF_CHUNK, pos.z - HALF_CHUNK));
                        assert(builder.faces@ =~= before + block_faces_upto(chunk@, adj, textures, pos, k + 1));
                    } else {
                        assert(builder.faces@ =~= before + block_faces_upto(chunk@, adj, textures, pos, k + 1));
                    }
                    k += 1;
                }
                assert(builder.faces@ =~= old(builder).faces@ + chunk_faces(chunk@, adj, blocks@, i + 1));
            },
            None => {
                assert(builder.faces@ =~= old(builder).faces@ + chunk_faces(chunk@, adj, blocks@, i + 1));
            },
        }
        i += 1;
    }
}


/// Bound on the magnitude of a face coordinate that a mesh accepts.
pub const MESH_LIMIT: i64 = 0x1_0000_0000;

pub open spec fn small(v: BlockVector) -> bool {
    -MESH_LIMIT <= v.x <= MESH_LIMIT && -MESH_LIMIT <= v.y <= MESH_LIMIT && -MESH_LIMIT <= v.z
        <= MESH_LIMIT
}

/// A face that a mesh accepts: a texture atlas with at least one cell and
/// coordinates within `MESH_LIMIT`.
pub open spec fn face_ok(f: (Face, BlockVector)) -> bool {
    f.0.uv_resolution > 0 && small(f.0.start) && small(f.0.ax1) && small(f.0.ax2) && small(f.0.normal)
        && small(f.1)
}

/// Corner `j` of face `f` placed at `p`: start, start + ax1, start + ax2,
/// start + ax1 + ax2.
pub open spec fn corner(f: Face, p: BlockVector, j: int) -> (i64, i64, i64) {
    let a = if j == 1 || j == 3 { 1int } else { 0int };
    let b = if j == 2 || j == 3 { 1int } else { 0int };
    (
        (f.start.x + a * f.ax1.x + b * f.ax2.x + p.x) as i64,
        (f.start.y + a * f.ax1.y + b * f.ax2.y + p.y) as i64,
        (f.start.z + a * f.ax1.z + b * f.ax2.z + p.z) as i64,
    )
}

/// The atlas coordinate of corner `j` of face `f`, as numerators over the
/// atlas resolution: the texture's cell is column `index % resolution`,
/// row `index / resolution`.
pub open spec fn uv_corner(f: Face, j: int) -> (u64, u64, u32) {
    let a = if j == 1 || j == 3 { 1int } else { 0int };
    let b = if j == 2 || j == 3 { 1int } else { 0int };
    (
        (f.uv_index % f.uv_resolution + a) as u64,
        (f.uv_index / f.uv_resolution + b) as u64,
        f.uv_resolution,
    )
}

/// Slot of corner `j` of face `k` in the per-vertex lists.
pub open spec fn slot4(k: int, j: int) -> int {
    4 * k + j
}

/// Slot of index `j` of face `k` in the index list.
pub open spec fn slot6(k: int, j: int) -> int {
    6 * k + j
}

/// The index offsets of the two triangles of a quad.
pub open spec fn quad_index(j: int) -> int {
    if j == 0 {
        0
    } else if j == 1 {
        2
    } else if j == 2 {
        1
    } else if j == 3 {
        1
    } else if j == 4 {
        2
    } else {
        3
    }
}

/// `r` is the geometry of `faces`: `None` when there is no face, else four
/// vertices per face (corners, normals, atlas coordinates) and six indices
/// per face, in face order.
pub open spec fn mesh_of(faces: Seq<(Face, BlockVector)>, r: Option<ChunkMesh>) -> bool {
    &&& r is None <==> faces.len() == 0
    &&& r matches Some(m) ==> {
        let n = faces.len() as int;
        &&& m.vertices@.len() == 4 * n
        &&& m.normals@.len() == 4 * n
        &&& m.uvs@.len() == 4 * n
        &&& m.indices@.len() == 6 * n
        &&& forall|k: int, j: int|
            0 <= k < n && 0 <= j < 4 ==> #[trigger] m.vertices@[slot4(k, j)] == corner(faces[k].0, faces[k].1, j)
                && m.uvs@[slot4(k, j)] == uv_corner(faces[k].0, j) && m.normals@[slot4(k, j)] == (
                faces[k].0.normal.x,
                faces[k].0.normal.y,
                faces[k].0.normal.z,
            )
        &&& forall|k: int, j: int| 0 <= k < n && 0 <= j < 6 ==> #[trigger] m.indices@[slot6(k, j)] == 4 * k + quad_index(j)
    }
}

/// Triangle-list geometry: four vertices per face, each with its normal
/// and atlas coordinate, and six indices per face.
pub struct ChunkMesh {
    pub vertices: Vec<(i64, i64, i64)>,
    pub normals: Vec<(i64, i64, i64)>,
    pub uvs: Vec<(u64, u64, u32)>,
    pub indices: Vec<u32>,
}

impl ChunkMesh {
    /// The geometry of the builder's faces, in order; `None` when it holds
    /// no face.
    #[verifier::rlimit(40)]
    pub fn from_builder(builder: ChunkMeshBuilder) -> (r: Option<ChunkMesh>)
        requires
            builder.faces@.len() < 0x1000_0000,
            forall|i: int| 0 <= i < builder.faces@.len() ==> face_ok(#[trigger] builder.faces@[i]),
        ensures
            mesh_of(builder.faces@, r),
    {
        let n = builder.faces.len();
        if n == 0 {
            return None;
        }
        let mut vertices: Vec<(i64, i64, i64)> = Vec::new();
        let mut normals: Vec<(i64, i64, i64)> = Vec::new();
        let mut uvs: Vec<(u64, u64, u32)> = Vec::new();
        let mut indices: Vec<u32> = Vec::new();
        let mut k: usize = 0;
        while k < n
            invariant
                n == builder.faces@.len(),
                n < 0x1000_0000,
                k <= n,
                forall|i: int| 0 <= i < builder.faces@.len() ==> face_ok(#[trigger] builder.faces@[i]),
                vertices@.len() == 4 * k,
                normals@.len() == 4 * k,
                uvs@.len() == 4 * k,
                indices@.len() == 6 * k,
                forall|q: int, j: int|
                    0 <= q < k && 0 <= j < 4 ==> #[trigger] vertices@[slot4(q, j)] == corner(
                        builder.faces@[q].0,
                        builder.faces@[q].1,
                        j,
                    ) && uvs@[slot4(q, j)] == uv_corner(builder.faces@[q].0, j) && normals@[4 * q
                        + j] == (
                        builder.faces@[q].0.normal.x,
                        builder.faces@[q].0.normal.y,
                        builder.faces@[q].0.normal.z,
                    ),
                forall|q: int, j: int|
                    0 <= q < k && 0 <= j < 6 ==> #[trigger] indices@[slot6(q, j)] == 4 * q + quad_index(j),
            decreases n - k,
        {
            let (f, p) = builder.faces[k];
            assert(face_ok(builder.faces@[k as int]));
            let sx = f.start.x + p.x;
            let sy = f.start.y + p.y;
            let sz = f.start.z + p.z;
            let ux = f.uv_index % f.uv_resolution;
            let vy = f.uv_index / f.uv_resolution;
            let nv = (f.normal.x, f.normal.y, f.normal.z);
            let ghost v0 = vertices@;
            let ghost u0 = uvs@;
            let ghost n0 = normals@;
            let ghost i0 = indices@;
            let c0 = (sx, sy, sz);
            let c1 = (sx + f.ax1.x, sy + f.ax1.y, sz + f.ax1.z);
            let c2 = (sx + f.ax2.x, sy + f.ax2.y, sz + f.ax2.z);
            let c3 = (sx + f.ax1.x + f.ax2.x, sy + f.ax1.y + f.ax2.y, sz + f.ax1.z + f.ax2.z);
            vertices.push(c0);
            vertices.push(c1);
            vertices.push(c2);
            vertices.push(c3);
            normals.push(nv);
            normals.push(nv);
            normals.push(nv);
            normals.push(nv);
            uvs.push((ux as u64, vy as u64, f.uv_resolution));
            uvs.push((ux as u64 + 1, vy as u64, f.uv_resolution));
            uvs.push((ux as u64, vy as u64 + 1, f.uv_resolution));
            uvs.push((ux as u64 + 1, vy as u64 + 1, f.uv_resolution));
            let base = (4 * k) as u32;
            indices.push(base);
            indices.push(base + 2);
            indices.push(base + 1);
            indices.push(base + 1);
            indices.push(base + 2);
            indices.push(base + 3);
            assert forall|q: int, j: int| 0 <= q <= k && 0 <= j < 4 implies #[trigger] vertices@[slot4(q, j)]
                == corner(builder.faces@[q].0, builder.faces@[q].1, j) && uvs@[slot4(q, j)]
                == uv_corner(builder.faces@[q].0, j) && normals@[slot4(q, j)] == (
                builder.faces@[q].0.normal.x,
                builder.faces@[q].0.normal.y,
                builder.faces@[q].0.normal.z,
            ) by {
                if q < k {
                    assert(vertices@[slot4(q, j)] == v0[4 * q + j]);
                    assert(uvs@[slot4(q, j)] == u0[4 * q + j]);
                    assert(normals@[slot4(q, j)] == n0[4 * q + j]);
                } else {
                    assert(builder.faces@[q] == (f, p));
                    assert(slot4(q, j) == 4 * k + j);
                    if j == 0 {
                        assert(vertices@[4 * k] == c0);
                    } else if j == 1 {
                        assert(vertices@[4 * k + 1] == c1);
                    } else if j == 2 {
                        assert(vertices@[4 * k + 2] == c2);
                    } else {
                        assert(vertices@[4 * k + 3] == c3);
                    }
                }
            }
            assert forall|q: int, j: int| 0 <= q <= k && 0 <= j < 6 implies #[trigger] indices@[slot6(q, j)]
                == 4 * q + quad_index(j) by {
                if q < k {
                    assert(indices@[slot6(q, j)] == i0[6 * q + j]);
                }
            }
            k += 1;
        }
        Some(ChunkMesh { vertices, normals, uvs, indices })
    }
}

/// Every one of the chunk's blocks is opaque.
pub open spec fn all_opaque(s: Seq<BlockInner>) -> bool {
    s.len() == VOLUME && forall|i: int| 0 <= i < VOLUME ==> spec_is_opaque(#[trigger] s[i])
}

proof fn lemma_upto_hidden(
    data: Seq<BlockInner>,
    adj: Seq<Option<Seq<BlockInner>>>,
    textures: Sides<u32>,
    pos: BlockVector,
    k: int,
)
    requires
        0 <= k <= 6,
        pos.spec_fits(),
        all_opaque(data),
        adj.len() == 6,
        forall|q: int| 0 <= q < 6 ==> ((#[trigger] adj[q]) matches Some(a) && all_opaque(a)),
    ensures
        block_faces_upto(data, adj, textures, pos, k) == Seq::<(Face, BlockVector)>::empty(),
    decreases k,
{
    if k > 0 {
        lemma_upto_hidden(data, adj, textures, pos, k - 1);
        let o = face_offset(k - 1);
        let p = bv(pos.x + o.x, pos.y + o.y, pos.z + o.z);
        if p.spec_fits() {
            lemma_index_position(p);
        } else {
            let w = wrap_local(p);
            vstd::arithmetic::div_mod::lemma_mod_bound(p.x as int, 16);
            vstd::arithmetic::div_mod::lemma_mod_bound(p.y as int, 16);
            vstd::arithmetic::div_mod::lemma_mod_bound(p.z as int, 16);
            lemma_index_position(w);
            assert(adj[k - 1] matches Some(a) && all_opaque(a));
        }
    }
}

proof fn lemma_chunk_hidden(
    data: Seq<BlockInner>,
    adj: Seq<Option<Seq<BlockInner>>>,
    cat: Seq<BlockType>,
    n: int,
)
    requires
        0 <= n <= VOLUME,
        all_opaque(data),
        adj.len() == 6,
        forall|q: int| 0 <= q < 6 ==> ((#[trigger] adj[q]) matches Some(a) && all_opaque(a)),
    ensures
        chunk_faces(data, adj, cat, n) == Seq::<(Face, BlockVector)>::empty(),
    decreases n,
{
    if n > 0 {
        lemma_chunk_hidden(data, adj, cat, n - 1);
        match cube_textures(cat, data[n - 1].btype as int) {
            Some(t) => {
                lemma_position_index(n - 1);
                lemma_upto_hidden(data, adj, t, index_position(n - 1), 6);
            },
            None => {},
        }
        assert(chunk_faces(data, adj, cat, n) =~= Seq::<(Face, BlockVector)>::empty());
    }
}

/// A chunk whose blocks are all opaque, with all six neighbor chunks loaded
/// and made of opaque blocks only, has no visible face.
pub proof fn lemma_fully_occluded(
    data: Seq<BlockInner>,
    adj: Seq<Option<Seq<BlockInner>>>,
    cat: Seq<BlockType>,
)
    requires
        all_opaque(data),
        adj.len() == 6,
        forall|q: int| 0 <= q < 6 ==> ((#[trigger] adj[q]) matches Some(a) && all_opaque(a)),
    ensures
        chunk_faces(data, adj, cat, VOLUME as int).len() == 0,
{
    lemma_chunk_hidden(data, adj, cat, VOLUME as int);
}


proof fn lemma_upto_ok(
    data: Seq<BlockInner>,
    adj: Seq<Option<Seq<BlockInner>>>,
    textures: Sides<u32>,
    pos: BlockVector,
    k: int,
)
    requires
        0 <= k <= 6,
        pos.spec_fits(),
    ensures
        block_faces_upto(data, adj, textures, pos, k).len() <= k,
        forall|q: int|
            0 <= q < block_faces_upto(data, adj, textures, pos, k).len() ==> face_ok(
                #[trigger] block_faces_upto(data, adj, textures, pos, k)[q],
            ),
    decreases k,
{
    if k > 0 {
        lemma_upto_ok(data, adj, textures, pos, k - 1);
        let f = face_template(k - 1, textures);
        assert(face_ok((f, face_position(pos))));
    }
}

/// The faces of a chunk are at most six per block, and a mesh accepts
/// each of them.
pub proof fn lemma_chunk_faces_ok(
    data: Seq<BlockInner>,
    adj: Seq<Option<Seq<BlockInner>>>,
    cat: Seq<BlockType>,
    n: int,
)
    requires
        0 <= n <= VOLUME,
    ensures
        chunk_faces(data, adj, cat, n).len() <= 6 * n,
        forall|q: int|
            0 <= q < chunk_faces(data, adj, cat, n).len() ==> face_ok(#[trigger] chunk_faces(data, adj, cat, n)[q]),
    decreases n,
{
    if n > 0 {
        lemma_chunk_faces_ok(data, adj, cat, n - 1);
        let prev = chunk_faces(data, adj, cat, n - 1);
        let b = block_faces(data, adj, cat, n - 1);
        match cube_textures(cat, data[n - 1].btype as int) {
            Some(t) => {
                lemma_position_index(n - 1);
                lemma_upto_ok(data, adj, t, index_position(n - 1), 6);
            },
            None => {},
        }
        assert forall|q: int| 0 <= q < (prev + b).len() implies face_ok(#[trigger] (prev + b)[q]) by {
            if q >= prev.len() {
                assert((prev + b)[q] == b[q - prev.len()]);
            }
        }
    }
}

} // verus!
