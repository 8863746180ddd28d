use voxel_world::block::BlockInner;
use voxel_world::block_types::get_block_types;
use voxel_world::chunk_data::ChunkData;
use voxel_world::chunk_mesh::{create_chunk_mesh, AdjacentChunks, ChunkMesh, ChunkMeshBuilder, Face};
use voxel_world::coordinates::BlockVector;

fn mesh_faces(data: &ChunkData, adjacent: &AdjacentChunks) -> ChunkMeshBuilder {
    let blocks = get_block_types();
    let mut builder = ChunkMeshBuilder::empty();
    create_chunk_mesh(data, adjacent, &blocks, &mut builder);
    builder
}

#[test]
fn lone_cube_shows_six_faces() {
    let mut data = ChunkData::filled(BlockInner::air());
    data.set(BlockVector::new(3, 4, 5), BlockInner::stone());
    let builder = mesh_faces(&data, &AdjacentChunks::none());
    assert_eq!(builder.faces.len(), 6);
    for (_, position) in &builder.faces {
        assert_eq!(*position, BlockVector::new(3 - 8, 4 - 8, 5 - 8));
    }
    let normals: Vec<BlockVector> = builder.faces.iter().map(|(f, _)| f.normal).collect();
    assert_eq!(
        normals,
        vec![
            BlockVector::new(0, 1, 0),
            BlockVector::new(1, 0, 0),
            BlockVector::new(0, 0, 1),
            BlockVector::new(0, -1, 0),
            BlockVector::new(-1, 0, 0),
            BlockVector::new(0, 0, -1),
        ]
    );
    let mesh = ChunkMesh::from_builder(builder).expect("a cube has faces");
    assert_eq!(mesh.vertices.len(), 24);
    assert_eq!(mesh.normals.len(), 24);
    assert_eq!(mesh.uvs.len(), 24);
    assert_eq!(mesh.indices.len(), 36);
    assert_eq!(mesh.vertices[0], (1 - 5, 1 - 4, 1 - 3));
    assert_eq!(mesh.vertices[1], (-5, 1 - 4, 1 - 3));
    assert_eq!(mesh.uvs[0], (1, 0, 16));
    assert_eq!(mesh.uvs[3], (2, 1, 16));
    assert_eq!(&mesh.indices[6..12], &[4, 6, 5, 5, 6, 7]);
}

#[test]
fn touching_cubes_hide_their_shared_faces() {
    let mut data = ChunkData::filled(BlockInner::air());
    data.set(BlockVector::new(3, 4, 5), BlockInner::stone());
    data.set(BlockVector::new(4, 4, 5), BlockInner::dirt());
    let builder = mesh_faces(&data, &AdjacentChunks::none());
    assert_eq!(builder.faces.len(), 10);
}

#[test]
fn grass_texture_per_side() {
    let mut data = ChunkData::filled(BlockInner::air());
    data.set(BlockVector::new(0, 0, 0), BlockInner::grass());
    let builder = mesh_faces(&data, &AdjacentChunks::none());
    let textures: Vec<u32> = builder.faces.iter().map(|(f, _)| f.uv_index).collect();
    assert_eq!(textures, vec![0, 3, 3, 2, 3, 3]);
}

#[test]
fn fully_occluded_chunk_has_no_faces() {
    let data = ChunkData::filled(BlockInner::stone());
    let n = ChunkData::filled(BlockInner::stone());
    let adjacent = AdjacentChunks {
        x_positive: Some(&n),
        x_negative: Some(&n),
        y_positive: Some(&n),
        y_negative: Some(&n),
        z_positive: Some(&n),
        z_negative: Some(&n),
    };
    let builder = mesh_faces(&data, &adjacent);
    assert_eq!(builder.faces.len(), 0);
    assert!(ChunkMesh::from_builder(builder).is_none());
}

#[test]
fn missing_neighbors_are_transparent() {
    let data = ChunkData::filled(BlockInner::stone());
    let builder = mesh_faces(&data, &AdjacentChunks::none());
    assert_eq!(builder.faces.len(), 6 * 256);
    let air = ChunkData::filled(BlockInner::air());
    let stone = ChunkData::filled(BlockInner::stone());
    let adjacent = AdjacentChunks {
        x_positive: Some(&stone),
        x_negative: Some(&air),
        y_positive: None,
        y_negative: Some(&stone),
        z_positive: Some(&stone),
        z_negative: Some(&stone),
    };
    assert_eq!(mesh_faces(&data, &adjacent).faces.len(), 2 * 256);
}

#[test]
fn empty_chunk_has_no_mesh() {
    let data = ChunkData::filled(BlockInner::air());
    let builder = mesh_faces(&data, &AdjacentChunks::none());
    assert!(ChunkMesh::from_builder(builder).is_none());
}

#[test]
fn builder_adds_faces_in_order() {
    let mut builder = ChunkMeshBuilder::empty();
    let face = Face::new(
        BlockVector::new(0, 0, 1),
        BlockVector::new(0, 0, 0),
        BlockVector::new(2, 0, 0),
        BlockVector::new(0, 3, 0),
        4,
        6,
    );
    builder.add_face(face, BlockVector::new(10, 20, 30));
    let mesh = ChunkMesh::from_builder(builder).unwrap();
    assert_eq!(mesh.vertices, vec![(10, 20, 30), (12, 20, 30), (10, 23, 30), (12, 23, 30)]);
    assert_eq!(mesh.uvs, vec![(2, 1, 4), (3, 1, 4), (2, 2, 4), (3, 2, 4)]);
    assert_eq!(mesh.indices, vec![0, 2, 1, 1, 2, 3]);
    assert_eq!(mesh.normals, vec![(0, 0, 1); 4]);
}
