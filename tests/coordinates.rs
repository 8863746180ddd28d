use voxel_world::coordinates::{chunk_coordinate, local_coordinate, BlockPosition, BlockVector, ChunkPosition, CHUNK_SIZE};

#[test]
fn chunk_and_local_recompose_every_coordinate() {
    let mut samples: Vec<i64> = (-70..70).collect();
    samples.push(i64::MIN);
    samples.push(i64::MAX);
    samples.push(-1_000_003);
    for c in samples {
        let chunk = chunk_coordinate(c);
        let local = local_coordinate(c);
        assert!((0..CHUNK_SIZE).contains(&local));
        assert_eq!(chunk as i128 * CHUNK_SIZE as i128 + local as i128, c as i128);
    }
}

#[test]
fn negative_coordinates_round_down() {
    assert_eq!(chunk_coordinate(-1), -1);
    assert_eq!(local_coordinate(-1), 15);
    assert_eq!(chunk_coordinate(-16), -1);
    assert_eq!(local_coordinate(-16), 0);
    assert_eq!(chunk_coordinate(-17), -2);
    assert_eq!(local_coordinate(-17), 15);
    assert_eq!(chunk_coordinate(31), 1);
    assert_eq!(local_coordinate(31), 15);
}

#[test]
fn chunk_plus_local_offset_round_trips() {
    let chunks = [ChunkPosition::new(0, 0, 0), ChunkPosition::new(-3, 2, 7), ChunkPosition::new(-1, -1, -1)];
    let offsets = [BlockVector::new(0, 0, 0), BlockVector::new(5, 0, 15), BlockVector::new(15, 15, 15)];
    for p in chunks {
        for v in offsets {
            let b = p + v;
            assert_eq!(b.chunk(), p);
            assert_eq!(b.chunk_relative(), v);
            assert_eq!(b.local(), (v, p));
        }
    }
    let b = ChunkPosition::new(-3, 2, 7) + BlockVector::new(5, 0, 15);
    assert_eq!(b, BlockPosition::new(-43, 32, 127));
    assert_eq!(b.relative_to(&ChunkPosition::new(-3, 2, 7)), BlockVector::new(5, 0, 15));
}

#[test]
fn fits_checks_each_component() {
    assert!(BlockVector::new(0, 15, 3).fits());
    assert!(!BlockVector::new(16, 0, 0).fits());
    assert!(!BlockVector::new(0, -1, 0).fits());
    assert!(!BlockVector::new(0, 0, 16).fits());
}

#[test]
fn with_adds_to_one_component() {
    let v = BlockVector::new(1, 2, 3);
    assert_eq!(v.with_x(4), BlockVector::new(5, 2, 3));
    assert_eq!(v.with_y(-4), BlockVector::new(1, -2, 3));
    assert_eq!(v.with_z(10), BlockVector::new(1, 2, 13));
    let c = ChunkPosition::new(1, 2, 3);
    assert_eq!(c.with_x(-1), ChunkPosition::new(0, 2, 3));
    assert_eq!(c.with_y(1), ChunkPosition::new(1, 3, 3));
    assert_eq!(c.with_z(2), ChunkPosition::new(1, 2, 5));
    let p = BlockPosition::new(1, 2, 3);
    assert_eq!(p.with_x(1), BlockPosition::new(2, 2, 3));
    assert_eq!(p.with_y(1), BlockPosition::new(1, 3, 3));
    assert_eq!(p.with_z(1), BlockPosition::new(1, 2, 4));
}

#[test]
fn block_position_accessors_read_their_own_axis() {
    let p = BlockPosition::new(1, 2, 3);
    assert_eq!((p.x(), p.y(), p.z()), (1, 2, 3));
    assert_eq!(BlockPosition::zero(), BlockPosition::new(0, 0, 0));
    assert_eq!(BlockVector::new(-1, 17, 33).chunk_relative(), BlockVector::new(15, 1, 1));
    assert_eq!(BlockVector::new(4, 5, 6).global(), BlockPosition::new(4, 5, 6));
}

#[test]
fn adjacent_lists_the_six_neighbors_in_order() {
    let v = BlockVector::new(0, 0, 0);
    assert_eq!(
        v.adjacent(),
        vec![
            BlockVector::new(1, 0, 0),
            BlockVector::new(0, 1, 0),
            BlockVector::new(0, 0, 1),
            BlockVector::new(-1, 0, 0),
            BlockVector::new(0, -1, 0),
            BlockVector::new(0, 0, -1),
        ]
    );
    let p = BlockPosition::new(10, 20, 30);
    assert_eq!(p.adjacent()[4], BlockPosition::new(10, 19, 30));
}

#[test]
fn vector_arithmetic() {
    let a = BlockVector::new(1, 2, 3);
    let b = BlockVector::new(4, -5, 6);
    assert_eq!(a.plus(&b), BlockVector::new(5, -3, 9));
    assert_eq!(a.minus(&b), BlockVector::new(-3, 7, -3));
    assert_eq!(a.scaled(-2), BlockVector::new(-2, -4, -6));
    assert_eq!(a.negated(), BlockVector::new(-1, -2, -3));
    let p = BlockPosition::new(1, 1, 1);
    assert_eq!(p.offset(&b), BlockPosition::new(5, -4, 7));
    assert_eq!(BlockPosition::new(5, -4, 7).difference(&p), b);
}
