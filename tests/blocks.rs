use voxel_world::block::{BlockInfo, BlockInner, Side, Sides, DIRT_ID, GRASS_ID, STONE_ID};
use voxel_world::block_types::{get_block_types, Air, BlockFeel, BlockLook, Cube};
use voxel_world::chunk_data::{ChunkData, VOLUME};
use voxel_world::coordinates::BlockVector;

#[test]
fn flags_contain_and_describe() {
    let both = BlockInfo::powered().union(BlockInfo::block_mesh());
    assert_eq!(both, BlockInfo(3));
    assert!(both.contains(BlockInfo::powered()));
    assert!(both.contains(BlockInfo::block_mesh()));
    assert!(!BlockInfo::powered().contains(both));
    assert!(BlockInfo::powered().contains_any(both));
    assert!(!BlockInfo::empty().contains_any(both));
    assert!(BlockInfo::empty().contains(BlockInfo::empty()));
    assert_eq!(BlockInfo::empty().describe(), "EMPTY");
    assert_eq!(BlockInfo::powered().describe(), "POWERED");
    assert_eq!(BlockInfo::block_mesh().describe(), "BLOCK_MESH");
    assert_eq!(both.describe(), "POWERED | BLOCK_MESH");
}

#[test]
fn named_blocks() {
    assert_eq!(BlockInner::air(), BlockInner { btype: 0, data: 0, info: BlockInfo(0) });
    assert_eq!(BlockInner::stone().btype, STONE_ID);
    assert_eq!(BlockInner::dirt().btype, DIRT_ID);
    assert_eq!(BlockInner::grass().btype, GRASS_ID);
    assert!(BlockInner::wood().is_opaque());
    assert!(!BlockInner::air().is_opaque());
    assert_eq!(BlockInner::log().btype, 5);
}

#[test]
fn sides_are_indexed_by_side() {
    let mut s = Sides::new([0u32, 1, 2, 3, 4, 5]);
    assert_eq!(s.get(Side::Top), 0);
    assert_eq!(s.get(Side::Front), 1);
    assert_eq!(s.get(Side::Back), 2);
    assert_eq!(s.get(Side::Left), 3);
    assert_eq!(s.get(Side::Right), 4);
    assert_eq!(s.get(Side::Bottom), 5);
    s.set(Side::Left, 9);
    assert_eq!(s.inner(), [0, 1, 2, 9, 4, 5]);
    assert_eq!(Sides::filled(7u32).inner(), [7; 6]);
}

#[test]
fn catalogue_lists_six_types() {
    let types = get_block_types();
    assert_eq!(types.len(), 6);
    assert!(matches!(types[0].look, BlockLook::Empty));
    match types[3].look {
        BlockLook::Cube { textures } => assert_eq!(textures.inner(), [0, 3, 3, 3, 3, 2]),
        _ => panic!("grass is a cube"),
    }
    match &types[1].feel {
        BlockFeel::ColliderSet(boxes) => assert_eq!(boxes.len(), 1),
        _ => panic!("stone collides"),
    }
    assert_eq!(Cube::top_side_bottom("log", 21, 20, 21).textures.inner(), [21, 20, 20, 20, 20, 21]);
    assert_eq!(Cube::uniform("wood", 4).textures.inner(), [4; 6]);
    assert!(matches!(Air.get_feel(), BlockFeel::Empty));
}

#[test]
fn set_then_get_returns_the_block() {
    let mut data = ChunkData::filled(BlockInner::air());
    let positions = [BlockVector::new(0, 0, 0), BlockVector::new(15, 15, 15), BlockVector::new(3, 9, 12)];
    for pos in positions {
        let previous = data.set(pos, BlockInner::stone());
        assert_eq!(previous, Some(BlockInner::air()));
        assert_eq!(data.get(pos), Some(BlockInner::stone()));
        assert_eq!(data.get_unchecked(pos), BlockInner::stone());
    }
    let custom = BlockInner { btype: 77, data: 9, info: BlockInfo(1) };
    data.set(BlockVector::new(1, 2, 3), custom);
    assert_eq!(data.get(BlockVector::new(1, 2, 3)), Some(custom));
}

#[test]
fn out_of_range_access_is_absent() {
    let mut data = ChunkData::filled(BlockInner::dirt());
    assert_eq!(data.get(BlockVector::new(16, 0, 0)), None);
    assert_eq!(data.get(BlockVector::new(0, -1, 0)), None);
    assert_eq!(data.set(BlockVector::new(0, 0, 16), BlockInner::stone()), None);
    assert!(data.iter().iter().all(|(_, b)| *b == BlockInner::dirt()));
}

#[test]
fn clear_returns_previous_and_leaves_air() {
    let mut data = ChunkData::filled(BlockInner::grass());
    let pos = BlockVector::new(7, 7, 7);
    assert_eq!(data.clear(pos), BlockInner::grass());
    assert_eq!(data.get(pos), Some(BlockInner::air()));
}

#[test]
fn iteration_is_row_major_and_complete() {
    let mut data = ChunkData::filled(BlockInner::air());
    data.set(BlockVector::new(0, 0, 1), BlockInner::stone());
    let items = data.iter();
    assert_eq!(items.len(), VOLUME);
    assert_eq!(items[0].0, BlockVector::new(0, 0, 0));
    assert_eq!(items[1], (BlockVector::new(0, 0, 1), BlockInner::stone()));
    assert_eq!(items[16].0, BlockVector::new(0, 1, 0));
    assert_eq!(items[256].0, BlockVector::new(1, 0, 0));
    assert_eq!(items[VOLUME - 1].0, BlockVector::new(15, 15, 15));
    assert_eq!(data.iter(), items);
    assert_eq!(data.len(), VOLUME);
}

#[test]
fn same_blocks_compares_contents() {
    let a = ChunkData::filled(BlockInner::air());
    let mut b = ChunkData::filled(BlockInner::air());
    assert!(a.same_blocks(&b));
    b.set(BlockVector::new(2, 2, 2), BlockInner::stone());
    assert!(!a.same_blocks(&b));
}
