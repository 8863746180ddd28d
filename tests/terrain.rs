use voxel_world::block::BlockInner;
use voxel_world::coordinates::{BlockVector, ChunkPosition};
use voxel_world::noise::{
    create_perlin_noise, create_perlin_noise_oktaves, div_signed, mod_signed, next_seed_of, write_line, write_perlin_noise,
    zero_map, MAP_CELLS,
};
use voxel_world::world_generation::{generate_chunk, terrain_heights, ChunkUpdate, InMemory};
use voxel_world::coordinates::BlockPosition;

#[test]
fn signed_modulo_and_division_round_down() {
    assert_eq!(mod_signed(-1, 16), 15);
    assert_eq!(mod_signed(-16, 16), 0);
    assert_eq!(mod_signed(17, 16), 1);
    assert_eq!(mod_signed(i64::MIN, 3), 1);
    assert_eq!(div_signed(-1, 16), -1);
    assert_eq!(div_signed(-17, 16), -2);
    assert_eq!(div_signed(33, 16), 2);
    assert_eq!(div_signed(i64::MIN, 2), i64::MIN / 2);
}

#[test]
fn generation_is_deterministic() {
    let positions = [ChunkPosition::new(0, 0, 0), ChunkPosition::new(-3, 0, 5), ChunkPosition::new(2, 1, 2)];
    for p in positions {
        let a = generate_chunk(42, p);
        let b = generate_chunk(42, p);
        assert!(a.same_blocks(&b));
        assert_eq!(a.iter(), b.iter());
    }
    let mut provider = InMemory::with_seed(42);
    let c = provider.load_chunk(ChunkPosition::new(-3, 0, 5));
    assert!(c.same_blocks(&generate_chunk(42, ChunkPosition::new(-3, 0, 5))));
}

#[test]
fn chunks_off_the_ground_layer_are_air() {
    let data = generate_chunk(7, ChunkPosition::new(1, 1, 1));
    assert!(data.iter().iter().all(|(_, b)| *b == BlockInner::air()));
    let below = generate_chunk(7, ChunkPosition::new(0, -1, 0));
    assert!(below.iter().iter().all(|(_, b)| *b == BlockInner::air()));
}

#[test]
fn ground_columns_are_solid_from_the_bottom() {
    let data = generate_chunk(99, ChunkPosition::new(0, 0, 0));
    for x in 0..16 {
        for z in 0..16 {
            let mut seen_air = false;
            let mut tops = 0;
            for y in 0..16 {
                let b = data.get(BlockVector::new(x, y, z)).unwrap();
                if b == BlockInner::air() {
                    seen_air = true;
                } else {
                    assert!(!seen_air, "solid block above air");
                    if b == BlockInner::grass() {
                        tops += 1;
                    }
                }
            }
            assert_ne!(data.get(BlockVector::new(x, 0, z)), Some(BlockInner::air()));
            assert_eq!(tops, 1);
        }
    }
}

#[test]
fn heights_follow_the_layers() {
    let heights = terrain_heights(5, 32, -48);
    assert_eq!(heights.len(), MAP_CELLS);
    let s1 = next_seed_of(5);
    let s2 = next_seed_of(s1);
    let s3 = next_seed_of(s2);
    let mut map = create_perlin_noise(5, 32, -48, 64, 0, 2048);
    write_perlin_noise(&mut map, s1, 32, -48, 16, 0, 512);
    write_perlin_noise(&mut map, s2, 32, -48, 4, 0, 205);
    write_perlin_noise(&mut map, s3, 32, -48, 2, 0, 51);
    assert_eq!(heights, map);
    assert!(heights.iter().all(|h| (0..=2816).contains(h)));
}

#[test]
fn noise_tiles_across_chunk_borders() {
    let left = create_perlin_noise(11, 0, 0, 8, 0, 1000);
    let right = create_perlin_noise(11, 8, 0, 8, 0, 1000);
    for x in 0..8 {
        for z in 0..16 {
            assert_eq!(left[(x + 8) * 16 + z], right[x * 16 + z]);
        }
    }
    let back = create_perlin_noise(11, 0, -16, 8, 0, 1000);
    let front = create_perlin_noise(11, 0, -8, 8, 0, 1000);
    for x in 0..16 {
        for z in 0..8 {
            assert_eq!(back[x * 16 + z + 8], front[x * 16 + z]);
        }
    }
}

#[test]
fn noise_interpolates_between_grid_samples() {
    let map = create_perlin_noise(3, 0, 0, 16, 100, 200);
    assert!(map.iter().all(|v| (100..=200).contains(v)));
    let mut line = Vec::new();
    write_line(&mut line, 3, 0, 0, 16, 100, 200);
    assert_eq!(line.len(), 16);
    assert_eq!(map[0], line[0] / 16);
    let flat = create_perlin_noise(3, 0, 0, 4, 50, 50);
    assert!(flat.iter().all(|v| *v == 50));
}

#[test]
fn octaves_add_halving_layers() {
    let stacked = create_perlin_noise_oktaves(8, 0, 0, 4, 0, 100);
    let mut expected = zero_map();
    write_perlin_noise(&mut expected, 8, 0, 0, 4, 0, 51);
    let s1 = next_seed_of(8);
    write_perlin_noise(&mut expected, s1, 0, 0, 2, 0, 25);
    let s2 = next_seed_of(s1);
    write_perlin_noise(&mut expected, s2, 0, 0, 1, 0, 12);
    assert_eq!(stacked, expected);
}

#[test]
fn provider_keeps_nothing() {
    let mut provider = InMemory::with_seed(1);
    assert_eq!(provider.get_chunk_update(), None);
    let update = ChunkUpdate::BlockUpdate(BlockPosition::new(-1, 17, 40), BlockInner::stone());
    assert_eq!(update.position(), ChunkPosition::new(-1, 1, 2));
    provider.apply_chunk_update(update);
    assert_eq!(provider, InMemory::with_seed(1));
    let _random = InMemory::new();
}
