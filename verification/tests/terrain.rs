//! Layers, colors and random numbers

use indexmap::IndexSet;
use minedmap::chunk::{Chunk, ChunkSection, PaletteEntry};
use minedmap::flat::{chunk_surface, render_chunk, SurfaceBlock};
use minedmap::heightmap::height_color;
use minedmap::java_random::{is_slime_chunk, JavaRandom};
use minedmap::layer::{
    cave_layer, cave_layer_with_room, has_room, top_layer, top_layer_with_room, BlockHeight,
    LayerData, LayerError,
};
use minedmap::pixels::{overlay_chunk, Pixels};
use minedmap::resource::{BlockColor, BlockType, UnknownBlockMode, UnknownColors};
use minedmap::texture::{block_texels, color_sums, texture_name, TextureAtlas};
use minedmap::types::{
    BlockY, ChunkCoords, LayerBlockArray, LayerBlockCoords, SectionBlockCoords, SectionY,
};

#[test]
fn test_height_color_range() {
    // Endpoints and clamping
    assert_eq!(height_color(-1000), height_color(-64));
    assert_eq!(height_color(1000), height_color(320));
    // Monotonic-ish: a high point is brighter than a low point
    let low = height_color(-32);
    let high = height_color(300);
    let sum = |c: [u8; 3]| c[0] as u32 + c[1] as u32 + c[2] as u32;
    assert!(sum(high) > sum(low));
}

#[test]
fn height_colors_have_exact_values() {
    assert_eq!(height_color(-64), [38, 70, 160]);
    assert_eq!(height_color(-32), [45, 88, 172]);
    assert_eq!(height_color(0), [51, 106, 184]);
    assert_eq!(height_color(64), [167, 192, 129]);
    assert_eq!(height_color(128), [60, 150, 60]);
    assert_eq!(height_color(300), [202, 191, 181]);
    assert_eq!(height_color(320), [245, 245, 245]);
    assert_eq!(height_color(i32::MIN), [38, 70, 160]);
    assert_eq!(height_color(i32::MAX), [245, 245, 245]);
}

#[test]
fn height_colors_agree_with_floating_point() {
    let stops: [(f32, [f32; 3]); 7] = [
        (0.0, [38.0, 70.0, 160.0]),
        (0.28, [60.0, 130.0, 200.0]),
        (0.34, [180.0, 200.0, 120.0]),
        (0.5, [60.0, 150.0, 60.0]),
        (0.68, [150.0, 130.0, 70.0]),
        (0.85, [120.0, 90.0, 60.0]),
        (1.0, [245.0, 245.0, 245.0]),
    ];
    for height in -70..330 {
        let t = ((height as f32 + 64.0) / 384.0).clamp(0.0, 1.0);
        let i = stops.iter().skip(1).position(|stop| t <= stop.0).unwrap();
        let (a, b) = (stops[i], stops[i + 1]);
        let local = (t - a.0) / (b.0 - a.0);
        let mut expected = [0u8; 3];
        for k in 0..3 {
            expected[k] = (a.1[k] + (b.1[k] - a.1[k]) * local).round().clamp(0.0, 255.0) as u8;
        }
        assert_eq!(height_color(height), expected, "height {height}");
    }
}

#[test]
fn test_java_random_known_vectors() {
    // The first two outputs of new Random(0).nextInt() are well-known JDK
    // values; they validate the core generator.
    let mut rng = JavaRandom::new(0);
    assert_eq!(rng.next(32), -1155484576);
    assert_eq!(rng.next(32), -723955400);
}

#[test]
fn test_slime_chunk_density() {
    // Slime chunks occur with probability 1/10, so over a large grid the
    // fraction should be close to 10%.
    let seed = 1234567890;
    let mut count = 0;
    let total = 200 * 200;
    for x in -100..100 {
        for z in -100..100 {
            if is_slime_chunk(seed, x, z) {
                count += 1;
            }
        }
    }
    let fraction = count as f64 / total as f64;
    assert!(
        (0.08..0.12).contains(&fraction),
        "slime fraction out of range: {fraction}"
    );
}

#[test]
fn random_numbers_agree_with_wrapping_arithmetic() {
    for seed in [0i64, 1, -1, 42, i64::MAX, i64::MIN, 0x5DEECE66D] {
        let mut state = (seed ^ 0x5DEECE66D) & ((1 << 48) - 1);
        let mut rng = JavaRandom::new(seed);
        for bits in [1u32, 31, 32, 17, 31, 32] {
            state = state.wrapping_mul(0x5DEECE66D).wrapping_add(0xB) & ((1 << 48) - 1);
            assert_eq!(rng.next(bits), (state >> (48 - bits)) as i32);
        }
    }
}

#[test]
fn random_integers_have_known_values() {
    // new Random(42).nextInt(10) gives 0, 3, 8, 4, 0 in the JDK
    let mut rng = JavaRandom::new(42);
    let values: Vec<i32> = (0..5).map(|_| rng.next_int(10)).collect();
    assert_eq!(values, vec![0, 3, 8, 4, 0]);
    // Powers of two take the high bits
    let mut rng = JavaRandom::new(0);
    assert_eq!(rng.next_int(16), 11);
    // A bound just above half of the range rejects about every other roll
    let mut rng = JavaRandom::new(7);
    for _ in 0..1000 {
        let value = rng.next_int((1 << 30) + 1);
        assert!((0..(1 << 30) + 1).contains(&value));
    }
    let mut rng = JavaRandom::new(7);
    assert_eq!(rng.next_int(1), 0);
}

#[test]
fn slime_chunks_depend_on_wrapping_coordinates() {
    let reference = |world_seed: i64, x: i32, z: i32| {
        let t1 = i64::from(x.wrapping_mul(x).wrapping_mul(0x4c1906));
        let t2 = i64::from(x.wrapping_mul(0x5ac0db));
        let t3 = i64::from(z.wrapping_mul(z)).wrapping_mul(0x4307a7);
        let t4 = i64::from(z.wrapping_mul(0x5f24f));
        let seed = world_seed
            .wrapping_add(t1)
            .wrapping_add(t2)
            .wrapping_add(t3)
            .wrapping_add(t4)
            ^ 0x3ad8025f;
        JavaRandom::new(seed).next_int(10) == 0
    };
    for world_seed in [0, -1, i64::MAX, i64::MIN, 987654321] {
        for x in [-1_000_000, -3, 0, 7, 46341, i32::MAX, i32::MIN] {
            for z in [-1_000_000, -5, 0, 11, 46341, i32::MAX, i32::MIN] {
                assert_eq!(is_slime_chunk(world_seed, x, z), reference(world_seed, x, z));
            }
        }
    }
}

const AIR: u16 = 0;
const STONE: u16 = 1;
const WATER: u16 = 2;
const MODDED: u16 = 3;

fn color(r: u8, water: bool) -> BlockColor {
    BlockColor { opaque: true, water, color: [r, 0, 0] }
}

fn palette() -> Vec<PaletteEntry> {
    let known = |name: &str, block_color: BlockColor| PaletteEntry {
        block_type: Some(BlockType { block_color }),
        name: Some(name.to_string()),
        unknown_colors: UnknownColors { neutral: color(128, false), named: color(0, false) },
    };
    vec![
        known("air", BlockColor { opaque: false, water: false, color: [0, 0, 0] }),
        known("stone", color(100, false)),
        known("water", color(50, true)),
        PaletteEntry {
            block_type: None,
            name: Some("modded".to_string()),
            unknown_colors: UnknownColors { neutral: color(128, false), named: color(7, false) },
        },
    ]
}

/// A section with the given blocks, by height, the same in each column
fn section(y: i32, layers: [u16; 16]) -> ChunkSection {
    let mut blocks = Vec::new();
    let mut light = Vec::new();
    for (height, block) in layers.iter().enumerate() {
        for _ in 0..256 {
            blocks.push(*block);
            light.push(height as u8);
        }
    }
    ChunkSection {
        y: SectionY(y),
        palette: palette(),
        blocks,
        biomes: vec![5; 4096],
        light,
    }
}

fn top(chunk: &Chunk, unknown: UnknownBlockMode) -> (Result<Option<LayerData>, LayerError>, Vec<u32>, Vec<String>) {
    let mut biomes = IndexSet::new();
    let mut names = IndexSet::new();
    assert!(has_room(&biomes));
    let result = top_layer(&mut biomes, &mut names, true, unknown, chunk);
    (result, biomes.into_iter().collect(), names.into_iter().collect())
}

const ORIGIN: LayerBlockCoords = LayerBlockCoords { x: 0, z: 0 };

#[test]
fn block_heights_fit_or_fail() {
    assert_eq!(BlockHeight::new(SectionY(4), BlockY(3)), Ok(BlockHeight(67)));
    assert_eq!(BlockHeight::new(SectionY(-4), BlockY(0)), Ok(BlockHeight(-64)));
    assert_eq!(BlockHeight::new(SectionY(i32::MAX), BlockY(0)), Err(LayerError::HeightOutOfBounds));
    assert_eq!(BlockHeight::new(SectionY(i32::MIN), BlockY(0)), Err(LayerError::HeightOutOfBounds));
    assert_eq!(
        BlockHeight::new(SectionY(i32::MAX / 16), BlockY(15)),
        Ok(BlockHeight(i32::MAX))
    );
    assert_eq!(
        BlockHeight::new(SectionY(i32::MAX / 16), BlockY(16)),
        Err(LayerError::HeightOutOfBounds)
    );
}

#[test]
fn top_layer_shows_the_topmost_block_and_the_ground_below_water() {
    let mut layers = [STONE; 16];
    for (height, block) in layers.iter_mut().enumerate() {
        *block = match height {
            0..=3 => STONE,
            4..=6 => WATER,
            _ => AIR,
        };
    }
    let chunk = Chunk { sections: vec![section(0, [STONE; 16]), section(1, layers), section(2, [AIR; 16])] };
    let (result, biomes, names) = top(&chunk, UnknownBlockMode::Hide);
    let data = result.unwrap().unwrap();
    for x in 0..16 {
        for z in 0..16 {
            let entry = data.entry(LayerBlockCoords { x, z });
            assert_eq!(entry.block, Some(color(50, true)));
            assert_eq!(entry.depth, Some(BlockHeight(16 + 3)));
            assert_eq!(entry.biome, Some(1));
            assert_eq!(entry.name, Some(1));
            // The light of the air block above the water
            assert_eq!(entry.block_light, 7);
            assert!(!entry.is_empty());
            assert!(entry.done());
        }
    }
    assert_eq!(biomes, vec![5]);
    assert_eq!(names, vec!["water".to_string()]);
}

#[test]
fn columns_are_independent() {
    let mut s = section(0, [AIR; 16]);
    let at = |x: u8, y: u8, z: u8| {
        SectionBlockCoords { xz: LayerBlockCoords { x, z }, y: BlockY(y) }.offset()
    };
    s.blocks[at(3, 9, 4)] = STONE;
    s.biomes[at(3, 9, 4)] = 8;
    s.blocks[at(4, 2, 4)] = WATER;
    s.biomes[at(4, 2, 4)] = 9;
    let chunk = Chunk { sections: vec![s] };
    let (result, biomes, names) = top(&chunk, UnknownBlockMode::Hide);
    let data = result.unwrap().unwrap();
    let stone = data.entry(LayerBlockCoords { x: 3, z: 4 });
    assert_eq!(stone.block, Some(color(100, false)));
    assert_eq!(stone.depth, Some(BlockHeight(9)));
    let water = data.entry(LayerBlockCoords { x: 4, z: 4 });
    assert_eq!(water.block, Some(color(50, true)));
    assert_eq!(water.depth, None);
    assert!(!water.done());
    assert!(data.entry(ORIGIN).is_empty());
    // Indices refer to the lists in the order in which the blocks were met
    assert_eq!(biomes, vec![8, 9]);
    assert_eq!(names, vec!["stone".to_string(), "water".to_string()]);
    assert_eq!(water.biome, Some(2));
    assert_eq!(water.name, Some(2));
}

#[test]
fn unknown_blocks_follow_the_configured_mode() {
    let mut layers = [STONE; 16];
    layers[15] = MODDED;
    let chunk = Chunk { sections: vec![section(0, layers)] };
    let shown = |mode| {
        let (result, _, _) = top(&chunk, mode);
        result.unwrap().unwrap().entry(ORIGIN).block.unwrap()
    };
    assert_eq!(shown(UnknownBlockMode::Hide), color(100, false));
    assert_eq!(shown(UnknownBlockMode::Gray), color(128, false));
    assert_eq!(shown(UnknownBlockMode::Color), color(7, false));
}

#[test]
fn names_are_captured_on_request_only() {
    let chunk = Chunk { sections: vec![section(0, [STONE; 16])] };
    let mut biomes = IndexSet::new();
    let mut names = IndexSet::new();
    let data = top_layer(&mut biomes, &mut names, false, UnknownBlockMode::Hide, &chunk)
        .unwrap()
        .unwrap();
    assert_eq!(data.entry(ORIGIN).name, None);
    assert!(names.is_empty());
}

#[test]
fn empty_chunks_have_no_layers() {
    let chunk = Chunk { sections: vec![] };
    let (result, _, _) = top(&chunk, UnknownBlockMode::Hide);
    assert!(result.unwrap().is_none());
    assert!(cave_layer(&mut IndexSet::new(), &chunk).unwrap().is_none());
}

#[test]
fn layer_errors_are_reported() {
    let mut missing_block = section(0, [STONE; 16]);
    missing_block.blocks.truncate(100);
    let (result, _, _) = top(&Chunk { sections: vec![missing_block] }, UnknownBlockMode::Hide);
    assert_eq!(result.err(), Some(LayerError::BlockMissing));

    let mut missing_biome = section(0, [STONE; 16]);
    missing_biome.biomes.clear();
    let (result, biomes, _) = top(&Chunk { sections: vec![missing_biome] }, UnknownBlockMode::Hide);
    assert_eq!(result.err(), Some(LayerError::BiomeMissing));
    assert!(biomes.is_empty());

    let too_high = section(i32::MAX, [STONE; 16]);
    let (result, biomes, _) = top(&Chunk { sections: vec![too_high] }, UnknownBlockMode::Hide);
    assert_eq!(result.err(), Some(LayerError::HeightOutOfBounds));
    assert_eq!(biomes, vec![5]);

    let mut palette_too_short = section(0, [STONE; 16]);
    palette_too_short.palette.truncate(1);
    let chunk = Chunk { sections: vec![palette_too_short] };
    assert_eq!(cave_layer(&mut IndexSet::new(), &chunk).err(), Some(LayerError::BlockMissing));
}

#[test]
fn cave_layer_shows_the_floor_of_the_topmost_cave() {
    let mut layers = [STONE; 16];
    layers[5] = AIR;
    layers[6] = AIR;
    layers[10] = AIR;
    layers[15] = AIR;
    let chunk = Chunk { sections: vec![section(2, layers)] };
    let mut biomes = IndexSet::new();
    let data = cave_layer(&mut biomes, &chunk).unwrap().unwrap();
    let entry = data.entry(ORIGIN);
    // The air at the top lies above the surface; the topmost cave is at 10
    assert_eq!(entry.depth, Some(BlockHeight(32 + 9)));
    assert_eq!(entry.block, Some(color(100, false)));
    assert_eq!(entry.biome, Some(1));
    assert_eq!(entry.name, None);
    assert_eq!(entry.block_light, 0);

    // Without a gap under solid ground, columns stay empty
    let solid = Chunk { sections: vec![section(0, [STONE; 16])] };
    let data = cave_layer(&mut IndexSet::new(), &solid).unwrap().unwrap();
    assert!(data.entry(ORIGIN).is_empty());

    // A gap without a floor is no cave
    let mut open = [AIR; 16];
    open[15] = STONE;
    let bottomless = Chunk { sections: vec![section(0, open)] };
    let data = cave_layer(&mut IndexSet::new(), &bottomless).unwrap().unwrap();
    assert!(data.entry(ORIGIN).is_empty());
}

#[test]
fn biome_lists_are_checked_for_room() {
    let mut biomes: IndexSet<u32> = (0..65279).collect();
    assert!(has_room(&biomes));
    biomes.insert(70_000);
    assert!(!has_room(&biomes));
}

/// A chunk with varied blocks
fn varied_chunk(seed: i64, sections: i32) -> Chunk {
    let mut rng = JavaRandom::new(seed);
    let mut chunk = Chunk { sections: Vec::new() };
    for y in 0..sections {
        let mut s = section(y - 2, [AIR; 16]);
        for i in 0..4096 {
            s.blocks[i] = match rng.next_int(12) {
                0 => STONE,
                1 | 2 => WATER,
                3 => MODDED,
                _ => AIR,
            };
            s.biomes[i] = rng.next_int(5) as u32;
            s.light[i] = rng.next_int(16) as u8;
        }
        chunk.sections.push(s);
    }
    chunk
}

/// The block, biome, light and height of each block of a column, from the top
fn column(chunk: &Chunk, x: u8, z: u8) -> Vec<(u16, u32, u8, i32)> {
    let mut blocks = Vec::new();
    for s in chunk.sections.iter().rev() {
        for y in (0..16).rev() {
            let at = 256 * y as usize + 16 * z as usize + x as usize;
            blocks.push((s.blocks[at], s.biomes[at], s.light[at], 16 * s.y.0 + y));
        }
    }
    blocks
}

#[test]
fn varied_chunks_show_their_columns() {
    for seed in 0..4 {
        let chunk = varied_chunk(seed, 1 + seed as i32 % 3);
        for (mode, modded_shown) in
            [(UnknownBlockMode::Hide, false), (UnknownBlockMode::Gray, true)]
        {
            let (result, biomes, names) = top(&chunk, mode);
            let data = result.unwrap().unwrap();
            let visible = |block: u16| block != AIR && (block != MODDED || modded_shown);
            for x in 0..16 {
                for z in 0..16 {
                    let entry = data.entry(LayerBlockCoords { x, z });
                    let blocks = column(&chunk, x, z);
                    let first = blocks.iter().position(|b| visible(b.0));
                    let ground = blocks.iter().position(|b| visible(b.0) && b.0 != WATER);
                    assert_eq!(entry.depth, ground.map(|i| BlockHeight(blocks[i].3)));
                    assert_eq!(
                        entry.biome.map(|i| biomes[i as usize - 1]),
                        first.map(|i| blocks[i].1)
                    );
                    assert_eq!(
                        entry.name.map(|i| names[i as usize - 1].clone()),
                        first.map(|i| palette()[blocks[i].0 as usize].name.clone().unwrap())
                    );
                    let above = first.unwrap_or(blocks.len());
                    let light = if above > 0 { blocks[above - 1].2 } else { 0 };
                    assert_eq!(entry.block_light, light);
                    assert_eq!(entry.is_empty(), first.is_none());
                }
            }
        }
    }
}

#[test]
fn varied_chunks_show_their_caves() {
    for seed in 0..4 {
        let chunk = varied_chunk(10 + seed, 2);
        let mut biomes = IndexSet::new();
        let data = cave_layer(&mut biomes, &chunk).unwrap().unwrap();
        for x in 0..16 {
            for z in 0..16 {
                let entry = data.entry(LayerBlockCoords { x, z });
                let blocks = column(&chunk, x, z);
                let solid = |block: u16| block == STONE || block == WATER;
                let rest = blocks.iter().skip_while(|b| !solid(b.0));
                let rest = rest.skip_while(|b| solid(b.0));
                let floor = rest.skip_while(|b| !solid(b.0)).next();
                assert_eq!(entry.depth, floor.map(|b| BlockHeight(b.3)));
                assert_eq!(
                    entry.biome.map(|i| *biomes.get_index(i as usize - 1).unwrap()),
                    floor.map(|b| b.1)
                );
                assert_eq!(entry.block.is_some(), floor.is_some());
                assert_eq!(entry.name, None);
            }
        }
    }
}

#[test]
fn layers_are_filled_if_there_is_room() {
    let chunk = Chunk { sections: vec![section(0, [STONE; 16])] };
    let mut biomes: IndexSet<u32> = (100..65379).collect();
    let mut names = IndexSet::new();
    let layer =
        top_layer_with_room(&mut biomes, &mut names, false, UnknownBlockMode::Hide, &chunk);
    let entry = layer.unwrap().unwrap().unwrap().entry(ORIGIN);
    assert_eq!(entry.biome, Some(65280));
    assert!(!has_room(&biomes));
    let layer =
        top_layer_with_room(&mut biomes, &mut names, false, UnknownBlockMode::Hide, &chunk);
    assert!(layer.is_none());
    assert!(cave_layer_with_room(&mut biomes, &chunk).is_none());
    assert_eq!(biomes.len(), 65280);
    assert!(cave_layer_with_room(&mut IndexSet::new(), &chunk).unwrap().unwrap().is_some());
}

#[test]
fn flat_chunks_show_their_colors() {
    let mut blocks = LayerBlockArray::filled(None);
    let mut biomes = LayerBlockArray::filled(None);
    let mut depths = LayerBlockArray::filled(None);
    let at = LayerBlockCoords { x: 2, z: 1 };
    blocks.put(at, Some(color(9, false)));
    biomes.put(at, Some(2u16));
    depths.put(at, Some(BlockHeight(70)));
    let other = LayerBlockCoords { x: 3, z: 1 };
    blocks.put(other, Some(color(8, false)));
    biomes.put(other, Some(3u16));
    let list: IndexSet<u32> = [11, 22].into_iter().collect();
    let surface = chunk_surface(&blocks, &biomes, &depths, &list);
    assert_eq!(
        surface[18],
        Some(SurfaceBlock { block: color(9, false), biome: Some(22), depth: 70 })
    );
    // An index behind the end of the list stands for no biome
    assert_eq!(surface[19], Some(SurfaceBlock { block: color(8, false), biome: None, depth: 0 }));
    assert_eq!(surface.iter().filter(|b| b.is_some()).count(), 2);

    let colors: Vec<Option<[u8; 3]>> =
        surface.iter().map(|b| b.map(|b| b.block.color)).collect();
    let image = render_chunk(&colors);
    assert_eq!((image.width, image.height), (16, 16));
    assert_eq!(&image.data[4 * 18..4 * 18 + 4], &[9, 0, 0, 255]);
    assert_eq!(&image.data[0..4], &[0, 0, 0, 0]);
}

#[test]
fn chunks_are_copied_into_tiles() {
    let mut tile = Pixels { width: 64, height: 64, data: vec![1; 4 * 64 * 64] };
    let mut chunk = Pixels { width: 16, height: 16, data: vec![255; 4 * 16 * 16] };
    // A transparent and a half-transparent pixel
    chunk.data[3] = 0;
    chunk.data[4..8].copy_from_slice(&[200, 100, 50, 128]);
    overlay_chunk(&mut tile, &chunk, ChunkCoords { x: 2, z: 1 });
    let pixel = |x: usize, y: usize| tile.data[4 * (64 * y + x)..4 * (64 * y + x) + 4].to_vec();
    assert_eq!(pixel(32, 16), vec![1, 1, 1, 1]);
    assert_ne!(pixel(33, 16), vec![1, 1, 1, 1]);
    assert_ne!(pixel(33, 16), vec![200, 100, 50, 128]);
    assert_eq!(pixel(34, 16), vec![255; 4]);
    assert_eq!(pixel(47, 31), vec![255; 4]);
    assert_eq!(pixel(31, 16), vec![1; 4]);
    assert_eq!(pixel(48, 16), vec![1; 4]);
    assert_eq!(pixel(32, 32), vec![1; 4]);
    // Chunks outside of the tile change nothing
    let before = tile.data.clone();
    overlay_chunk(&mut tile, &chunk, ChunkCoords { x: 4, z: 0 });
    assert_eq!(tile.data, before);
}

#[test]
fn texture_files_are_searched_in_order() {
    let atlas = TextureAtlas::new("/pack", 8);
    assert_eq!(atlas.scale(), 8);
    assert_eq!(
        atlas.candidates("minecraft:oak_log"),
        vec![
            "/pack/assets/minecraft/textures/block/oak_log_top.png",
            "/pack/assets/minecraft/textures/block/oak_log.png",
            "/pack/assets/minecraft/textures/blocks/oak_log_top.png",
            "/pack/assets/minecraft/textures/blocks/oak_log.png",
            "/pack/block/oak_log_top.png",
            "/pack/block/oak_log.png",
            "/pack/blocks/oak_log_top.png",
            "/pack/blocks/oak_log.png",
            "/pack/oak_log_top.png",
            "/pack/oak_log.png",
        ]
    );
}

#[test]
fn textures_are_resized_and_summed() {
    let mut texture = Pixels { width: 4, height: 4, data: Vec::new() };
    for _ in 0..16 {
        texture.data.extend_from_slice(&[10, 20, 30, 255]);
    }
    let loaded = TextureAtlas::new("", 2).load(&texture);
    assert_eq!((loaded.image.width, loaded.image.height), (2, 2));
    assert_eq!(loaded.image.data, [10, 20, 30, 255].repeat(4));
    assert_eq!(loaded.sums.count, 4);
    assert_eq!(loaded.sums.sums, [40, 80, 120]);

    // Transparent texels do not count
    let half = Pixels { width: 2, height: 1, data: vec![1, 2, 3, 1, 100, 100, 100, 0] };
    let sums = color_sums(&half);
    assert_eq!(sums.count, 1);
    assert_eq!(sums.sums, [1, 2, 3]);
}

#[test]
fn texture_names_are_looked_up() {
    let mut names = LayerBlockArray::filled(None);
    names.put(ORIGIN, Some(2u16));
    names.put(LayerBlockCoords { x: 1, z: 0 }, Some(3u16));
    let list: IndexSet<String> = ["a".to_string(), "b".to_string()].into_iter().collect();
    assert_eq!(texture_name(&names, &list, ORIGIN), Some(&"b".to_string()));
    assert_eq!(texture_name(&names, &list, LayerBlockCoords { x: 1, z: 0 }), None);
    assert_eq!(texture_name(&names, &list, LayerBlockCoords { x: 2, z: 0 }), None);
}

#[test]
fn textured_chunks_draw_each_block_as_a_square() {
    let scale = 3u32;
    let mut blocks: Vec<Option<Vec<[u8; 3]>>> = vec![None; 256];
    // The block at x = 1, z = 2
    blocks[16 * 2 + 1] = Some((0..9u8).map(|i| [i, i, i]).collect());
    let image = minedmap::texture::render_chunk(scale, &blocks);
    assert_eq!((image.width, image.height), (48, 48));
    for y in 0..48usize {
        for x in 0..48usize {
            let at = 4 * (48 * y + x);
            let expected = if (3..6).contains(&x) && (6..9).contains(&y) {
                let texel = (3 * (y - 6) + (x - 3)) as u8;
                [texel, texel, texel, 255]
            } else {
                [0; 4]
            };
            assert_eq!(&image.data[at..at + 4], &expected);
        }
    }
}

#[test]
fn blocks_without_a_texture_are_drawn_flat() {
    let textured = vec![[1, 2, 3], [4, 5, 6], [7, 8, 9], [10, 11, 12]];
    assert_eq!(block_texels(Some(textured.clone()), [9, 9, 9], 2), textured);
    assert_eq!(block_texels(None, [9, 8, 7], 2), vec![[9, 8, 7]; 4]);
    assert_eq!(block_texels(None, [9, 8, 7], 0), Vec::<[u8; 3]>::new());

    let mut blocks = vec![None; 256];
    blocks[0] = Some(block_texels(Some(textured), [0, 0, 0], 2));
    blocks[17] = Some(block_texels(None, [9, 8, 7], 2));
    let image = minedmap::texture::render_chunk(2, &blocks);
    let pixel = |x: usize, y: usize| &image.data[4 * (32 * y + x)..4 * (32 * y + x) + 4];
    assert_eq!(pixel(1, 0), [4, 5, 6, 255]);
    for (x, y) in [(2, 2), (3, 2), (2, 3), (3, 3)] {
        assert_eq!(pixel(x, y), [9, 8, 7, 255]);
    }
    assert_eq!(pixel(4, 2), [0, 0, 0, 0]);
}

#[test]
fn layers_show_the_highest_blocks() {
    // From the bottom to the top: stone, a cave between 20 and 24, stone up to 40, air
    let at = |height: i32| match height {
        0..=19 | 25..=40 => STONE,
        _ => AIR,
    };
    let sections = (-1..4)
        .map(|y| {
            let mut layers = [AIR; 16];
            for (i, layer) in layers.iter_mut().enumerate() {
                *layer = at(16 * y + i as i32);
            }
            section(y, layers)
        })
        .collect();
    let chunk = Chunk { sections };
    let (result, _, _) = top(&chunk, UnknownBlockMode::Hide);
    let entry = result.unwrap().unwrap().entry(ORIGIN);
    assert_eq!(entry.depth, Some(BlockHeight(40)));
    let cave = cave_layer(&mut IndexSet::new(), &chunk).unwrap().unwrap().entry(ORIGIN);
    assert_eq!(cave.depth, Some(BlockHeight(19)));
}
