//! Paths, files, caches and configuration

use minedmap::args::{Args, Delay};
use minedmap::common::{
    coord_filename, unix_to_systemtime, Config, ConfigError, Edition, ImageFormat, Probe,
    ProcessedChunk, ProcessedEntities, ProcessedRegion, SeedData, SeedWorldGenSettings,
    TileCoordMap, TileCoords, TileKind, UnknownBlocks,
};
use minedmap::fs::{
    compare_blocks, compare_sizes, create_with_timestamp, metafile_name, modified_timestamp,
    modified_timestamp_opt, next_tmpfile_step, read_timestamp, tmpfile_name, EqualStep, FileMeta,
    FileMetaVersion, Modified, TmpfileEvent, TmpfileStep,
};
use minedmap::generate::{
    generate, generate_java, route_overlays, triggers_generation, Change, Generator, JavaStep,
};
use minedmap::mob::MobData;
use minedmap::overlay::{Dimension, OverlayData};
use minedmap::paths::{extension_of, join, name_of, parent_of, suffix_name};
use minedmap::patterns::{sign_patterns, sign_transform, TransformError};
use minedmap::player::{Number, Player, Stats, Xp};
use minedmap::region_cache::{
    cache_path, is_region_filename, list_regions, merge_all, needs_recompute,
    parse_region_filename, DirEntry, RegionStep, RegionTimes,
};
use minedmap::resource::UnknownBlockMode;
use minedmap::types::LayerBlockArray;
use minedmap::world_stats::{
    collect_java, count_region_files, dir_size, output_path, player_block_totals, DirNode,
};
use std::collections::{BTreeMap, BTreeSet};

#[test]
fn paths_are_joined_like_file_paths() {
    assert_eq!(join("a", "b"), "a/b");
    assert_eq!(join("a/", "b"), "a/b");
    assert_eq!(join("", "b"), "b");
    assert_eq!(join("a", "/b"), "/b");
    assert_eq!(join("a", ""), "a/");
    assert_eq!(join("/", "b"), "/b");
}

#[test]
fn path_parts_agree_with_std() {
    let paths = [
        "", "/", ".", "..", "a", "a/", "a/b", "/a", "//a", "a//b", "a/./b", "a/b/.", "./a", "./",
        "a/..", "../a", "/a/b/", "a/b//.//", "...", "a/...", "r.0.0.mca", ".hidden", "x.", "/.",
    ];
    for path in paths {
        let std_path = std::path::Path::new(path);
        let std_name = std_path.file_name().map(|n| n.to_str().unwrap());
        assert_eq!(name_of(path), std_name, "file name of {path:?}");
        let std_parent = std_path.parent().map(|p| p.to_str().unwrap());
        assert_eq!(parent_of(path), std_parent, "parent of {path:?}");
        if let Some(name) = std_name {
            let std_ext = std_path.extension().map(|e| e.to_str().unwrap());
            assert_eq!(extension_of(name), std_ext, "extension of {path:?}");
        }
        let mut std_file = std_path.file_name().unwrap_or_default().to_os_string();
        std_file.push(".tmp");
        let mut std_suffixed = std_path.to_path_buf();
        std_suffixed.set_file_name(std_file);
        assert_eq!(suffix_name(path, ".tmp"), std_suffixed.to_str().unwrap(), "{path:?}");
    }
}

#[test]
fn companion_files_have_suffixes() {
    assert_eq!(tmpfile_name("map/0/r.0.0.png"), "map/0/r.0.0.png.tmp");
    assert_eq!(metafile_name("map/0/r.0.0.png"), "map/0/r.0.0.png.meta");
}

/// Compares two file contents in blocks
fn equal(first: &[u8], second: &[u8]) -> bool {
    let mut step = compare_sizes(first.len() as u64, second.len() as u64);
    let mut pos = 0;
    loop {
        match step {
            EqualStep::Done(equal) => return equal,
            EqualStep::ReadBlock => {
                let end = first.len().min(pos + 64 * 1024);
                step = compare_blocks(&first[pos..end], &second[pos..end]);
                pos = end;
            }
        }
    }
}

#[test]
fn test_equal() {
    // Multi-block content (larger than the 64 KiB comparison buffer)
    let big: Vec<u8> = (0..200_000u32).map(|i| i as u8).collect();
    let mut big_diff = big.clone();
    *big_diff.last_mut().unwrap() ^= 0xff;

    assert!(equal(&big, &big.clone()));
    assert!(!equal(&big, &big_diff)); // same length, last byte differs
    assert!(!equal(&big, b"short"));
    assert!(equal(b"", b""));
}

/// Runs the creation of a file, with the given results of writing, comparing and renaming
fn create(write: bool, same: Option<bool>, rename: bool) -> (Vec<TmpfileStep>, bool) {
    let mut step = TmpfileStep::Write;
    let mut steps = Vec::new();
    loop {
        steps.push(step);
        let event = match step {
            TmpfileStep::Finish(ok) => return (steps, ok),
            TmpfileStep::Write => {
                if write { TmpfileEvent::Done } else { TmpfileEvent::Failed }
            }
            TmpfileStep::Compare => match same {
                Some(true) => TmpfileEvent::Equal,
                Some(false) => TmpfileEvent::Done,
                None => TmpfileEvent::Failed,
            },
            TmpfileStep::Rename => {
                if rename { TmpfileEvent::Done } else { TmpfileEvent::Failed }
            }
            TmpfileStep::Remove(_) => TmpfileEvent::Done,
        };
        step = next_tmpfile_step(step, event);
    }
}

#[test]
fn files_are_created_by_way_of_temporary_files() {
    let renamed = vec![
        TmpfileStep::Write,
        TmpfileStep::Compare,
        TmpfileStep::Rename,
        TmpfileStep::Finish(true),
    ];
    assert_eq!(create(true, Some(false), true), (renamed.clone(), true));
    // A file that is not there yet cannot be compared
    assert_eq!(create(true, None, true), (renamed, true));
    // A file with the same contents is left alone
    assert_eq!(
        create(true, Some(true), true).0,
        vec![
            TmpfileStep::Write,
            TmpfileStep::Compare,
            TmpfileStep::Remove(true),
            TmpfileStep::Finish(true),
        ]
    );
    assert_eq!(
        create(false, None, true).0,
        vec![TmpfileStep::Write, TmpfileStep::Remove(false), TmpfileStep::Finish(false)]
    );
    assert_eq!(
        create(true, Some(false), false).0,
        vec![
            TmpfileStep::Write,
            TmpfileStep::Compare,
            TmpfileStep::Rename,
            TmpfileStep::Remove(false),
            TmpfileStep::Finish(false),
        ]
    );
}

#[test]
fn timestamps_are_read_back() {
    let version = FileMetaVersion(3);
    let meta = create_with_timestamp(true, version, 77);
    assert_eq!(meta, Some(FileMeta { version, timestamp: 77 }));
    assert_eq!(read_timestamp(meta, version), Some(77));
    assert_eq!(read_timestamp(meta, FileMetaVersion(4)), None);
    assert_eq!(read_timestamp(None, version), None);
    assert_eq!(create_with_timestamp(false, version, 77), None);

    assert_eq!(modified_timestamp(Modified::At(5)), Ok(5));
    assert!(modified_timestamp(Modified::NotFound).is_err());
    assert!(modified_timestamp(Modified::Failed).is_err());
    assert_eq!(modified_timestamp_opt(Modified::At(5)), Ok(Some(5)));
    assert_eq!(modified_timestamp_opt(Modified::NotFound), Ok(None));
    assert!(modified_timestamp_opt(Modified::Failed).is_err());
}

#[test]
fn test_needs_recompute() {
    let t0 = 0;
    let t1 = t0 + 100_000_000_000;
    let t2 = t0 + 200_000_000_000;

    // No --since: recompute when source is newer than cache or cache missing
    assert!(needs_recompute(Some(t2), Some(t1), None));
    assert!(!needs_recompute(Some(t1), Some(t1), None));
    assert!(!needs_recompute(Some(t1), Some(t2), None));
    assert!(needs_recompute(Some(t1), None, None));

    // --since: recompute when source newer than `since`, OR cache missing
    assert!(needs_recompute(Some(t2), Some(t0), Some(t1)));
    assert!(!needs_recompute(Some(t0), Some(t0), Some(t1)));
    // cache missing always recomputes, even for old source
    assert!(needs_recompute(Some(t0), None, Some(t1)));
}

#[test]
fn sources_of_unknown_age() {
    // Without a cached contribution, regions are always computed
    assert!(needs_recompute(None, None, None));
    assert!(!needs_recompute(None, Some(1), None));
    assert!(needs_recompute(None, None, Some(1)));
    assert!(needs_recompute(None, Some(1), Some(1)));
}

/// Gets the contribution of a region from a cache, or by computing it
fn contribution(
    coords: (i32, i32),
    mtime: i128,
    cache: &mut BTreeMap<(i32, i32), (i128, i32)>,
    calls: &mut usize,
) -> MobData {
    let times = RegionTimes {
        source_mtime: Some(mtime),
        cache_timestamp: cache.get(&coords).map(|entry| entry.0),
        since: None,
    };
    let mut computed = 0;
    let mut step = times.start();
    loop {
        let ok = match step {
            RegionStep::Compute => {
                *calls += 1;
                // Derive a deterministic value from the region coordinates
                computed = if coords == (0, 0) { 1 } else { 2 };
                true
            }
            RegionStep::WriteCache(timestamp) => {
                cache.insert(coords, (timestamp.unwrap(), computed));
                true
            }
            RegionStep::LoadCache => {
                computed = cache[&coords].1;
                true
            }
            RegionStep::ReturnComputed | RegionStep::ReturnCached => {
                return MobData { hostile: vec![(computed, 0)], passive: vec![] };
            }
            RegionStep::ReturnEmpty => return MobData::default(),
        };
        step = times.region_contribution(step, ok);
    }
}

fn dir_entry(name: &str, is_file: bool) -> DirEntry {
    DirEntry { name: Some(name.to_string()), is_file }
}

#[test]
fn test_collect_cached() {
    let entries = vec![
        dir_entry("r.0.0.mca", true),
        dir_entry("r.0.1.mca", true),
        dir_entry("ignored.txt", true),
    ];
    let regions = list_regions("source", &entries);
    let mut cache = BTreeMap::new();
    let mut calls = 0;
    let mut collect = |calls: &mut usize, mtime: i128| {
        let parts = regions
            .iter()
            .map(|(coords, _)| contribution(*coords, mtime, &mut cache, calls))
            .collect();
        let mut data: MobData = merge_all(parts);
        data.finish();
        data.hostile
    };

    // First run computes every region and populates the cache
    assert_eq!(collect(&mut calls, 10), vec![(1, 0), (2, 0)]);
    assert_eq!(calls, 2);

    // Second run reuses the cache: no recomputation, identical result
    calls = 0;
    assert_eq!(collect(&mut calls, 10), vec![(1, 0), (2, 0)]);
    assert_eq!(calls, 0);

    // Changed regions are computed again
    assert_eq!(collect(&mut calls, 11), vec![(1, 0), (2, 0)]);
    assert_eq!(calls, 2);
}

#[test]
fn regions_fall_back_to_the_cache() {
    let times = |cache_timestamp| RegionTimes {
        source_mtime: Some(5),
        cache_timestamp,
        since: None,
    };
    let cached = times(Some(1));
    assert_eq!(cached.start(), RegionStep::Compute);
    assert_eq!(
        cached.region_contribution(RegionStep::Compute, false),
        RegionStep::LoadCache
    );
    assert_eq!(
        cached.region_contribution(RegionStep::LoadCache, false),
        RegionStep::ReturnEmpty
    );
    assert_eq!(
        times(None).region_contribution(RegionStep::Compute, false),
        RegionStep::ReturnEmpty
    );
    // A cache that cannot be written makes no difference
    assert_eq!(
        cached.region_contribution(RegionStep::WriteCache(Some(5)), false),
        RegionStep::ReturnComputed
    );
    // A region whose modification time is not known is tried as well
    let unknown = RegionTimes { source_mtime: None, cache_timestamp: None, since: None };
    assert_eq!(unknown.start(), RegionStep::Compute);
    assert_eq!(
        unknown.region_contribution(RegionStep::Compute, true),
        RegionStep::WriteCache(None)
    );
    assert_eq!(
        unknown.region_contribution(RegionStep::Compute, false),
        RegionStep::ReturnEmpty
    );
    assert_eq!(times(Some(9)).start(), RegionStep::LoadCache);
}

#[test]
fn test_region_filename() {
    assert!(is_region_filename("r.0.0.mca"));
    assert!(is_region_filename("r.-1.2.mca"));
    assert!(!is_region_filename("r.0.0.bin"));
    assert!(!is_region_filename("r.a.0.mca"));
    assert!(!is_region_filename("level.dat"));
}

#[test]
fn region_filenames_are_read_back() {
    for x in [i32::MIN, -512, -1, 0, 1, 99, i32::MAX] {
        for z in [i32::MIN, -10, 0, 7, i32::MAX] {
            let name = coord_filename(TileCoords { x, z }, "mca");
            assert_eq!(name, format!("r.{x}.{z}.mca"));
            assert_eq!(parse_region_filename(&name), Some((x, z)));
        }
    }
    assert_eq!(parse_region_filename("r.+1.007.mca"), Some((1, 7)));
    for name in ["r.0.0.mca.tmp", "r.0.mca", "r..0.mca", "r.2147483648.0.mca", "R.0.0.mca", ""] {
        assert_eq!(parse_region_filename(name), None, "{name:?}");
    }
    assert_eq!(cache_path("cache", (-1, 2)), "cache/r.-1.2.bin");
}

#[test]
fn region_files_are_listed() {
    let entries = vec![
        dir_entry("r.1.2.mca", true),
        dir_entry("r.3.4.mca", false),
        DirEntry { name: None, is_file: true },
        dir_entry("r.-5.6.mca", true),
    ];
    assert_eq!(
        list_regions("dir", &entries),
        vec![
            ((1, 2), "dir/r.1.2.mca".to_string()),
            ((-5, 6), "dir/r.-5.6.mca".to_string()),
        ]
    );
    assert_eq!(count_region_files(&entries), 2);
}

#[test]
fn test_count_regions_and_size() {
    let region = vec![
        dir_entry("r.0.0.mca", true),
        dir_entry("r.0.1.mca", true),
        dir_entry("not-a-region.txt", true),
    ];
    let dir = vec![
        DirNode::Dir(vec![DirNode::File(100), DirNode::File(50), DirNode::File(10)]),
        // A nested subdirectory must be counted towards the size as well
        DirNode::Dir(vec![DirNode::File(25)]),
    ];
    assert_eq!(count_region_files(&region), 2);
    assert_eq!(dir_size(&dir), Some(100 + 50 + 10 + 25));
}

#[test]
fn sizes_that_do_not_fit() {
    assert_eq!(dir_size(&vec![]), Some(0));
    assert_eq!(dir_size(&vec![DirNode::Other, DirNode::File(u64::MAX)]), Some(u64::MAX));
    let too_large = DirNode::Dir(vec![DirNode::File(u64::MAX), DirNode::Dir(vec![DirNode::File(1)])]);
    assert_eq!(dir_size(&vec![too_large]), None);
}

fn player(blocks_mined: i64, blocks_placed: i64) -> Player {
    Player {
        uuid: String::new(),
        name: None,
        pos: [Number::Int(0); 3],
        dimension: String::new(),
        rotation: [Number::Int(0); 2],
        spawn: None,
        xp: Xp { level: 0, total: 0, progress: Number::Int(0) },
        health: Number::Int(0),
        food: Number::Int(0),
        stats: Some(Stats {
            play_time: 0,
            deaths: 0,
            mob_kills: 0,
            player_kills: 0,
            walk_cm: 0,
            sprint_cm: 0,
            swim_cm: 0,
            fly_cm: 0,
            blocks_mined,
            blocks_placed,
        }),
        killed_by: Vec::new(),
        crafted: Vec::new(),
        inventory: Vec::new(),
        ender_items: Vec::new(),
    }
}

#[test]
fn block_totals_are_summed() {
    let mut nobody = player(5, 5);
    nobody.stats = None;
    assert_eq!(player_block_totals(&vec![player(1, 2), nobody, player(10, 20)]), Some((11, 22)));
    assert_eq!(player_block_totals(&vec![player(i64::MAX, 0), player(1, 0)]), None);
    assert_eq!(player_block_totals(&vec![player(0, i64::MIN), player(0, -1)]), None);
    assert_eq!(player_block_totals(&vec![]), Some((0, 0)));
}

fn args() -> Args {
    Args {
        jobs: None,
        jobs_initial: None,
        verbose: false,
        watch: false,
        watch_delay: Delay { secs: 30, nanos: 0 },
        image_format: ImageFormat::default(),
        edition: Edition::default(),
        nether: false,
        end: false,
        emit_overlays: None,
        emit_player_data: None,
        player_data_dir: None,
        stats_dir: None,
        usercache: vec![],
        emit_world_stats: None,
        since: None,
        overlay_layers: false,
        height_layer: false,
        biome_layer: false,
        cave_layer: false,
        mob_spawn: false,
        contour_layer: false,
        structures: false,
        poi_markers: false,
        mob_markers: false,
        block_textures: None,
        texture_scale: 8,
        unknown_blocks: UnknownBlocks::default(),
        sign_prefix: vec![],
        sign_filter: vec![],
        sign_transform: vec![],
        input_dir: "/in".to_string(),
        output_dir: "/out".to_string(),
    }
}

fn probe() -> Probe {
    Probe {
        overworld_regions: false,
        poi_dir: false,
        entity_dir: false,
        nether_regions: false,
        end_regions: false,
        bedrock_marker: false,
        level_dat: None,
        level_dat_old: None,
    }
}

#[test]
fn world_statistics_are_collected() {
    let seed = SeedData { random_seed: Some(9), world_gen_settings: None };
    let config = Config::new(&args(), &Probe { level_dat: Some(seed), ..probe() }).unwrap();
    let dimensions = vec![(Dimension::Overworld, vec![dir_entry("r.0.0.mca", true)])];
    let mut overlays = OverlayData::default();
    overlays.end.inhabited.push((0, 0, 1));
    let players = vec![player(3, 4)];
    let world = vec![DirNode::File(12)];
    let stats = collect_java(&config, &dimensions, &overlays, &players, &world).unwrap();
    assert_eq!(stats.seed, Some(9));
    assert_eq!(stats.regions, vec![(Dimension::Overworld, 1)]);
    assert_eq!(
        stats.inhabited_chunks,
        vec![(Dimension::Overworld, 0), (Dimension::Nether, 0), (Dimension::End, 1)]
    );
    assert_eq!((stats.blocks_mined, stats.blocks_placed, stats.size_bytes), (3, 4, 12));
    assert_eq!(output_path("stats"), "stats/world.json");
    let too_large = vec![DirNode::File(u64::MAX), DirNode::File(1)];
    assert!(collect_java(&config, &dimensions, &overlays, &players, &too_large).is_none());
}

#[test]
fn test_join_dim() {
    // Overworld (empty subdir) keeps the path unchanged for compatibility
    assert_eq!(Config::join_dim("/out", "", "map/0"), "/out/map/0");
    // Other dimensions are placed under a subdirectory
    assert_eq!(Config::join_dim("/out", "nether", "map/0"), "/out/nether/map/0");
}

#[test]
fn test_world_seed_parsing() {
    // 1.16+ layout: Data.WorldGenSettings.seed
    let v1_16 = SeedData {
        random_seed: None,
        world_gen_settings: Some(SeedWorldGenSettings { seed: Some(123456789) }),
    };
    assert_eq!(Config::read_world_seed(Some(v1_16), None), Some(123456789));

    // Pre-1.16 layout: Data.RandomSeed
    let v0 = SeedData { random_seed: Some(-42), world_gen_settings: None };
    assert_eq!(Config::read_world_seed(Some(v0), None), Some(-42));
}

#[test]
fn world_seeds_have_fallbacks() {
    let both = SeedData {
        random_seed: Some(1),
        world_gen_settings: Some(SeedWorldGenSettings { seed: Some(2) }),
    };
    let empty = SeedData {
        random_seed: Some(1),
        world_gen_settings: Some(SeedWorldGenSettings { seed: None }),
    };
    let none = SeedData { random_seed: None, world_gen_settings: None };
    assert_eq!(Config::read_world_seed(Some(both), Some(empty)), Some(2));
    assert_eq!(Config::read_world_seed(Some(empty), Some(both)), Some(1));
    // The old file only counts if the current one cannot be read
    assert_eq!(Config::read_world_seed(Some(none), Some(both)), None);
    assert_eq!(Config::read_world_seed(None, Some(both)), Some(2));
    assert_eq!(Config::read_world_seed(None, None), None);

    // Bedrock worlds have no seed
    let seeded = Probe { level_dat: Some(both), ..probe() };
    assert_eq!(Config::new(&args(), &seeded).unwrap().world_seed, Some(2));
    let bedrock = Probe { bedrock_marker: true, ..seeded };
    assert_eq!(Config::new(&args(), &bedrock).unwrap().world_seed, None);
}

#[test]
fn editions_are_resolved() {
    assert_eq!(Edition::Auto.resolve(true), Edition::Bedrock);
    assert_eq!(Edition::Auto.resolve(false), Edition::Java);
    assert_eq!(Edition::Java.resolve(true), Edition::Java);
    assert_eq!(Edition::Bedrock.resolve(false), Edition::Bedrock);
    assert_eq!(generate(Edition::Bedrock), Generator::Bedrock);
    assert_eq!(generate(Edition::Java), Generator::Java);
    assert_eq!(generate(Edition::Auto), Generator::Java);
}

#[test]
fn configurations_have_the_expected_paths() {
    let probes = Config::probe_paths(&args());
    assert_eq!(probes.overworld_regions, "/in/dimensions/minecraft/overworld/region");
    assert_eq!(probes.bedrock_marker, "/in/db/CURRENT");
    assert_eq!(probes.nether_regions, "/in/dimensions/minecraft/the_nether/region");
    let config = Config::new(&args(), &probe()).unwrap();
    assert_eq!(config.region_dir, "/in/region");
    assert_eq!(config.poi_dir, "/in/poi");
    assert_eq!(config.entity_region_dir, "/in/entities");
    assert_eq!(config.nether_region_dir, "/in/DIM-1/region");
    assert_eq!(config.end_region_dir, "/in/DIM1/region");
    assert_eq!(config.level_dat_path, "/in/level.dat");
    assert_eq!(config.level_dat_old_path, "/in/level.dat_old");
    assert_eq!(config.processed_dir, "/out/processed");
    assert_eq!(config.entities_path_final, "/out/processed/entities/entities.bin");
    assert_eq!(config.viewer_info_path, "/out/info.json");
    assert_eq!(config.edition, Edition::Java);
    assert_eq!(config.dim_subdir, "");
    assert_eq!(config.unknown_blocks, UnknownBlockMode::Hide);
    let coords = TileCoords { x: 1, z: -2 };
    assert_eq!(config.region_path(coords), "/in/region/r.1.-2.mca");
    assert_eq!(config.processed_path(coords), "/out/processed/r.1.-2.bin");
    assert_eq!(config.overlay_cache_path(coords), "/out/processed/r.1.-2.overlay");
    assert_eq!(config.poi_cache_dir(), "/out/processed/poi");
    assert_eq!(config.mob_cache_dir(), "/out/processed/mob");
    assert_eq!(config.entities_dir(12), "/out/processed/entities/12");
    assert_eq!(config.entities_path(0, coords), "/out/processed/entities/0/r.1.-2.bin");
    assert_eq!(config.tile_path(TileKind::MapTile, 3, coords), "/out/map/3/r.1.-2.png");

    let modern = Probe {
        overworld_regions: true,
        poi_dir: true,
        entity_dir: true,
        nether_regions: true,
        end_regions: true,
        ..probe()
    };
    let config = Config::new(&args(), &modern).unwrap();
    assert_eq!(config.region_dir, "/in/dimensions/minecraft/overworld/region");
    assert_eq!(config.poi_dir, "/in/dimensions/minecraft/overworld/poi");
    assert_eq!(config.entity_region_dir, "/in/dimensions/minecraft/overworld/entities");
    assert_eq!(config.nether_region_dir, "/in/dimensions/minecraft/the_nether/region");
    assert_eq!(config.end_region_dir, "/in/dimensions/minecraft/the_end/region");
}

#[test]
fn tile_directories_follow_the_kind() {
    let mut arguments = args();
    arguments.image_format = ImageFormat::Webp;
    let config = Config::new(&arguments, &probe()).unwrap();
    let kinds = [
        (TileKind::MapTile, "map"),
        (TileKind::Lightmap, "light"),
        (TileKind::Heightmap, "height"),
        (TileKind::Biomemap, "biome"),
        (TileKind::Cavemap, "cave"),
        (TileKind::Mobspawn, "mobspawn"),
        (TileKind::Contourmap, "contour"),
        (TileKind::Textured, "textured"),
    ];
    for (kind, name) in kinds {
        assert_eq!(config.tile_dir(kind, 0), format!("/out/{name}/0"));
    }
    assert_eq!(config.tile_extension(), "webp");
    let nether = config.for_dimension(Dimension::Nether, "/in/n".to_string(), false, false);
    assert_eq!(
        nether.tile_path(TileKind::Cavemap, 1, TileCoords { x: 0, z: 0 }),
        "/out/nether/cave/1/r.0.0.webp"
    );
}

#[test]
fn dimensions_have_their_own_directories() {
    let mut arguments = args();
    arguments.nether = true;
    arguments.end = true;
    arguments.emit_overlays = Some("/emit".to_string());
    arguments.sign_prefix = vec!["[Map]".to_string()];
    arguments.sign_transform = vec!["s/a/b/".to_string()];
    let config = Config::new(&arguments, &probe()).unwrap();
    assert_eq!(
        config.dimensions_to_render(true, true),
        vec![
            (Dimension::Overworld, "/in/region".to_string()),
            (Dimension::Nether, "/in/DIM-1/region".to_string()),
            (Dimension::End, "/in/DIM1/region".to_string()),
        ]
    );
    assert_eq!(config.dimensions_to_render(false, false).len(), 1);
    assert_eq!(Config::new(&args(), &probe()).unwrap().dimensions_to_render(true, true).len(), 1);

    let end = config.for_dimension(Dimension::End, "/in/x".to_string(), true, false);
    assert_eq!(end.dim_subdir, "end");
    assert_eq!(end.region_dir, "/in/x");
    assert_eq!(end.processed_dir, "/out/end/processed");
    assert_eq!(end.entities_dir, "/out/end/processed/entities");
    assert_eq!(end.poi_dir, "/in/dimensions/minecraft/the_end/poi");
    assert_eq!(end.poi_dir, config.modern_sub_input(Dimension::End, "poi"));
    assert_eq!(end.entity_region_dir, "/in/DIM1/entities");
    // Everything else stays the same
    assert_eq!(end.emit_overlays.as_deref(), Some("/emit"));
    assert_eq!(end.sign_patterns.patterns(), ["^\\[Map\\]"]);
    assert_eq!(end.sign_transforms[0].0.as_str(), "a");
    assert_eq!(end.sign_transforms[0].1, "b");

    let overworld =
        config.for_dimension(Dimension::Overworld, "/in/region".to_string(), true, true);
    assert_eq!(overworld.processed_dir, config.processed_dir);
    assert_eq!(overworld.poi_dir, config.poi_dir);
    let nether = config.for_dimension(Dimension::Nether, String::new(), false, true);
    assert_eq!(nether.poi_dir, "/in/DIM-1/poi");
    assert_eq!(nether.entity_region_dir, "/in/dimensions/minecraft/the_nether/entities");
}

#[test]
fn collections_are_enabled_by_options() {
    let config = Config::new(&args(), &probe()).unwrap();
    assert!(!config.wants_overlays());
    assert!(!config.collect_structures() && !config.collect_pois() && !config.collect_mobs());
    assert!(config.overlay_output_dirs().is_empty());

    let mut arguments = args();
    arguments.emit_overlays = Some("/emit".to_string());
    arguments.overlay_layers = true;
    let config = Config::new(&arguments, &probe()).unwrap();
    assert!(config.wants_overlays());
    assert!(config.collect_structures() && config.collect_pois() && config.collect_mobs());
    assert_eq!(config.overlay_output_dirs(), vec!["/emit", "/out/overlays"]);

    let mut arguments = args();
    arguments.emit_world_stats = Some("/stats".to_string());
    assert!(Config::new(&arguments, &probe()).unwrap().wants_overlays());
}

#[test]
fn unix_times_may_be_negative() {
    assert_eq!(unix_to_systemtime(5), 5_000_000_000);
    assert_eq!(unix_to_systemtime(-1), -1_000_000_000);
    assert_eq!(unix_to_systemtime(i64::MIN), i64::MIN as i128 * 1_000_000_000);
    let mut arguments = args();
    arguments.since = Some(2);
    assert_eq!(Config::new(&arguments, &probe()).unwrap().since, Some(2_000_000_000));
}

#[test]
fn unknown_blocks_have_modes() {
    assert_eq!(UnknownBlockMode::from(UnknownBlocks::Hide), UnknownBlockMode::Hide);
    assert_eq!(UnknownBlockMode::from(UnknownBlocks::Gray), UnknownBlockMode::Gray);
    assert_eq!(UnknownBlockMode::from(UnknownBlocks::Color), UnknownBlockMode::Color);
}

#[test]
fn tile_coordinates_are_described() {
    assert_eq!(TileCoords { x: -1, z: 20 }.describe(), "(-1, 20)");
}

#[test]
fn tile_coordinates_are_looked_up() {
    let mut map = BTreeMap::new();
    map.insert(7, BTreeSet::from([1, 2]));
    let map = TileCoordMap(map);
    assert!(map.contains(TileCoords { x: 1, z: 7 }));
    assert!(!map.contains(TileCoords { x: 7, z: 1 }));
    assert!(!map.contains(TileCoords { x: 3, z: 7 }));
}

#[test]
fn sign_prefixes_are_literal() {
    let set = sign_patterns(&vec!["a.b+".to_string()], &vec!["x|y".to_string()]).unwrap();
    assert_eq!(set.patterns(), ["^a\\.b\\+", "x|y"]);
    assert!(set.is_match("a.b+ rest"));
    assert!(!set.is_match("aXb+"));
    assert!(!set.is_match(" a.b+"));
    assert!(set.is_match("say y"));
    assert!(sign_patterns(&vec![], &vec!["(".to_string()]).is_none());
    // An empty prefix shows all signs, and no pattern shows none
    assert!(sign_patterns(&vec![String::new()], &vec![]).unwrap().is_match("anything"));
    assert!(!sign_patterns(&vec![], &vec![]).unwrap().is_match("anything"));
}

#[test]
fn all_meta_characters_are_escaped() {
    let prefix = "\\.+*?()|[]{}^$#&-~ %/";
    let set = sign_patterns(&vec![prefix.to_string()], &vec![]).unwrap();
    assert_eq!(
        set.patterns(),
        ["^\\\\\\.\\+\\*\\?\\(\\)\\|\\[\\]\\{\\}\\^\\$\\#\\&\\-\\~ %/"]
    );
    assert!(set.is_match(prefix));
}

#[test]
fn sign_transforms_have_three_separators() {
    let (regex, replacement) = sign_transform(r"s/^\[Map\]\s*/at \/ /").unwrap();
    assert_eq!(regex.as_str(), r"^\[Map\]\s*");
    assert_eq!(replacement, r"at \/ ");
    let (regex, replacement) = sign_transform("s///").unwrap();
    assert_eq!((regex.as_str(), replacement.as_str()), ("", ""));
    for invalid in ["", "s", "s/", "s/a", "s/a/b", "s/a/b/c", "x/a/b/", "s/a/b/ ", "s/a\\", "s/a/b\\/", "s/\\\n/b/", "s/a/b/c/"] {
        assert_eq!(sign_transform(invalid).err(), Some(TransformError::Form), "{invalid:?}");
    }
    assert_eq!(sign_transform("s/(/b/").err(), Some(TransformError::Regexp));
    // A line break is fine without a backslash
    assert!(sign_transform("s/a\nb/c/").is_ok());
}

#[test]
fn sign_transforms_agree_with_the_regular_expression() {
    let splitter = regex::Regex::new(r"^s/((?:[^\\/]|\\.)*)/((?:[^\\/]|\\.)*)/$").unwrap();
    let alphabet = ['s', '/', '\\', 'a', '\n'];
    let mut texts = vec![String::new()];
    for _ in 0..6 {
        let mut longer = Vec::new();
        for text in &texts {
            for c in alphabet {
                longer.push(format!("{text}{c}"));
            }
        }
        for text in &longer {
            let whole = format!("s/{text}");
            let expected = splitter.captures(&whole);
            match sign_transform(&whole) {
                Ok((regex, replacement)) => {
                    let captures = expected.unwrap();
                    assert_eq!(regex.as_str(), &captures[1]);
                    assert_eq!(replacement, &captures[2]);
                }
                Err(TransformError::Form) => assert!(expected.is_none(), "{whole:?}"),
                Err(TransformError::Regexp) => {
                    assert!(regex::Regex::new(&expected.unwrap()[1]).is_err());
                }
            }
        }
        texts = longer.into_iter().filter(|t| t.len() < 5).collect();
    }
}

#[test]
fn invalid_patterns_are_reported() {
    let mut arguments = args();
    arguments.sign_filter = vec!["[".to_string()];
    arguments.sign_transform = vec!["nonsense".to_string()];
    assert_eq!(Config::new(&arguments, &probe()).err(), Some(ConfigError::SignPatterns));
    arguments.sign_filter = vec![];
    assert_eq!(
        Config::new(&arguments, &probe()).err(),
        Some(ConfigError::SignTransforms(TransformError::Form))
    );
    arguments.sign_transform = vec!["s/a/b/".to_string(), "s/[/b/".to_string()];
    assert_eq!(
        Config::new(&arguments, &probe()).err(),
        Some(ConfigError::SignTransforms(TransformError::Regexp))
    );
}

#[test]
fn threads_follow_the_options() {
    let mut arguments = args();
    assert_eq!(arguments.num_threads(8), (1, 1));
    arguments.jobs = Some(0);
    assert_eq!(arguments.num_threads(8), (8, 8));
    arguments.jobs = Some(3);
    arguments.jobs_initial = Some(5);
    assert_eq!(arguments.num_threads(8), (5, 3));
    arguments.jobs_initial = Some(0);
    assert_eq!(arguments.num_threads(8), (0, 3));
}

#[test]
fn generation_steps_are_planned() {
    let config = Config::new(&args(), &probe()).unwrap();
    let dims = config.dimensions_to_render(false, false);
    assert_eq!(
        generate_java(&config, &dims),
        vec![
            JavaStep::ProcessRegions(Dimension::Overworld),
            JavaStep::RenderTiles(Dimension::Overworld),
            JavaStep::GenerateMipmaps(Dimension::Overworld),
            JavaStep::CollectEntities(Dimension::Overworld),
            JavaStep::RouteOverlays(Dimension::Overworld),
            JavaStep::WriteMetadata,
            JavaStep::WriteOverlays,
        ]
    );

    let mut arguments = args();
    arguments.nether = true;
    arguments.structures = true;
    arguments.mob_markers = true;
    arguments.poi_markers = true;
    arguments.emit_overlays = Some("/e".to_string());
    arguments.emit_player_data = Some("/p".to_string());
    let config = Config::new(&arguments, &probe()).unwrap();
    let steps = generate_java(&config, &config.dimensions_to_render(true, true));
    assert_eq!(steps.len(), 2 * 7 + 1 + 3 + 1 + 4 + 2);
    assert_eq!(steps[13], JavaStep::CollectMobs(Dimension::Nether));
    assert_eq!(
        steps[14..],
        [
            JavaStep::WriteMetadata,
            JavaStep::WriteStructures("/out/structures.json".to_string()),
            JavaStep::WritePois("/out/pois.json".to_string()),
            JavaStep::WriteMobs("/out/mobs.json".to_string()),
            JavaStep::WriteOverlays,
            JavaStep::PrintOverlayFiles("/e".to_string()),
            JavaStep::EmitStructures("/e/structures.json".to_string()),
            JavaStep::EmitPois("/e/pois.json".to_string()),
            JavaStep::EmitMobs("/e/mobs.json".to_string()),
            JavaStep::CreatePlayerDir("/p".to_string()),
            JavaStep::EmitPlayers("/p/players.json".to_string()),
        ]
    );
}

#[test]
fn overlays_are_routed_to_their_dimension() {
    let mut combined = OverlayData::default();
    combined.overworld.rail.push((1, 1));
    let mut overlays = OverlayData::default();
    overlays.overworld.rail.push((2, 2));
    route_overlays(&mut combined, Dimension::End, overlays);
    assert_eq!(combined.overworld.rail, vec![(1, 1)]);
    assert_eq!(combined.end.rail, vec![(2, 2)]);
    assert!(combined.nether.rail.is_empty());
}

#[test]
fn changes_of_watched_files_trigger() {
    let paths = |p: &[&str]| p.iter().map(|s| s.to_string()).collect::<Vec<_>>();
    assert!(triggers_generation(Change::Data, &paths(&["/w/level.dat"])));
    assert!(triggers_generation(Change::RenamedTo, &paths(&["/w/x", "/w/a.mcu"])));
    assert!(!triggers_generation(Change::Other, &paths(&["/w/level.dat"])));
    assert!(!triggers_generation(Change::Data, &paths(&["/w/level.dat_old", "/w/xlevel.dat"])));
    assert!(!triggers_generation(Change::Data, &paths(&[".mcu", "/w/level.dat/x"])));
    assert!(!triggers_generation(Change::Data, &paths(&[])));
}

#[test]
fn second_runs_over_a_directory_use_the_cache() {
    let mut entries = vec![dir_entry("r.2.-3.mca", true), dir_entry("r.0.0.mca", true)];
    let regions = list_regions("source", &entries);
    // Other entries make no difference
    entries.insert(1, dir_entry("r.5.5.mca", false));
    entries.insert(0, dir_entry("level.dat", true));
    assert_eq!(list_regions("source", &entries), regions);

    let mut cache = BTreeMap::new();
    // An outdated contribution is computed again, one that is not is kept
    cache.insert((0, 0), (4, 9));
    let mut calls = 0;
    let mut run = |calls: &mut usize| -> Vec<Vec<(i32, i32)>> {
        regions
            .iter()
            .map(|(coords, _)| contribution(*coords, 5, &mut cache, calls).hostile)
            .collect()
    };
    let first = run(&mut calls);
    assert_eq!(calls, 2);
    assert_eq!(first, vec![vec![(2, 0)], vec![(1, 0)]]);
    assert_eq!(run(&mut calls), first);
    assert_eq!(calls, 2);
}

#[test]
fn regions_start_without_processed_data() {
    let mut region = ProcessedRegion::default();
    assert!(region.biome_list.is_empty());
    assert_eq!(region.chunks.items.len(), 1024);
    assert!(region.chunks.items.iter().all(Option::is_none));
    region.chunks.items[33] = Some(Box::new(ProcessedChunk {
        blocks: Box::new(LayerBlockArray::filled(None)),
        biomes: Box::new(LayerBlockArray::filled(None)),
        depths: Box::new(LayerBlockArray::filled(None)),
    }));
    assert_eq!(region.chunks.items.iter().flatten().count(), 1);
    assert!(ProcessedEntities::<u8>::default().block_entities.is_empty());
}
