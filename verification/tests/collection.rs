//! Collected overlay, marker and player data

use minedmap::bedrock::nbt::Value;
use minedmap::de;
use minedmap::java_nbt::{parse, parse_file};
use minedmap::mob;
use minedmap::mob::{EntityRecord, MobData};
use minedmap::overlay::{
    count_built, emit_overlay_files, is_built_block_entity, java_chunk_overlay_info,
    java_chunk_structures, strip_namespace, structure_bb, structures_by_dimension, union_bb,
    ChunkOverlayInfo, Dimension, DimensionOverlay, OverlayData, OverlayStep, Structure,
};
use minedmap::player::{
    apply_stats, collect, dat_uuid, load_name_cache, name_cache_dirs, parse_player,
    parse_usernamecache, player_dirs, read_stats, stats_path, sum_category, NameCache, Number,
    Player, PlayerFile, StatsOutcome, Xp,
};
use minedmap::poi;
use minedmap::poi::{PoiData, PoiRecord};
use minedmap::region_cache::{merge_all, Mergeable};
use std::io::Write;

#[test]
fn test_note_block() {
    let mut info = ChunkOverlayInfo::default();
    info.note_block("minecraft:rail");
    info.note_block("minecraft:powered_rail");
    info.note_block("minecraft:farmland");
    info.note_block("minecraft:nether_portal");
    info.note_block("minecraft:end_portal");
    info.note_block("minecraft:stone");
    assert!(info.rail);
    assert!(info.farmland);
    assert!(info.nether_portal);
    assert!(info.end_portal);
}

#[test]
fn blocks_without_features_change_nothing() {
    let mut info = ChunkOverlayInfo::default();
    for id in ["minecraft:stone", "rails", "mod:farmland", "derail", "nether_portal_frame", ""] {
        info.note_block(id);
    }
    assert_eq!(info, ChunkOverlayInfo::default());
    info.note_block("_rail");
    assert!(info.rail);
}

#[test]
fn test_built_ids() {
    assert!(is_built_block_entity("minecraft:chest"));
    assert!(is_built_block_entity("chest"));
    assert!(is_built_block_entity("minecraft:blast_furnace"));
    assert!(!is_built_block_entity("minecraft:stone"));
    assert!(!is_built_block_entity("minecraft:sign"));
}

#[test]
fn all_built_ids_count() {
    let ids = [
        "chest", "trapped_chest", "barrel", "furnace", "blast_furnace", "smoker",
        "crafting_table", "enchanting_table", "hopper", "dropper", "dispenser", "anvil", "beacon",
        "brewing_stand", "jukebox", "lectern", "loom", "cartography_table", "stonecutter",
        "campfire", "soul_campfire",
    ];
    let entities: Vec<de::BlockEntity> =
        ids.iter().map(|id| de::BlockEntity { id: format!("minecraft:{id}") }).collect();
    assert_eq!(count_built(&entities), 21);
    assert_eq!(strip_namespace("minecraft:minecraft:chest"), "minecraft:chest");
    assert!(!is_built_block_entity("minecraft:minecraft:chest"));
}

fn start(bb: Option<Vec<i32>>, id: &str, children: Vec<Option<Vec<i32>>>) -> de::StructureStart {
    de::StructureStart {
        bb,
        id: Some(id.to_string()),
        children: children.into_iter().map(|bb| de::StructurePiece { bb }).collect(),
    }
}

fn chunk_with_structures(structures: de::Structures) -> de::Chunk {
    de::Chunk {
        structures: Some(structures),
        inhabited_time: None,
        chunk: de::ChunkVariant::V1_18 { sections: Vec::new(), block_entities: Vec::new() },
    }
}

#[test]
fn test_java_chunk_structures() {
    let decoded = chunk_with_structures(de::Structures {
        starts: vec![
            (
                "minecraft:village".to_string(),
                // A child piece extends the bounding box to the east
                start(
                    Some(vec![0, 60, 0, 16, 70, 16]),
                    "minecraft:village",
                    vec![Some(vec![16, 60, 0, 40, 70, 24])],
                ),
            ),
            ("minecraft:mineshaft".to_string(), start(None, "INVALID", vec![])),
        ],
    });
    let structures = java_chunk_structures(&decoded);

    // The INVALID mineshaft is skipped; the village BB is the union of the
    // start and its child piece ([minX, minZ, maxX, maxZ]).
    assert_eq!(structures.len(), 1);
    assert_eq!(structures[0].structure_type, "minecraft:village");
    assert_eq!(structures[0].bb, [0, 0, 40, 24]);
}

#[test]
fn bounding_boxes_cover_all_pieces() {
    let mut acc = None;
    union_bb(&mut acc, &vec![1, 2, 3]);
    assert_eq!(acc, None);
    union_bb(&mut acc, &vec![5, 0, -5, 6, 0, -4]);
    assert_eq!(acc, Some([5, -5, 6, -4]));
    union_bb(&mut acc, &vec![-1, 0, 0, 2, 0, 9, 77]);
    assert_eq!(acc, Some([-1, -5, 6, 9]));

    // Structures with no box at all have none, invalid or not
    assert_eq!(structure_bb(&start(None, "x", vec![None, Some(vec![1])])), None);
    assert_eq!(
        structure_bb(&start(None, "x", vec![None, Some(vec![1, 2, 3, 4, 5, 6])])),
        Some([1, 3, 4, 6])
    );
    let chunk = chunk_with_structures(de::Structures {
        starts: vec![
            ("none".to_string(), start(None, "x", vec![])),
            ("invalid".to_string(), start(Some(vec![0; 6]), "INVALID", vec![])),
            ("valid".to_string(), start(Some(vec![0; 6]), "invalid", vec![])),
        ],
    });
    let found: Vec<String> =
        java_chunk_structures(&chunk).into_iter().map(|s| s.structure_type).collect();
    assert_eq!(found, vec!["valid"]);
}

#[test]
fn structures_of_older_chunks_are_in_the_level() {
    let level = de::Level {
        structures: Some(de::Structures {
            starts: vec![("old".to_string(), start(Some(vec![1; 6]), "x", vec![]))],
        }),
        inhabited_time: None,
        sections: Vec::new(),
        tile_entities: Vec::new(),
    };
    let chunk = de::Chunk {
        structures: None,
        inhabited_time: None,
        chunk: de::ChunkVariant::V0 { level },
    };
    assert_eq!(java_chunk_structures(&chunk).len(), 1);
    let empty = de::Chunk {
        structures: None,
        inhabited_time: None,
        chunk: de::ChunkVariant::V1_18 { sections: Vec::new(), block_entities: Vec::new() },
    };
    assert!(java_chunk_structures(&empty).is_empty());
}

fn palette(names: &[&str]) -> Vec<de::BlockStatePaletteEntry> {
    names.iter().map(|name| de::BlockStatePaletteEntry { name: name.to_string() }).collect()
}

fn entities(ids: &[&str]) -> Vec<de::BlockEntity> {
    ids.iter().map(|id| de::BlockEntity { id: id.to_string() }).collect()
}

#[test]
fn test_java_chunk_overlay_info() {
    let decoded = de::Chunk {
        structures: None,
        inhabited_time: Some(4321),
        chunk: de::ChunkVariant::V1_18 {
            sections: vec![de::SectionV1_18Variant::V1_18 {
                palette: palette(&[
                    "minecraft:stone",
                    "minecraft:powered_rail",
                    "minecraft:farmland",
                ]),
            }],
            block_entities: entities(&[
                "minecraft:chest",
                "minecraft:furnace",
                "minecraft:bed",
            ]),
        },
    };
    let info = java_chunk_overlay_info(&decoded);

    assert_eq!(info.inhabited_time, 4321);
    assert!(info.rail);
    assert!(info.farmland);
    assert!(!info.nether_portal);
    assert!(!info.end_portal);
    // chest + furnace are player-placed; bed is not in the built set
    assert_eq!(info.built, 2);
}

#[test]
fn older_chunks_give_overlay_info_too() {
    let level = |inhabited_time| de::Level {
        structures: None,
        inhabited_time,
        sections: vec![
            de::SectionV0Variant::V0,
            de::SectionV0Variant::V1_13 { palette: palette(&["nether_portal"]) },
            de::SectionV0Variant::Empty,
            de::SectionV0Variant::V1_13 { palette: palette(&["minecraft:end_portal"]) },
        ],
        tile_entities: entities(&["hopper"]),
    };
    let chunk = |time, level_time| de::Chunk {
        structures: None,
        inhabited_time: time,
        chunk: de::ChunkVariant::V0 { level: level(level_time) },
    };
    let info = java_chunk_overlay_info(&chunk(None, Some(5)));
    assert_eq!(info.inhabited_time, 5);
    assert!(info.nether_portal && info.end_portal);
    assert!(!info.rail && !info.farmland && !info.slime);
    assert_eq!(info.built, 1);
    assert_eq!(java_chunk_overlay_info(&chunk(Some(7), Some(5))).inhabited_time, 7);
    assert_eq!(java_chunk_overlay_info(&chunk(None, None)).inhabited_time, 0);
}

fn info(inhabited_time: i64, rail: bool, built: u32) -> ChunkOverlayInfo {
    ChunkOverlayInfo { inhabited_time, rail, built, ..ChunkOverlayInfo::default() }
}

#[test]
fn overlays_keep_what_is_notable() {
    let mut overlay = DimensionOverlay::default();
    overlay.add(1, 2, &info(0, false, 0));
    assert!(overlay.inhabited.is_empty() && overlay.rail.is_empty() && overlay.built.is_empty());
    overlay.add(1, 2, &info(-5, false, 0));
    assert!(overlay.inhabited.is_empty());
    overlay.add(3, 4, &info(9, true, 2));
    assert_eq!(overlay.inhabited, vec![(3, 4, 9)]);
    assert_eq!(overlay.rail, vec![(3, 4)]);
    assert_eq!(overlay.built, vec![(3, 4, 2)]);
    overlay.add(
        5,
        6,
        &ChunkOverlayInfo {
            farmland: true,
            nether_portal: true,
            end_portal: true,
            slime: true,
            ..ChunkOverlayInfo::default()
        },
    );
    assert_eq!(overlay.farmland, vec![(5, 6)]);
    assert_eq!(overlay.nether_portal, vec![(5, 6)]);
    assert_eq!(overlay.end_portal, vec![(5, 6)]);
    assert_eq!(overlay.slime, vec![(5, 6)]);
}

fn structure(bb: [i32; 4], structure_type: &str) -> Structure {
    Structure { structure_type: structure_type.to_string(), bb }
}

#[test]
fn merged_overlays_do_not_depend_on_the_order() {
    let part = |x: i32| {
        let mut overlay = DimensionOverlay::default();
        overlay.add(x, 1, &info(x as i64 + 10, true, 1));
        overlay.add(x, -1, &info(x as i64 + 20, true, 0));
        overlay.structures.push(structure([x, 0, x, 0], "b"));
        overlay.structures.push(structure([0, 0, 0, 0], if x == 1 { "z" } else { "a" }));
        overlay
    };
    let merged = |order: [i32; 2]| {
        let mut overlay = DimensionOverlay::default();
        for x in order {
            overlay.merge(part(x));
        }
        overlay.sort();
        overlay
    };
    let a = merged([1, 2]);
    let b = merged([2, 1]);
    assert_eq!(a.inhabited, vec![(1, -1, 21), (1, 1, 11), (2, -1, 22), (2, 1, 12)]);
    assert_eq!(a.inhabited, b.inhabited);
    assert_eq!(a.rail, b.rail);
    assert_eq!(a.built, b.built);
    let names = |o: &DimensionOverlay| {
        o.structures.iter().map(|s| (s.bb, s.structure_type.clone())).collect::<Vec<_>>()
    };
    assert_eq!(
        names(&a),
        vec![
            ([0, 0, 0, 0], "a".to_string()),
            ([0, 0, 0, 0], "z".to_string()),
            ([1, 0, 1, 0], "b".to_string()),
            ([2, 0, 2, 0], "b".to_string()),
        ]
    );
    assert_eq!(names(&a), names(&b));
}

#[test]
fn overlay_data_is_written_sorted_to_each_directory() {
    let mut data = OverlayData::default();
    data.dimension_mut(Dimension::Nether).rail.push((2, 0));
    data.dimension_mut(Dimension::Nether).rail.push((1, 0));
    assert!(data.dimension(Dimension::Overworld).rail.is_empty());
    let (sorted, steps) = data.write(&vec!["a".to_string(), "b/".to_string()]);
    assert_eq!(sorted.nether.rail, vec![(1, 0), (2, 0)]);
    assert_eq!(
        steps,
        vec![
            OverlayStep::CreateDir("a".to_string()),
            OverlayStep::Heatmap("a/inhabited_heatmap.json".to_string()),
            OverlayStep::Features("a/block_features.json".to_string()),
            OverlayStep::CreateDir("b/".to_string()),
            OverlayStep::Heatmap("b/inhabited_heatmap.json".to_string()),
            OverlayStep::Features("b/block_features.json".to_string()),
        ]
    );
    assert_eq!(
        emit_overlay_files("out"),
        ("out/inhabited_heatmap.json".to_string(), "out/block_features.json".to_string())
    );
}

#[test]
fn structures_are_listed_by_dimension() {
    let mut data = OverlayData::default();
    data.end.structures.push(structure([2, 0, 0, 0], "x"));
    data.end.structures.push(structure([1, 9, 9, 9], "y"));
    let listed = structures_by_dimension(&data);
    let keys: Vec<&str> = listed.iter().map(|(d, _)| d.key()).collect();
    assert_eq!(keys, vec!["overworld", "nether", "end"]);
    assert!(listed[0].1.is_empty());
    let types: Vec<&str> = listed[2].1.iter().map(|s| s.structure_type.as_str()).collect();
    assert_eq!(types, vec!["y", "x"]);
}

#[test]
fn mob_test_category() {
    assert_eq!(mob::category("minecraft:zombie"), Some("hostile"));
    assert_eq!(mob::category("minecraft:creeper"), Some("hostile"));
    assert_eq!(mob::category("minecraft:cow"), Some("passive"));
    assert_eq!(mob::category("villager"), Some("passive"));
    assert_eq!(mob::category("minecraft:item"), None);
    assert_eq!(mob::category("minecraft:arrow"), None);
}

fn entity(id: &str, pos: &[f64]) -> EntityRecord {
    EntityRecord {
        id: id.to_string(),
        pos: pos.iter().map(|v| v.floor() as i32).collect(),
    }
}

#[test]
fn test_entity_chunk_parsing() {
    let entities = vec![
        entity("minecraft:zombie", &[10.5, 64.0, -20.5]),
        entity("minecraft:cow", &[5.0, 63.0, 5.0]),
        entity("minecraft:item", &[0.0, 0.0, 0.0]),
    ];
    let mut data = MobData::default();
    for entity in &entities {
        if let Some(category) = mob::category(&entity.id) {
            data.push(category, entity.pos[0], entity.pos[2]);
        }
    }
    data.finish();

    assert_eq!(data.hostile, vec![(10, -21)]);
    assert_eq!(data.passive, vec![(5, 5)]);

    let mut collected = mob::collect_file(&entities);
    collected.finish();
    assert_eq!(collected.hostile, data.hostile);
    assert_eq!(collected.passive, data.passive);
}

#[test]
fn mobs_are_merged_in_any_order() {
    let file = |x: f64| {
        mob::collect_file(&vec![
            entity("zombie", &[x, 0.0, 1.0]),
            entity("pig", &[x, 0.0, 2.0]),
            entity("creeper", &[x, 0.0]),
        ])
    };
    let merged = mob::collect(vec![file(3.0), file(1.0), file(2.0)]);
    assert_eq!(merged.hostile, vec![(1, 1), (2, 1), (3, 1)]);
    assert_eq!(merged.passive, vec![(1, 2), (2, 2), (3, 2)]);
    let again = mob::collect(vec![file(1.0), file(2.0), file(3.0)]);
    assert_eq!(merged.hostile, again.hostile);
    // Repetitions are kept
    let twice = mob::collect(vec![file(1.0), file(1.0)]);
    assert_eq!(twice.hostile, vec![(1, 1), (1, 1)]);
    assert!(mob::collect(vec![]).hostile.is_empty());
}

#[test]
fn merging_keeps_the_order_of_parts() {
    let part = |x: i32| {
        let mut data = MobData::empty();
        data.push("hostile", x, 0);
        data.push("other", -x, 0);
        data
    };
    let merged = merge_all(vec![part(1), part(2), part(3)]);
    assert_eq!(merged.hostile, vec![(1, 0), (2, 0), (3, 0)]);
    assert_eq!(merged.passive, vec![(-1, 0), (-2, 0), (-3, 0)]);
    // Parts may be merged in groups
    let mut grouped = merge_all(vec![part(1)]);
    grouped.merge(merge_all(vec![part(2), part(3)]));
    assert_eq!(grouped.hostile, merged.hostile);
}

#[test]
fn poi_test_category() {
    assert_eq!(poi::category("minecraft:meeting"), "village");
    assert_eq!(poi::category("minecraft:home"), "home");
    assert_eq!(poi::category("minecraft:nether_portal"), "portal");
    assert_eq!(poi::category("minecraft:armorer"), "jobsite");
    assert_eq!(poi::category("minecraft:lodestone"), "lodestone");
    assert_eq!(poi::category("minecraft:something_else"), "other");
}

#[test]
fn all_professions_have_job_sites() {
    for name in [
        "armorer", "butcher", "cartographer", "cleric", "farmer", "fisherman", "fletcher",
        "leatherworker", "librarian", "mason", "shepherd", "toolsmith", "weaponsmith",
    ] {
        assert_eq!(poi::category(name), "jobsite");
    }
}

fn record(poi_type: &str, pos: &[i32]) -> PoiRecord {
    PoiRecord { pos: pos.to_vec(), poi_type: poi_type.to_string() }
}

#[test]
fn test_poi_chunk_parsing() {
    // A POI chunk with a meeting point and a bed
    let records = vec![
        record("minecraft:meeting", &[10, 64, -20]),
        record("minecraft:home", &[5, 63, 5]),
    ];
    let mut data = PoiData::default();
    for record in &records {
        data.push(poi::category(&record.poi_type), record.pos[0], record.pos[2]);
    }
    data.finish();

    assert_eq!(data.village, vec![(10, -20)]);
    assert_eq!(data.home, vec![(5, 5)]);
    assert!(data.jobsite.is_empty());
}

#[test]
fn pois_are_sorted_and_listed_once() {
    let file = |records: &[PoiRecord]| {
        let copies: Vec<PoiRecord> =
            records.iter().map(|r| record(&r.poi_type, &r.pos)).collect();
        poi::collect_file(&copies)
    };
    let a = [
        record("home", &[2, 0, 1]),
        record("home", &[1, 0, 5]),
        record("minecraft:mason", &[7, 0, 7]),
        record("bee_nest", &[4, 0, 4]),
        record("home", &[9, 9]),
    ];
    let b = [
        record("home", &[2, 50, 1]),
        record("lodestone", &[0, 0, 0]),
        record("nether_portal", &[8, 1, 8]),
        record("nether_portal", &[8, 2, 8]),
    ];
    for files in [vec![file(&a), file(&b)], vec![file(&b), file(&a)]] {
        let data = poi::collect(files);
        assert_eq!(data.home, vec![(1, 5), (2, 1)]);
        assert_eq!(data.jobsite, vec![(7, 7)]);
        assert_eq!(data.other, vec![(4, 4)]);
        assert_eq!(data.lodestone, vec![(0, 0)]);
        assert_eq!(data.portal, vec![(8, 8)]);
        assert!(data.village.is_empty());
    }
}

/// Builds an NBT compound from name/value pairs
fn compound(entries: Vec<(&str, Value)>) -> Value {
    Value::Compound(entries.into_iter().map(|(k, v)| (k.to_string(), v)).collect())
}

fn text(s: &str) -> Value {
    Value::String(s.to_string())
}

fn double(v: f64) -> Value {
    Value::Double(v.to_bits())
}

fn single(v: f32) -> Value {
    Value::Float(v.to_bits())
}

fn item(slot: i8, id: &str, count: i32) -> Value {
    compound(vec![("Slot", Value::Byte(slot)), ("id", text(id)), ("count", Value::Int(count))])
}

fn number(n: Number) -> f64 {
    match n {
        Number::Float(bits) => f32::from_bits(bits) as f64,
        Number::Double(bits) => f64::from_bits(bits),
        Number::Int(n) => n as f64,
    }
}

#[test]
fn player_test_parse_player() {
    let value = compound(vec![
        ("Pos", Value::List(vec![double(10.5), double(64.0), double(-20.5)])),
        ("Rotation", Value::List(vec![single(90.0), single(0.0)])),
        ("Dimension", text("minecraft:the_nether")),
        ("SpawnX", Value::Int(100)),
        ("SpawnY", Value::Int(70)),
        ("SpawnZ", Value::Int(-50)),
        ("XpLevel", Value::Int(30)),
        ("XpTotal", Value::Int(1395)),
        ("XpP", single(0.5)),
        ("Health", single(18.0)),
        ("foodLevel", Value::Int(17)),
        (
            "Inventory",
            Value::List(vec![
                item(0, "minecraft:diamond_sword", 1),
                item(1, "minecraft:air", 0),
                item(2, "minecraft:cobblestone", 64),
            ]),
        ),
        ("EnderItems", Value::List(vec![item(0, "minecraft:gold_ingot", 5)])),
    ]);

    let player = parse_player("069a79f4-44e9-4726-a5be-fc90d2a28159".to_string(), &value);
    assert_eq!(player.pos.map(number), [10.5, 64.0, -20.5]);
    assert_eq!(player.rotation.map(number), [90.0, 0.0]);
    assert_eq!(player.dimension, "minecraft:the_nether");
    assert_eq!(player.spawn, Some([100, 70, -50]));
    assert_eq!(player.xp.level, 30);
    assert_eq!(player.xp.total, 1395);
    assert_eq!(number(player.xp.progress), 0.5);
    assert_eq!(number(player.health), 18.0);
    assert_eq!(number(player.food), 17.0);
    // minecraft:air slot must be filtered out
    assert_eq!(player.inventory.len(), 2);
    assert_eq!(player.inventory[0].id, "minecraft:diamond_sword");
    assert_eq!(player.inventory[1].id, "minecraft:cobblestone");
    assert_eq!(player.inventory[1].count, 64);
    assert_eq!(player.inventory[1].slot, Some(2));
    assert_eq!(player.ender_items.len(), 1);
    assert_eq!(player.ender_items[0].id, "minecraft:gold_ingot");
}

#[test]
fn test_legacy_count_and_dimension() {
    // Pre-1.20.5 byte `Count` and legacy numeric dimension
    let value = compound(vec![
        ("Pos", Value::List(vec![double(0.0), double(0.0), double(0.0)])),
        ("Dimension", Value::Int(-1)),
        (
            "Inventory",
            Value::List(vec![compound(vec![
                ("Slot", Value::Byte(0)),
                ("id", text("minecraft:stone")),
                ("Count", Value::Byte(32)),
            ])]),
        ),
    ]);
    let player = parse_player("abc".to_string(), &value);
    assert_eq!(player.dimension, "minecraft:the_nether");
    assert_eq!(player.inventory[0].count, 32);
}

#[test]
fn missing_player_data_has_defaults() {
    let player = parse_player("x".to_string(), &compound(vec![]));
    assert_eq!(player.pos, [Number::Int(0); 3]);
    assert_eq!(player.dimension, "minecraft:overworld");
    assert_eq!(player.spawn, None);
    assert_eq!(player.food, Number::Int(0));
    assert!(player.inventory.is_empty());

    let value = compound(vec![
        ("Pos", Value::List(vec![Value::Int(4), text("?")])),
        ("Dimension", Value::Long(1)),
        ("SpawnX", Value::Long(0x1_0000_0005)),
        ("SpawnZ", Value::Long(-0x1_0000_0005)),
        // A count that is no number counts as one
        (
            "Inventory",
            Value::List(vec![
                compound(vec![("id", text("a")), ("count", text("?")), ("Count", Value::Byte(9))]),
                compound(vec![("Slot", Value::Byte(1))]),
                Value::Int(3),
            ]),
        ),
    ]);
    let player = parse_player("x".to_string(), &value);
    assert_eq!(player.pos, [Number::Int(4), Number::Int(0), Number::Int(0)]);
    assert_eq!(player.dimension, "minecraft:the_end");
    // Numbers keep their low 32 bits
    assert_eq!(player.spawn, Some([5, 0, -5]));
    assert_eq!(player.inventory.len(), 1);
    assert_eq!(player.inventory[0].count, 1);
    assert_eq!(player.inventory[0].slot, None);
}

fn new_player(uuid: &str) -> Player {
    Player {
        uuid: uuid.to_string(),
        name: None,
        pos: [Number::Int(0); 3],
        dimension: "minecraft:overworld".to_string(),
        rotation: [Number::Int(0); 2],
        spawn: None,
        xp: Xp { level: 0, total: 0, progress: Number::Int(0) },
        health: Number::Int(0),
        food: Number::Int(0),
        stats: None,
        killed_by: Vec::new(),
        crafted: Vec::new(),
        inventory: Vec::new(),
        ender_items: Vec::new(),
    }
}

#[test]
fn test_stats_parsing() {
    let stats = br#"{
        "stats": {
            "minecraft:custom": {
                "minecraft:play_time": 12000,
                "minecraft:deaths": 3,
                "minecraft:mob_kills": 42,
                "minecraft:walk_one_cm": 150000
            },
            "minecraft:mined": { "minecraft:stone": 100, "minecraft:dirt": 50 },
            "minecraft:used": { "minecraft:cobblestone": 30 },
            "minecraft:killed_by": { "minecraft:creeper": 2 },
            "minecraft:crafted": { "minecraft:torch": 64 }
        }
    }"#;
    let mut player = new_player("test-uuid");
    assert_eq!(apply_stats(&mut player, stats), StatsOutcome::Applied);

    let s = player.stats.expect("stats should be present");
    assert_eq!(s.play_time, 12000);
    assert_eq!(s.deaths, 3);
    assert_eq!(s.mob_kills, 42);
    assert_eq!(s.walk_cm, 150000);
    assert_eq!(s.blocks_mined, 150);
    assert_eq!(s.blocks_placed, 30);
    assert_eq!(player.killed_by, vec![("minecraft:creeper".to_string(), 2)]);
    assert_eq!(player.crafted, vec![("minecraft:torch".to_string(), 64)]);
}

#[test]
fn unusual_stats_files() {
    let mut player = new_player("p");
    assert_eq!(apply_stats(&mut player, b"not json"), StatsOutcome::Invalid);
    assert!(player.stats.is_none());
    assert_eq!(
        apply_stats(
            &mut player,
            br#"{"stats": {"minecraft:mined": {"a": 9223372036854775807, "b": 1}}}"#
        ),
        StatsOutcome::TooLarge
    );
    assert!(player.stats.is_none());

    // Without statistics, everything is zero
    let empty = serde_json::Value::Null;
    let file = read_stats(&empty).unwrap();
    assert_eq!(file.stats.play_time, 0);
    assert!(file.crafted.is_empty());

    // Only integers count, and the older name of the play time is known
    let root: serde_json::Value = serde_json::from_str(
        r#"{"stats": {
            "minecraft:custom": {"minecraft:play_one_minute": 7, "minecraft:play_time": 2,
                "minecraft:aviate_one_cm": 4.5, "minecraft:swim_one_cm": 8,
                "minecraft:sprint_one_cm": 9, "minecraft:player_kills": 1},
            "minecraft:mined": {"x": "many", "y": 2.5, "z": -3},
            "minecraft:used": [1, 2]
        }}"#,
    )
    .unwrap();
    let file = read_stats(&root).unwrap();
    assert_eq!(file.stats.play_time, 7);
    assert_eq!(file.stats.fly_cm, 0);
    assert_eq!(file.stats.swim_cm, 8);
    assert_eq!(file.stats.sprint_cm, 9);
    assert_eq!(file.stats.player_kills, 1);
    assert_eq!(file.stats.blocks_mined, -3);
    assert_eq!(file.stats.blocks_placed, 0);
    assert_eq!(sum_category(&root["stats"], "minecraft:mined"), Some(-3));
}

/// Builds an NBT compound of Java Edition from name/value pairs
fn java_compound(entries: Vec<(&str, fastnbt::Value)>) -> fastnbt::Value {
    fastnbt::Value::Compound(entries.into_iter().map(|(k, v)| (k.to_string(), v)).collect())
}

fn gzip(data: &[u8]) -> Vec<u8> {
    let mut encoder = flate2::write::GzEncoder::new(Vec::new(), flate2::Compression::default());
    encoder.write_all(data).unwrap();
    encoder.finish().unwrap()
}

#[test]
fn test_collect_end_to_end() {
    let uuid = "069a79f4-44e9-4726-a5be-fc90d2a28159";

    // gzip-compressed player NBT
    let value = java_compound(vec![
        (
            "Pos",
            fastnbt::Value::List(vec![
                fastnbt::Value::Double(1.0),
                fastnbt::Value::Double(2.0),
                fastnbt::Value::Double(3.0),
            ]),
        ),
        ("Dimension", fastnbt::Value::String("minecraft:overworld".to_string())),
        ("Health", fastnbt::Value::Float(20.0)),
        ("foodLevel", fastnbt::Value::Int(20)),
        (
            "Inventory",
            fastnbt::Value::List(vec![java_compound(vec![
                ("Slot", fastnbt::Value::Byte(0)),
                ("id", fastnbt::Value::String("minecraft:apple".to_string())),
                ("count", fastnbt::Value::Int(3)),
            ])]),
        ),
    ]);
    let gz = gzip(&fastnbt::to_bytes(&value).unwrap());

    let stats = br#"{"stats": {"minecraft:custom": {"minecraft:deaths": 7}}}"#.to_vec();
    // usercache.json lives in the server dir (the parent of the world dir)
    assert_eq!(name_cache_dirs("base/world"), vec!["base/world", "base"]);
    let names = load_name_cache(&vec![vec![(uuid.to_string(), "Steve".to_string())]]);
    let file_name = format!("{uuid}.dat");
    let files = vec![PlayerFile {
        uuid: dat_uuid(&file_name).unwrap(),
        data: Some(gz),
        stats: Some(stats),
    }];

    let players = collect(&files, &names).unwrap();
    assert_eq!(players.len(), 1);
    let player = &players[0];
    assert_eq!(player.uuid, uuid);
    assert_eq!(player.name.as_deref(), Some("Steve"));
    assert_eq!(player.pos.map(number), [1.0, 2.0, 3.0]);
    assert_eq!(player.inventory.len(), 1);
    assert_eq!(player.inventory[0].id, "minecraft:apple");
    assert_eq!(player.stats.as_ref().unwrap().deaths, 7);
}

#[test]
fn java_nbt_is_converted() {
    let value = java_compound(vec![
        ("short", fastnbt::Value::Short(-2)),
        ("long", fastnbt::Value::Long(1 << 40)),
        ("float", fastnbt::Value::Float(1.5)),
        ("bytes", fastnbt::Value::ByteArray(fastnbt::ByteArray::new(vec![-1, 2]))),
        ("ints", fastnbt::Value::IntArray(fastnbt::IntArray::new(vec![3, -4]))),
        ("longs", fastnbt::Value::LongArray(fastnbt::LongArray::new(vec![5, -6]))),
        ("empty", java_compound(vec![])),
        ("list", fastnbt::Value::List(vec![fastnbt::Value::Byte(1), fastnbt::Value::Byte(-1)])),
    ]);
    let data = fastnbt::to_bytes(&value).unwrap();
    for raw in [data.clone(), gzip(&data)] {
        let root = parse_file(raw).unwrap();
        assert_eq!(root.get("short"), Some(&Value::Short(-2)));
        assert_eq!(root.get("long"), Some(&Value::Long(1 << 40)));
        assert_eq!(root.get("float"), Some(&single(1.5)));
        assert_eq!(root.get("bytes"), Some(&Value::ByteArray(vec![255, 2])));
        assert_eq!(root.get("ints"), Some(&Value::IntArray(vec![3, -4])));
        assert_eq!(root.get("longs"), Some(&Value::LongArray(vec![5, -6])));
        assert_eq!(root.get("empty"), Some(&compound(vec![])));
        assert_eq!(root.get("list"), Some(&Value::List(vec![Value::Byte(1), Value::Byte(-1)])));
        assert_eq!(root.get("other"), None);
    }
    // Only compounds stand at the root, and gzip data must be complete
    assert!(parse(&[3, 0, 0, 0, 0, 0, 1]).is_none());
    assert!(parse(&gzip(&data)).is_none());
    assert!(parse_file(vec![0x1f, 0x8b]).is_none());
    assert_eq!(parse(&[10, 0, 0, 0]), Some(compound(vec![])));
}

#[test]
fn players_are_collected_by_uuid() {
    let file = |uuid: &str, data: Option<Vec<u8>>, stats: Option<&[u8]>| PlayerFile {
        uuid: uuid.to_string(),
        data,
        stats: stats.map(|s| s.to_vec()),
    };
    let empty = vec![10, 0, 0, 0];
    let files = vec![
        file("c", Some(empty.clone()), Some(b"{}")),
        file("a", Some(empty.clone()), Some(b"broken")),
        file("b", None, None),
        file("d", Some(vec![1, 2, 3]), Some(b"{}")),
        file("B", Some(empty.clone()), None),
    ];
    let players = collect(&files, &NameCache::new()).unwrap();
    let found: Vec<(&str, bool)> =
        players.iter().map(|p| (p.uuid.as_str(), p.stats.is_some())).collect();
    assert_eq!(found, vec![("B", false), ("a", false), ("c", true)]);

    let too_large = vec![file(
        "x",
        Some(empty),
        Some(br#"{"stats": {"minecraft:used": {"a": -9223372036854775808, "b": -1}}}"#),
    )];
    assert!(collect(&too_large, &NameCache::new()).is_none());
}

#[test]
fn names_are_found_in_any_case() {
    let mut cache = NameCache::new();
    cache.add("ABC-1", "First");
    cache.add("abc-1", "Second");
    cache.add_all(&vec![("Abc-2".to_string(), "Other".to_string())]);
    assert_eq!(cache.get("aBc-1").as_deref(), Some("First"));
    assert_eq!(cache.get("ABC-2").as_deref(), Some("Other"));
    assert_eq!(cache.get("abc-3"), None);
}

#[test]
fn first_name_sources_count_most() {
    let pair = |uuid: &str, name: &str| (uuid.to_string(), name.to_string());
    let cache = load_name_cache(&vec![
        vec![pair("u", "one")],
        vec![pair("U", "two"), pair("v", "three")],
    ]);
    assert_eq!(cache.get("u").as_deref(), Some("one"));
    assert_eq!(cache.get("v").as_deref(), Some("three"));
}

#[test]
fn name_caches_are_parsed() {
    let mut pairs = parse_usernamecache(br#"{"u": "Alex", "v": "Sam"}"#).unwrap();
    pairs.sort();
    assert_eq!(
        pairs,
        vec![("u".to_string(), "Alex".to_string()), ("v".to_string(), "Sam".to_string())]
    );
    assert!(parse_usernamecache(br#"{"u": 1}"#).is_none());
    assert!(parse_usernamecache(b"[]").is_none());
}

#[test]
fn player_files_have_known_names() {
    assert_eq!(dat_uuid("abc.dat").as_deref(), Some("abc"));
    assert_eq!(dat_uuid(".dat"), None);
    assert_eq!(dat_uuid("abc.dat_old"), None);
    assert_eq!(dat_uuid("abc"), None);
    assert_eq!(player_dirs("w"), ("w/playerdata".to_string(), "w/stats".to_string()));
    assert_eq!(stats_path("w/stats", "abc"), "w/stats/abc.json");
    assert_eq!(name_cache_dirs("/"), vec!["/"]);
    assert_eq!(name_cache_dirs("world"), vec!["world", ""]);
}

#[test]
fn names_of_statistics_occur_once() {
    let stats = br#"{"stats": {"minecraft:crafted": {"a": 1, "b": 2, "a": 3, "c": "x"}}}"#;
    let mut player = parse_player("id".to_string(), &Value::Compound(vec![]));
    assert_eq!(apply_stats(&mut player, stats), StatsOutcome::Applied);
    assert_eq!(player.crafted, vec![("a".to_string(), 3), ("b".to_string(), 2)]);
    assert!(player.killed_by.is_empty());
}
