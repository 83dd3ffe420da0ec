//! Bedrock Edition data

use minedmap::bedrock::blocks::{block_color, translate_block_name};
use minedmap::bedrock::keys::{describe_chunk_key, describe_key, hex_key, printable_key};
use minedmap::bedrock::nbt::{read_all, NbtError, Reader, Value};
use minedmap::bedrock::player::{
    attribute, collect, is_player_key, parse_player, player_uuid, PlayerEntry,
};
use minedmap::bedrock::subchunk::{block_offset, parse_block_layer, SubChunkError};
use minedmap::compression::{read_nbt, MojangCompressor};
use minedmap::player::Number;
use minedmap::resource::{
    BlockColor, BlockFlag, BlockType, BlockTypes, UnknownBlockMode, UnknownColors,
};
use std::io::Write;

fn stone_types() -> BlockTypes {
    BlockTypes {
        entries: vec![(
            "stone".to_string(),
            BlockType {
                block_color: BlockColor { opaque: true, water: false, color: [127, 127, 127] },
            },
        )],
    }
}

fn unknown_colors() -> UnknownColors {
    let color = |color| BlockColor { opaque: true, water: false, color };
    UnknownColors { neutral: color([128, 128, 128]), named: color([1, 2, 3]) }
}

#[test]
fn test_translate() {
    assert_eq!(translate_block_name("minecraft:stone"), "stone");
    assert_eq!(translate_block_name("minecraft:grass"), "grass_block");
    assert_eq!(translate_block_name("minecraft:snow_layer"), "snow");
    assert_eq!(translate_block_name("snow"), "snow_block");
    assert_eq!(translate_block_name("minecraft:dirt"), "dirt");
}

#[test]
fn translates_all_renamed_blocks() {
    let renamed = [
        ("flowing_water", "water"),
        ("flowing_lava", "lava"),
        ("grass_path", "dirt_path"),
        ("hardened_clay", "terracotta"),
        ("stained_hardened_clay", "terracotta"),
        ("podzol", "podzol"),
        ("log", "oak_log"),
        ("log2", "acacia_log"),
        ("wood", "oak_wood"),
        ("leaves", "oak_leaves"),
        ("leaves2", "acacia_leaves"),
        ("tallgrass", "short_grass"),
        ("yellow_flower", "dandelion"),
    ];
    for (bedrock, java) in renamed {
        assert_eq!(translate_block_name(bedrock), java);
        // The namespace makes no difference
        assert_eq!(translate_block_name(&format!("minecraft:{bedrock}")), java);
    }
    // Other namespaces are kept
    assert_eq!(translate_block_name("mod:log"), "mod:log");
}

#[test]
fn test_block_color_known_and_unknown() {
    let block_types = stone_types();
    let (color, unknown) = block_color(
        "minecraft:stone",
        &block_types,
        UnknownBlockMode::Gray,
        unknown_colors(),
    );
    assert!(!unknown);
    assert!(color.is_some());

    // Unknown blocks are hidden by default, visible in gray/color modes
    let (hidden, unknown) = block_color(
        "minecraft:made_up_block",
        &block_types,
        UnknownBlockMode::Hide,
        unknown_colors(),
    );
    assert!(unknown);
    assert!(hidden.is_none());

    let (gray, _) = block_color(
        "minecraft:made_up_block",
        &block_types,
        UnknownBlockMode::Gray,
        unknown_colors(),
    );
    assert_eq!(gray.unwrap().color, unknown_colors().neutral.color);
    assert!(gray.unwrap().is(BlockFlag::Opaque));

    let (colored, unknown) = block_color(
        "minecraft:made_up_block",
        &block_types,
        UnknownBlockMode::Color,
        unknown_colors(),
    );
    assert!(unknown);
    assert_eq!(colored, Some(unknown_colors().named));
}

#[test]
fn test_read_compound() {
    // TAG_Compound (10), name "" (len 0)
    //   TAG_String (8) name "name" -> "minecraft:stone"
    //   TAG_Int (3) name "version" -> 17879555
    // TAG_End (0)
    let mut data = vec![10u8, 0, 0];
    // name string
    data.push(8);
    data.extend_from_slice(&4u16.to_le_bytes());
    data.extend_from_slice(b"name");
    data.extend_from_slice(&15u16.to_le_bytes());
    data.extend_from_slice(b"minecraft:stone");
    // version int
    data.push(3);
    data.extend_from_slice(&7u16.to_le_bytes());
    data.extend_from_slice(b"version");
    data.extend_from_slice(&17879555i32.to_le_bytes());
    data.push(0); // end

    let values = read_all(&data).unwrap();
    assert_eq!(values.len(), 1);
    assert_eq!(
        values[0].get("name").and_then(Value::as_str),
        Some("minecraft:stone")
    );
    assert_eq!(values[0].get("version"), Some(&Value::Int(17879555)));
}

/// Builds a named root value from a tag and a payload
fn root(tag: u8, payload: &[u8]) -> Vec<u8> {
    let mut data = vec![tag, 0, 0];
    data.extend_from_slice(payload);
    data
}

#[test]
fn reads_every_value_type() {
    assert_eq!(read_all(&root(1, &[0xff])).unwrap(), vec![Value::Byte(-1)]);
    assert_eq!(read_all(&root(2, &[0xfe, 0xff])).unwrap(), vec![Value::Short(-2)]);
    assert_eq!(read_all(&root(3, &(-3i32).to_le_bytes())).unwrap(), vec![Value::Int(-3)]);
    assert_eq!(read_all(&root(4, &(-4i64).to_le_bytes())).unwrap(), vec![Value::Long(-4)]);
    assert_eq!(
        read_all(&root(5, &1.5f32.to_le_bytes())).unwrap(),
        vec![Value::Float(1.5f32.to_bits())]
    );
    assert_eq!(
        read_all(&root(6, &(-2.5f64).to_le_bytes())).unwrap(),
        vec![Value::Double((-2.5f64).to_bits())]
    );
    assert_eq!(
        read_all(&root(7, &[2, 0, 0, 0, 7, 8])).unwrap(),
        vec![Value::ByteArray(vec![7, 8])]
    );
    assert_eq!(
        read_all(&root(9, &[1, 2, 0, 0, 0, 5, 6])).unwrap(),
        vec![Value::List(vec![Value::Byte(5), Value::Byte(6)])]
    );
    assert_eq!(
        read_all(&root(11, &[1, 0, 0, 0, 9, 0, 0, 0])).unwrap(),
        vec![Value::IntArray(vec![9])]
    );
    assert_eq!(
        read_all(&root(12, &[1, 0, 0, 0, 9, 0, 0, 0, 0, 0, 0, 0])).unwrap(),
        vec![Value::LongArray(vec![9])]
    );
}

#[test]
fn reads_values_written_back_to_back() {
    let mut data = root(1, &[1]);
    data.extend(root(2, &[2, 0]));
    assert_eq!(read_all(&data).unwrap(), vec![Value::Byte(1), Value::Short(2)]);
    assert_eq!(read_all(&[]).unwrap(), vec![]);
    // An end tag ends the list
    data.push(0);
    data.push(99);
    assert_eq!(read_all(&data).unwrap().len(), 2);
}

#[test]
fn complete_values_do_not_depend_on_what_follows() {
    let first = [root(9, &[1, 2, 0, 0, 0, 5, 6]), root(11, &[1, 0, 0, 0, 9, 0, 0, 0])].concat();
    let followed = |rest: &[u8]| read_all(&[first.as_slice(), rest].concat());
    let values = read_all(&first).unwrap();
    assert_eq!(values.len(), 2);
    // Values of the rest come behind the first ones, errors of the rest are reported
    let mut all = read_all(&first).unwrap();
    all.push(Value::Short(2));
    assert_eq!(followed(&root(2, &[2, 0])), Ok(all));
    assert_eq!(followed(&root(13, &[])), Err(NbtError::UnknownTag(13)));
    assert_eq!(followed(&root(2, &[2])), Err(NbtError::UnexpectedEnd));
    // Nothing is read behind a zero tag
    assert_eq!(followed(&[0, 13, 0, 0]), Ok(values));
}

#[test]
fn replaces_bytes_that_are_not_text() {
    let mut data = vec![8u8, 0, 0, 3, 0];
    data.extend_from_slice(&[b'a', 0xff, b'b']);
    assert_eq!(
        read_all(&data).unwrap(),
        vec![Value::String("a\u{fffd}b".to_string())]
    );
}

#[test]
fn reports_nbt_errors() {
    assert_eq!(read_all(&root(13, &[])), Err(NbtError::UnknownTag(13)));
    assert_eq!(read_all(&[1, 0]), Err(NbtError::UnexpectedEnd));
    let negative = (-1i32).to_le_bytes();
    assert_eq!(read_all(&root(7, &negative)), Err(NbtError::NegativeByteArrayLength));
    assert_eq!(read_all(&root(11, &negative)), Err(NbtError::NegativeIntArrayLength));
    assert_eq!(read_all(&root(12, &negative)), Err(NbtError::NegativeLongArrayLength));
    let mut list = vec![1u8];
    list.extend_from_slice(&negative);
    assert_eq!(read_all(&root(9, &list)), Err(NbtError::NegativeListLength));
}

#[test]
fn reader_tracks_its_position() {
    let data = root(1, &[1]);
    let mut reader = Reader::new(&data);
    assert!(!reader.at_end());
    assert_eq!(reader.position(), 0);
    assert_eq!(reader.read_value().unwrap(), Some(Value::Byte(1)));
    assert_eq!(reader.position(), data.len());
    assert!(reader.at_end());
    assert_eq!(reader.read_value().unwrap(), None);
}

/// Builds a minimal NBT palette entry compound for a block name
fn palette_entry(name: &str) -> Vec<u8> {
    let mut data = vec![10u8, 0, 0]; // compound, empty name
    data.push(8); // string tag
    data.extend_from_slice(&4u16.to_le_bytes());
    data.extend_from_slice(b"name");
    data.extend_from_slice(&(name.len() as u16).to_le_bytes());
    data.extend_from_slice(name.as_bytes());
    data.push(0); // end
    data
}

#[test]
fn test_parse_single_palette() {
    // version 8, 1 storage layer, bits=1, palette [air, stone]
    let mut data = vec![8u8, 1];
    data.push(1 << 1); // header: bits=1, not runtime
    // 4096 blocks, 1 bit each, 32 blocks per word -> 128 words.
    // Set block 0 to index 1 (stone), rest 0 (air).
    let mut words = vec![0u32; 128];
    words[0] = 1;
    for w in &words {
        data.extend_from_slice(&w.to_le_bytes());
    }
    data.extend_from_slice(&2u32.to_le_bytes()); // palette size
    data.extend_from_slice(&palette_entry("minecraft:air"));
    data.extend_from_slice(&palette_entry("minecraft:stone"));

    let layer = parse_block_layer(&data).unwrap().unwrap();
    assert_eq!(layer.palette, vec!["minecraft:air", "minecraft:stone"]);
    assert_eq!(
        layer.name_at(block_offset(0, 0, 0)),
        Some("minecraft:stone")
    );
    assert_eq!(layer.name_at(block_offset(0, 1, 0)), Some("minecraft:air"));
}

#[test]
fn test_invalid_bits_rejected() {
    // A corrupt bit width must produce an error instead of panicking with a
    // divide-by-zero (32 / bits == 0 for bits > 32).
    let data = vec![8u8, 1, 40u8]; // version 8, 1 layer, header bits = 20
    assert!(parse_block_layer(&data).is_err());

    // Truncated data must also be handled gracefully.
    assert!(parse_block_layer(&[8u8]).is_err());
    assert!(parse_block_layer(&[]).unwrap().is_none());
}

#[test]
fn packed_indices_are_read_back() {
    // 5 bits per block: 6 blocks per word, with 2 bits left over
    let indices: Vec<u32> = (0..4096u32).map(|i| (i * 7) % 32).collect();
    let mut data = vec![9u8, 1, 0, 5 << 1];
    for chunk in indices.chunks(6) {
        let mut word = 0u32;
        for (i, index) in chunk.iter().enumerate() {
            word |= index << (5 * i);
        }
        data.extend_from_slice(&word.to_le_bytes());
    }
    data.extend_from_slice(&32u32.to_le_bytes());
    for i in 0..32 {
        data.extend_from_slice(&palette_entry(&format!("b{i}")));
    }
    let layer = parse_block_layer(&data).unwrap().unwrap();
    for (offset, index) in indices.iter().enumerate() {
        assert_eq!(layer.palette_index(offset), *index as usize);
        assert_eq!(layer.name_at(offset), Some(format!("b{index}").as_str()));
    }
    assert_eq!(layer.palette_index(5000), 0);
}

#[test]
fn only_the_first_storage_layer_is_read() {
    let mut data = vec![8u8, 2, 1 << 1];
    for word in 0..128u32 {
        data.extend_from_slice(&word.wrapping_mul(0x9e37_79b9).to_le_bytes());
    }
    data.extend_from_slice(&2u32.to_le_bytes());
    data.extend_from_slice(&palette_entry("minecraft:air"));
    data.extend_from_slice(&palette_entry("minecraft:stone"));
    let layer = parse_block_layer(&data).unwrap().unwrap();
    for extra in [vec![0u8], palette_entry("minecraft:dirt"), vec![0xff; 1000]] {
        let longer = parse_block_layer(&[data.clone(), extra].concat()).unwrap().unwrap();
        assert_eq!(longer.palette, layer.palette);
        for offset in 0..5000 {
            assert_eq!(longer.palette_index(offset), layer.palette_index(offset));
        }
    }
}

#[test]
fn all_bit_widths_are_unpacked() {
    for bits in 1..=16u32 {
        let per_word = 32 / bits as usize;
        let mask = (1u32 << bits) - 1;
        let indices: Vec<u32> = (0..4096u32).map(|i| i.wrapping_mul(2654435761) & mask).collect();
        let mut data = vec![1u8, (bits << 1) as u8];
        for chunk in indices.chunks(per_word) {
            let mut word = 0u32;
            for (i, index) in chunk.iter().enumerate() {
                word |= index << (bits as usize * i);
            }
            data.extend_from_slice(&word.to_le_bytes());
        }
        data.extend_from_slice(&0u32.to_le_bytes());
        let layer = parse_block_layer(&data).unwrap().unwrap();
        for (offset, index) in indices.iter().enumerate() {
            assert_eq!(layer.palette_index(offset), *index as usize);
        }
        assert_eq!(layer.name_at(0), None);
        // One byte less is not enough
        data.pop();
        assert_eq!(parse_block_layer(&data).err(), Some(SubChunkError::UnexpectedEnd));
    }
}

#[test]
fn single_block_subchunks_have_no_words() {
    let mut data = vec![1u8, 0];
    data.extend_from_slice(&1u32.to_le_bytes());
    data.extend_from_slice(&palette_entry("minecraft:air"));
    let layer = parse_block_layer(&data).unwrap().unwrap();
    assert_eq!(layer.name_at(4095), Some("minecraft:air"));
    assert!(parse_block_layer(&[8, 0]).unwrap().is_none());
    assert!(parse_block_layer(&[9, 0, 5]).unwrap().is_none());
}

#[test]
fn reports_subchunk_errors() {
    let error = |data: &[u8]| parse_block_layer(data).err();
    assert_eq!(error(&[7]), Some(SubChunkError::UnsupportedVersion(7)));
    assert_eq!(error(&[8]), Some(SubChunkError::UnexpectedEnd));
    assert_eq!(error(&[1, 3]), Some(SubChunkError::RuntimePalette));
    assert_eq!(error(&[1, 40]), Some(SubChunkError::InvalidBitWidth(20)));
    assert_eq!(error(&[1, 0, 1, 0, 0, 0]), Some(SubChunkError::TruncatedPalette));
    assert_eq!(
        error(&[1, 0, 1, 0, 0, 0, 10, 0, 0, 0]),
        Some(SubChunkError::MissingName)
    );
    assert_eq!(
        error(&[1, 0, 1, 0, 0, 0, 13, 0, 0]),
        Some(SubChunkError::Nbt(NbtError::UnknownTag(13)))
    );
}

#[test]
fn block_offsets_order_x_z_y() {
    assert_eq!(block_offset(0, 0, 0), 0);
    assert_eq!(block_offset(0, 1, 0), 1);
    assert_eq!(block_offset(0, 0, 1), 16);
    assert_eq!(block_offset(1, 0, 0), 256);
    assert_eq!(block_offset(15, 15, 15), 4095);
}

/// Builds an NBT compound from name/value pairs
fn compound(entries: Vec<(&str, Value)>) -> Value {
    Value::Compound(entries.into_iter().map(|(k, v)| (k.to_string(), v)).collect())
}

fn float(v: f32) -> Value {
    Value::Float(v.to_bits())
}

fn as_f64(n: Number) -> f64 {
    match n {
        Number::Float(bits) => f32::from_bits(bits) as f64,
        Number::Double(bits) => f64::from_bits(bits),
        Number::Int(n) => n as f64,
    }
}

#[test]
fn test_parse_player() {
    let root = compound(vec![
        ("Pos", Value::List(vec![float(10.5), float(64.0), float(-20.5)])),
        ("Rotation", Value::List(vec![float(90.0), float(0.0)])),
        ("DimensionId", Value::Int(1)),
        ("SpawnX", Value::Int(100)),
        ("SpawnY", Value::Int(70)),
        ("SpawnZ", Value::Int(-50)),
        ("PlayerLevel", Value::Int(30)),
        ("PlayerLevelProgress", float(0.5)),
        (
            "Attributes",
            Value::List(vec![
                compound(vec![
                    ("Name", Value::String("minecraft:health".to_string())),
                    ("Current", float(18.0)),
                ]),
                compound(vec![
                    ("Name", Value::String("minecraft:player.hunger".to_string())),
                    ("Current", float(17.0)),
                ]),
            ]),
        ),
        (
            "Inventory",
            Value::List(vec![
                compound(vec![
                    ("Slot", Value::Byte(0)),
                    ("Name", Value::String("minecraft:diamond_sword".to_string())),
                    ("Count", Value::Byte(1)),
                ]),
                compound(vec![
                    ("Slot", Value::Byte(1)),
                    ("Name", Value::String("minecraft:air".to_string())),
                    ("Count", Value::Byte(0)),
                ]),
            ]),
        ),
    ]);

    let player = parse_player("local".to_string(), &root);
    assert_eq!(player.pos.map(as_f64), [10.5, 64.0, -20.5]);
    assert_eq!(player.rotation.map(as_f64), [90.0, 0.0]);
    assert_eq!(player.dimension, "minecraft:the_nether");
    assert_eq!(player.spawn, Some([100, 70, -50]));
    assert_eq!(player.xp.level, 30);
    assert_eq!(as_f64(player.health), 18.0);
    assert_eq!(as_f64(player.food), 17.0);
    // minecraft:air must be filtered out
    assert_eq!(player.inventory.len(), 1);
    assert_eq!(player.inventory[0].id, "minecraft:diamond_sword");
    assert!(player.stats.is_none());
}

#[test]
fn attributes_are_found_by_name() {
    let entry = |name: &str, value: i32| {
        compound(vec![
            ("Name", Value::String(name.to_string())),
            ("Current", Value::Int(value)),
        ])
    };
    let root = compound(vec![(
        "Attributes",
        Value::List(vec![entry("a", 1), entry("b", 2), entry("b", 3)]),
    )]);
    assert_eq!(attribute(&root, "b"), Some(Number::Int(2)));
    assert_eq!(attribute(&root, "c"), None);
    assert_eq!(attribute(&compound(vec![]), "a"), None);
}

#[test]
fn test_player_uuid() {
    assert_eq!(player_uuid(b"~local_player"), "~local_player");
    assert_eq!(player_uuid(b"player_server_abc-123"), "abc-123");
}

#[test]
fn players_are_collected_in_order() {
    let data = |level: i32| {
        let mut data = vec![10u8, 0, 0, 3];
        data.extend_from_slice(&11u16.to_le_bytes());
        data.extend_from_slice(b"PlayerLevel");
        data.extend_from_slice(&level.to_le_bytes());
        data.push(0);
        data
    };
    let entry = |key: &[u8], data: Option<Vec<u8>>| PlayerEntry { key: key.to_vec(), data };
    let entries = vec![
        entry(b"~local_player", Some(data(3))),
        entry(b"player_server_b", Some(data(2))),
        entry(b"player_server_a", Some(data(1))),
        entry(b"player_server_missing", None),
        entry(b"player_server_broken", Some(vec![13, 0, 0])),
        entry(b"player_server_empty", Some(vec![])),
        entry(b"mVillages", Some(data(9))),
    ];
    let players = collect(&entries);
    let found: Vec<(&str, i32)> =
        players.iter().map(|p| (p.uuid.as_str(), p.xp.level)).collect();
    assert_eq!(found, vec![("a", 1), ("b", 2), ("~local_player", 3)]);
}

#[test]
fn player_keys_are_recognized() {
    assert!(is_player_key(b"~local_player"));
    assert!(is_player_key(b"player_server_"));
    assert!(!is_player_key(b"~local_players"));
    assert!(!is_player_key(b"player_serve"));
    assert!(!is_player_key(b""));
}

/// Builds a chunk key from coordinates, optional dimension and a tag suffix
fn chunk_key(cx: i32, cz: i32, dim: Option<i32>, tail: &[u8]) -> Vec<u8> {
    let mut key = Vec::new();
    key.extend_from_slice(&cx.to_le_bytes());
    key.extend_from_slice(&cz.to_le_bytes());
    if let Some(d) = dim {
        key.extend_from_slice(&d.to_le_bytes());
    }
    key.extend_from_slice(tail);
    key
}

#[test]
fn test_describe_chunk_key() {
    // Overworld subchunk with a Y-index
    let key = chunk_key(1, 2, None, &[0x2f, 0]);
    assert_eq!(
        describe_chunk_key(&key).as_deref(),
        Some("overworld chunk (1, 2) SubChunk y=0")
    );

    // Nether block entity
    let key = chunk_key(-1, 5, Some(1), &[0x31]);
    assert_eq!(
        describe_chunk_key(&key).as_deref(),
        Some("nether chunk (-1, 5) BlockEntity")
    );

    // End version record
    let key = chunk_key(0, 0, Some(2), &[0x78]);
    assert_eq!(
        describe_chunk_key(&key).as_deref(),
        Some("end chunk (0, 0) Version")
    );

    // Unknown tag is not treated as a chunk key
    assert_eq!(describe_chunk_key(&chunk_key(0, 0, None, &[0x01])), None);
}

#[test]
fn test_describe_key() {
    assert_eq!(describe_key(b"~local_player"), "\"~local_player\"");
    assert_eq!(describe_key(b"VILLAGE_x_INFO"), "\"VILLAGE_x_INFO\"");
    // A subchunk key contains NUL bytes, so it is decoded as a chunk key
    assert_eq!(
        describe_key(&chunk_key(3, 4, None, &[0x2f, 1])),
        "overworld chunk (3, 4) SubChunk y=1"
    );
    // Anything else falls back to hex
    assert_eq!(describe_key(&[0x00, 0xff]), "0x00ff");
}

#[test]
fn describes_unusual_keys() {
    // A negative Y-index
    assert_eq!(
        describe_chunk_key(&chunk_key(0, 0, None, &[0x2f, 0xfc])).as_deref(),
        Some("overworld chunk (0, 0) SubChunk y=-4")
    );
    // Only subchunk keys have a Y-index
    assert_eq!(describe_chunk_key(&chunk_key(0, 0, None, &[0x31, 0])), None);
    assert_eq!(describe_chunk_key(b"short"), None);
    assert_eq!(printable_key(b""), None);
    assert_eq!(printable_key(b"tab\t"), None);
    assert_eq!(printable_key(b"a b~"), Some("a b~".to_string()));
    assert_eq!(hex_key(&[0x12, 0xab, 0x0f]), "12ab0f");
}

#[test]
fn compressed_blocks_are_restored() {
    for compressor in [MojangCompressor::Zlib, MojangCompressor::RawZlib] {
        for block in [Vec::new(), vec![0u8; 10_000], (0..=255u8).collect::<Vec<u8>>()] {
            let encoded = compressor.encode(block.clone()).unwrap();
            assert_ne!(encoded, block);
            assert_eq!(compressor.decode(encoded).unwrap(), block);
        }
        assert!(compressor.decode(vec![0xff, 0xff, 0xff]).is_err());
    }
    assert_eq!(MojangCompressor::Zlib.id(), 2);
    assert_eq!(MojangCompressor::RawZlib.id(), 4);
    // zlib data begin with a header, raw DEFLATE data do not
    assert_eq!(MojangCompressor::Zlib.encode(vec![1, 2, 3]).unwrap()[0], 0x78);
    assert_ne!(MojangCompressor::RawZlib.encode(vec![1, 2, 3]).unwrap()[0], 0x78);
}

#[test]
fn gzip_is_decompressed_if_present() {
    let raw = vec![10u8, 0, 0, 0];
    assert_eq!(read_nbt(raw.clone()).unwrap(), raw);
    let mut encoder = flate2::write::GzEncoder::new(Vec::new(), flate2::Compression::default());
    encoder.write_all(&raw).unwrap();
    let compressed = encoder.finish().unwrap();
    assert_eq!(read_nbt(compressed).unwrap(), raw);
    assert!(read_nbt(vec![0x1f, 0x8b, 0]).is_err());
    assert_eq!(read_nbt(vec![0x1f]).unwrap(), vec![0x1f]);
}
