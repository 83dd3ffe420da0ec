//! Translation of Bedrock Edition block names to Java Edition block identifiers
//!
//! Most blocks share the same identifier between editions (since the "flattening"
//! both editions use `minecraft:<name>`), so identity mapping handles the bulk of
//! cases. This table covers the common surface blocks whose names differ; unknown
//! blocks fall back to a neutral color in the renderer.

use crate::overlay;
use crate::resource;
use crate::resource::{BlockColor, BlockTypes, UnknownBlockMode, UnknownColors};
use crate::text;
use vstd::prelude::*;

verus! {

/// The Java Edition identifier of a Bedrock block name without namespace
pub open spec fn java_name(name: Seq<char>) -> Seq<char> {
    if name == "grass"@ {
        "grass_block"@
    } else if name == "snow_layer"@ {
        "snow"@
    } else if name == "snow"@ {
        "snow_block"@
    } else if name == "flowing_water"@ {
        "water"@
    } else if name == "flowing_lava"@ {
        "lava"@
    } else if name == "grass_path"@ {
        "dirt_path"@
    } else if name == "hardened_clay"@ {
        "terracotta"@
    } else if name == "stained_hardened_clay"@ {
        "terracotta"@
    } else if name == "podzol"@ {
        "podzol"@
    } else if name == "log"@ {
        "oak_log"@
    } else if name == "log2"@ {
        "acacia_log"@
    } else if name == "wood"@ {
        "oak_wood"@
    } else if name == "leaves"@ {
        "oak_leaves"@
    } else if name == "leaves2"@ {
        "acacia_leaves"@
    } else if name == "tallgrass"@ {
        "short_grass"@
    } else if name == "yellow_flower"@ {
        "dandelion"@
    } else {
        name
    }
}

/// The Java Edition identifier of a Bedrock block name
pub open spec fn translated(name: Seq<char>) -> Seq<char> {
    java_name(overlay::local_name(name))
}

/// Translates a Bedrock block name to the equivalent Java Edition identifier
///
/// The `minecraft:` namespace prefix is stripped; the returned identifier can be
/// looked up directly in [BlockTypes].
pub fn translate_block_name(name: &str) -> (r: &str)
    ensures
        r@ == translated(name@),
{
    let name = overlay::strip_namespace(name);
    if text::same(name, "grass") {
        // Bedrock keeps the legacy "grass" name for the grass block
        "grass_block"
    } else if text::same(name, "snow_layer") {
        // Snow: Bedrock and Java swap the "snow" / "snow_block" meanings
        "snow"
    } else if text::same(name, "snow") {
        "snow_block"
    } else if text::same(name, "flowing_water") {
        // Fluids
        "water"
    } else if text::same(name, "flowing_lava") {
        "lava"
    } else if text::same(name, "grass_path") {
        // Renamed blocks
        "dirt_path"
    } else if text::same(name, "hardened_clay") {
        "terracotta"
    } else if text::same(name, "stained_hardened_clay") {
        "terracotta"
    } else if text::same(name, "podzol") {
        "podzol"
    } else if text::same(name, "log") {
        // Legacy combined log / leaf blocks (best effort: default variant)
        "oak_log"
    } else if text::same(name, "log2") {
        "acacia_log"
    } else if text::same(name, "wood") {
        "oak_wood"
    } else if text::same(name, "leaves") {
        "oak_leaves"
    } else if text::same(name, "leaves2") {
        "acacia_leaves"
    } else if text::same(name, "tallgrass") {
        // Ground cover (non-opaque, but mapped for completeness)
        "short_grass"
    } else if text::same(name, "yellow_flower") {
        "dandelion"
    } else {
        name
    }
}

/// Resolves the [BlockColor] for a Bedrock block name, where `colors` are the colors in which
/// the block can be rendered if it is not known
///
/// Returns `None` for unknown blocks when [UnknownBlockMode::Hide] is in effect,
/// and `true` for the second tuple element if the block could not be mapped to a
/// known Java block type.
pub fn block_color(
    name: &str,
    block_types: &BlockTypes,
    unknown: UnknownBlockMode,
    colors: UnknownColors,
) -> (r: (Option<BlockColor>, bool))
    ensures
        match resource::block_type_of(block_types.entries@, translated(name@)) {
            Some(block_type) => r == (Some(block_type.block_color), false),
            None => r == (BlockColor::spec_unknown(colors, unknown), true),
        },
{
    match block_types.get(translate_block_name(name)) {
        Some(block_type) => (Some(block_type.block_color), false),
        None => (BlockColor::unknown(colors, unknown), true),
    }
}

/// The namespace of a block name makes no difference
pub proof fn namespace_optional(name: Seq<char>)
    requires
        !text::begins_with(name, "minecraft:"@),
    ensures
        translated("minecraft:"@ + name) == translated(name),
{
    let full = "minecraft:"@ + name;
    assert(full.take("minecraft:"@.len() as int) =~= "minecraft:"@);
    assert(full.skip("minecraft:"@.len() as int) =~= name);
}

/// The blocks that are named differently in the two editions: Bedrock Edition and Java Edition
pub open spec fn renamed_blocks() -> Seq<(Seq<char>, Seq<char>)> {
    seq![
        ("grass"@, "grass_block"@),
        ("snow_layer"@, "snow"@),
        ("snow"@, "snow_block"@),
        ("flowing_water"@, "water"@),
        ("flowing_lava"@, "lava"@),
        ("grass_path"@, "dirt_path"@),
        ("hardened_clay"@, "terracotta"@),
        ("stained_hardened_clay"@, "terracotta"@),
        ("log"@, "oak_log"@),
        ("log2"@, "acacia_log"@),
        ("wood"@, "oak_wood"@),
        ("leaves"@, "oak_leaves"@),
        ("leaves2"@, "acacia_leaves"@),
        ("tallgrass"@, "short_grass"@),
        ("yellow_flower"@, "dandelion"@),
    ]
}

/// The blocks that are named differently get their other names, and all others keep theirs
#[verifier::spinoff_prover]
pub proof fn blocks_renamed(name: Seq<char>, i: int)
    requires
        !text::begins_with(name, "minecraft:"@),
    ensures
        0 <= i < renamed_blocks().len() && name == renamed_blocks()[i].0 ==> translated(name)
            == renamed_blocks()[i].1,
        (forall|j: int| 0 <= j < renamed_blocks().len() ==> name != (#[trigger] renamed_blocks()[j]).0)
            ==> translated(name) == name,
{
    let all = renamed_blocks();
    reveal_strlit("grass");
    assert("grass"@.len() == 5);
    reveal_strlit("snow_layer");
    assert("snow_layer"@.len() == 10);
    reveal_strlit("snow");
    assert("snow"@.len() == 4);
    reveal_strlit("flowing_water");
    assert("flowing_water"@.len() == 13);
    reveal_strlit("flowing_lava");
    assert("flowing_lava"@.len() == 12);
    reveal_strlit("grass_path");
    assert("grass_path"@.len() == 10);
    reveal_strlit("hardened_clay");
    assert("hardened_clay"@.len() == 13);
    reveal_strlit("stained_hardened_clay");
    assert("stained_hardened_clay"@.len() == 21);
    reveal_strlit("log");
    assert("log"@.len() == 3);
    reveal_strlit("log2");
    assert("log2"@.len() == 4);
    reveal_strlit("wood");
    assert("wood"@.len() == 4);
    reveal_strlit("leaves");
    assert("leaves"@.len() == 6);
    reveal_strlit("leaves2");
    assert("leaves2"@.len() == 7);
    reveal_strlit("tallgrass");
    assert("tallgrass"@.len() == 9);
    reveal_strlit("yellow_flower");
    assert("yellow_flower"@.len() == 13);
    reveal_strlit("podzol");
    assert("snow_layer"@[0] == 's' && "grass_path"@[0] == 'g');
    assert("snow"@[0] == 's' && "log2"@[0] == 'l');
    assert("snow"@[0] == 's' && "wood"@[0] == 'w');
    assert("flowing_water"@[0] == 'f' && "hardened_clay"@[0] == 'h');
    assert("flowing_water"@[0] == 'f' && "yellow_flower"@[0] == 'y');
    assert("hardened_clay"@[0] == 'h' && "yellow_flower"@[0] == 'y');
    assert("log2"@[0] == 'l' && "wood"@[0] == 'w');
    assert(all[0].0 == "grass"@);
    assert(all[1].0 == "snow_layer"@);
    assert(all[2].0 == "snow"@);
    assert(all[3].0 == "flowing_water"@);
    assert(all[4].0 == "flowing_lava"@);
    assert(all[5].0 == "grass_path"@);
    assert(all[6].0 == "hardened_clay"@);
    assert(all[7].0 == "stained_hardened_clay"@);
    assert(all[8].0 == "log"@);
    assert(all[9].0 == "log2"@);
    assert(all[10].0 == "wood"@);
    assert(all[11].0 == "leaves"@);
    assert(all[12].0 == "leaves2"@);
    assert(all[13].0 == "tallgrass"@);
    assert(all[14].0 == "yellow_flower"@);
    assert("podzol"@[0] == 'p' && "leaves"@[0] == 'l');
}

} // verus!
