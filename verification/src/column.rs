//! What the layers show of a chunk, block by block
//!
//! The laws of this module speak of the blocks as they are stored: of the palette entries, the
//! biomes and the light at the places of a section, where X varies fastest and Y slowest.

use crate::chunk::{Chunk, PaletteEntry};
use crate::layer;
use crate::layer::{LayerData, LayerEntry, LayerError, Stop, TopInput};
use crate::resource::{BlockColor, UnknownBlockMode};
use crate::types::{BlockY, LayerBlockCoords, SectionBlockCoords};
use vstd::prelude::*;

verus! {

/// The palette entry that stands at a place of a section
pub open spec fn block_in(chunk: Chunk, s: int, x: int, y: int, z: int) -> Option<PaletteEntry> {
    let section = chunk.sections@[s];
    let at = 256 * y + 16 * z + x;
    if at < section.blocks@.len() && section.blocks@[at] < section.palette@.len() {
        Some(section.palette@[section.blocks@[at] as int])
    } else {
        None
    }
}

/// The light that is stored for a place of a section
pub open spec fn light_in(chunk: Chunk, s: int, x: int, y: int, z: int) -> u8 {
    let light = chunk.sections@[s].light@;
    if 256 * y + 16 * z + x < light.len() {
        light[256 * y + 16 * z + x]
    } else {
        0
    }
}

/// A block is rendered in a color: that of its kind, or else one for unknown blocks
pub open spec fn renders_as(
    block: PaletteEntry,
    unknown: UnknownBlockMode,
    color: BlockColor,
) -> bool {
    match block.block_type {
        Some(kind) => color == kind.block_color,
        None => match unknown {
            UnknownBlockMode::Hide => false,
            UnknownBlockMode::Gray => color == block.unknown_colors.neutral,
            UnknownBlockMode::Color => color == block.unknown_colors.named,
        },
    }
}

/// The block at a place is visible
pub open spec fn visible_at(
    chunk: Chunk,
    unknown: UnknownBlockMode,
    s: int,
    x: int,
    y: int,
    z: int,
) -> bool {
    block_in(chunk, s, x, y, z) matches Some(block) && exists|color: BlockColor| #[trigger]
        renders_as(block, unknown, color) && color.opaque
}

/// The block at a place is visible and not water
pub open spec fn ground_at(
    chunk: Chunk,
    unknown: UnknownBlockMode,
    s: int,
    x: int,
    y: int,
    z: int,
) -> bool {
    block_in(chunk, s, x, y, z) matches Some(block) && exists|color: BlockColor| #[trigger]
        renders_as(block, unknown, color) && color.opaque && !color.water
}

/// The block at a place is of a known kind that is opaque
pub open spec fn rock_at(chunk: Chunk, s: int, x: int, y: int, z: int) -> bool {
    block_in(chunk, s, x, y, z) matches Some(block) && block.block_type matches Some(kind)
        && kind.block_color.opaque
}

/// A place of a column lies above another one
pub open spec fn above(s: int, y: int, other_s: int, other_y: int) -> bool {
    s > other_s || (s == other_s && y > other_y)
}

/// A place of a chunk
pub open spec fn is_place(chunk: Chunk, s: int, x: int, y: int, z: int) -> bool {
    0 <= s < chunk.sections@.len() && 0 <= x < 16 && 0 <= y < 16 && 0 <= z < 16
}

/// The position of a place in its column, counted from the top
spec fn depth_in_column(chunk: Chunk, s: int, y: int) -> int {
    16 * (chunk.sections@.len() - 1 - s) + 15 - y
}

#[verifier::spinoff_prover]
proof fn place_in_column(chunk: Chunk, unknown: UnknownBlockMode, s: int, x: int, y: int, z: int)
    requires
        is_place(chunk, s, x, y, z),
    ensures
        ({
            let c = 16 * z + x;
            let j = depth_in_column(chunk, s, y);
            let k = 256 * j + c;
            let coords = SectionBlockCoords {
                xz: LayerBlockCoords { x: x as u8, z: z as u8 },
                y: BlockY(y as u8),
            };
            &&& 0 <= j < 16 * chunk.sections@.len()
            &&& layer::section_in_step(chunk, k) == chunk.sections@[s]
            &&& layer::coords_in_step(k) == coords
            &&& chunk.sections@[s].spec_block_at(coords) == block_in(chunk, s, x, y, z)
            &&& chunk.sections@[s].spec_light_at(coords) == light_in(chunk, s, x, y, z)
            &&& coords.spec_offset() == 256 * y + 16 * z + x
            &&& coords.xz.spec_index_of() == c
            &&& layer::shown_in_column(chunk, unknown, c, j) is Some == visible_at(
                chunk,
                unknown,
                s,
                x,
                y,
                z,
            )
            &&& layer::solid_in_column(chunk, unknown, c, j) == ground_at(
                chunk,
                unknown,
                s,
                x,
                y,
                z,
            )
            &&& layer::opaque_in_column(chunk, c, j) is Some == rock_at(chunk, s, x, y, z)
        }),
{
    let c = 16 * z + x;
    let j = depth_in_column(chunk, s, y);
    let i = chunk.sections@.len() - 1 - s;
    let p = 256 * (15 - y) + c;
    layer::step_position(chunk, i, p);
    assert(4096 * i + p == 256 * j + c);
    assert(p / 256 == 15 - y);
    assert(p % 256 == c);
    assert(p % 16 == x);
    if let Some(block) = block_in(chunk, s, x, y, z) {
        let color = match block.block_type {
            Some(kind) => kind.block_color,
            None => match unknown {
                UnknownBlockMode::Color => block.unknown_colors.named,
                _ => block.unknown_colors.neutral,
            },
        };
        if !(block.block_type is None && unknown == UnknownBlockMode::Hide) {
            assert(renders_as(block, unknown, color));
        }
    }
}

proof fn rock_in_column(chunk: Chunk, s: int, x: int, y: int, z: int)
    requires
        is_place(chunk, s, x, y, z),
    ensures
        0 <= depth_in_column(chunk, s, y) < 16 * chunk.sections@.len(),
        layer::opaque_in_column(chunk, 16 * z + x, depth_in_column(chunk, s, y)) is Some
            == rock_at(chunk, s, x, y, z),
{
    place_in_column(chunk, UnknownBlockMode::Hide, s, x, y, z);
}

proof fn position_in_chunk(chunk: Chunk, j: int) -> (r: (int, int))
    requires
        0 <= j < 16 * chunk.sections@.len(),
    ensures
        0 <= r.0 < chunk.sections@.len(),
        0 <= r.1 < 16,
        depth_in_column(chunk, r.0, r.1) == j,
{
    (chunk.sections@.len() - 1 - j / 16, 15 - j % 16)
}

/// Each column shows its topmost visible block
///
/// The block of a column's entry has the very color of its topmost visible block, in all of
/// its parts. The biome and the name of the entry are those stored for that block, and the
/// light is that of the block directly above it.
#[verifier::spinoff_prover]
pub proof fn topmost_block_shown(
    input: TopInput,
    s: int,
    x: int,
    y: int,
    z: int,
    color: BlockColor,
)
    requires
        is_place(input.chunk, s, x, y, z),
        layer::top_result(input).stop is None,
        block_in(input.chunk, s, x, y, z) matches Some(block) && renders_as(
            block,
            input.unknown,
            color,
        ),
        color.opaque,
        forall|s2: int, y2: int|
            is_place(input.chunk, s2, x, y2, z) && above(s2, y2, s, y) ==> !#[trigger] visible_at(
                input.chunk,
                input.unknown,
                s2,
                x,
                y2,
                z,
            ),
    ensures
        ({
            let result = layer::top_result(input);
            let entry = result.entries[16 * z + x];
            let section = input.chunk.sections@[s];
            let at = 256 * y + 16 * z + x;
            &&& (LayerBlockCoords { x: x as u8, z: z as u8 }).spec_index_of() == 16 * z + x
            &&& entry.block == Some(color)
            &&& at < section.biomes@.len()
            &&& entry.biome matches Some(b) && 1 <= b <= result.biomes.len() && result.biomes[b - 1]
                == section.biomes@[at]
            &&& entry.block_light == (if y < 15 {
                light_in(input.chunk, s, x, y + 1, z)
            } else if s < input.chunk.sections@.len() - 1 {
                light_in(input.chunk, s + 1, x, 0, z)
            } else {
                0
            })
            &&& match block_in(input.chunk, s, x, y, z)->0.name {
                Some(name) => input.capture_names && result.names.len() < u16::MAX ==> {
                    entry.name matches Some(n) && 1 <= n <= result.names.len() && result.names[n
                        - 1] == name@
                },
                None => true,
            }
            &&& !input.capture_names || block_in(input.chunk, s, x, y, z)->0.name is None
                ==> entry.name is None
        }),
{
    let c = 16 * z + x;
    let m = 16 * input.chunk.sections@.len() as int;
    let j = depth_in_column(input.chunk, s, y);
    place_in_column(input.chunk, input.unknown, s, x, y, z);
    layer::top_layer_shows_columns(input, c);
    layer::topmost_shown_least(input.chunk, input.unknown, c, m);
    let top = layer::topmost_shown(input.chunk, input.unknown, c, m);
    assert(visible_at(input.chunk, input.unknown, s, x, y, z)) by {
        let block = block_in(input.chunk, s, x, y, z)->0;
        assert(renders_as(block, input.unknown, color) && color.opaque);
    }
    if top < j {
        let (s2, y2) = position_in_chunk(input.chunk, top);
        place_in_column(input.chunk, input.unknown, s2, x, y2, z);
        assert(above(s2, y2, s, y));
    }
    assert(top == j);
    if j > 0 {
        let (s2, y2) = position_in_chunk(input.chunk, j - 1);
        place_in_column(input.chunk, input.unknown, s2, x, y2, z);
    }
}

/// Each column has the height of its topmost visible block that is not water as its depth
#[verifier::spinoff_prover]
pub proof fn ground_depth_shown(input: TopInput, s: int, x: int, y: int, z: int)
    requires
        is_place(input.chunk, s, x, y, z),
        layer::top_result(input).stop is None,
        ground_at(input.chunk, input.unknown, s, x, y, z),
        forall|s2: int, y2: int|
            is_place(input.chunk, s2, x, y2, z) && above(s2, y2, s, y) ==> !#[trigger] ground_at(
                input.chunk,
                input.unknown,
                s2,
                x,
                y2,
                z,
            ),
    ensures
        layer::top_result(input).entries[16 * z + x].depth matches Some(depth) && depth.0 == 16
            * input.chunk.sections@[s].y.0 + y,
{
    let c = 16 * z + x;
    let m = 16 * input.chunk.sections@.len() as int;
    let j = depth_in_column(input.chunk, s, y);
    place_in_column(input.chunk, input.unknown, s, x, y, z);
    layer::top_layer_shows_columns(input, c);
    layer::topmost_solid_least(input.chunk, input.unknown, c, m);
    let solid = layer::topmost_solid(input.chunk, input.unknown, c, m);
    if solid < j {
        let (s2, y2) = position_in_chunk(input.chunk, solid);
        place_in_column(input.chunk, input.unknown, s2, x, y2, z);
        assert(above(s2, y2, s, y));
    }
}

/// A column without visible blocks shows nothing, and one without visible blocks other than
/// water has no depth
pub proof fn empty_column_shown(input: TopInput, x: int, z: int)
    requires
        0 <= x < 16,
        0 <= z < 16,
        layer::top_result(input).stop is None,
    ensures
        ({
            let entry = layer::top_result(input).entries[16 * z + x];
            &&& (forall|s: int, y: int|
                is_place(input.chunk, s, x, y, z) ==> !#[trigger] visible_at(
                    input.chunk,
                    input.unknown,
                    s,
                    x,
                    y,
                    z,
                )) ==> entry.block is None && entry.biome is None && entry.name is None
            &&& (forall|s: int, y: int|
                is_place(input.chunk, s, x, y, z) ==> !#[trigger] ground_at(
                    input.chunk,
                    input.unknown,
                    s,
                    x,
                    y,
                    z,
                )) ==> entry.depth is None
        }),
{
    let c = 16 * z + x;
    let m = 16 * input.chunk.sections@.len() as int;
    layer::top_layer_shows_columns(input, c);
    layer::topmost_shown_least(input.chunk, input.unknown, c, m);
    layer::topmost_solid_least(input.chunk, input.unknown, c, m);
    let top = layer::topmost_shown(input.chunk, input.unknown, c, m);
    let solid = layer::topmost_solid(input.chunk, input.unknown, c, m);
    if top < m {
        let (s, y) = position_in_chunk(input.chunk, top);
        place_in_column(input.chunk, input.unknown, s, x, y, z);
    }
    if solid < m {
        let (s, y) = position_in_chunk(input.chunk, solid);
        place_in_column(input.chunk, input.unknown, s, x, y, z);
    }
}

/// Biomes and block names keep their places in the lists
pub proof fn lists_extended(input: TopInput)
    ensures
        input.biomes.is_prefix_of(layer::top_result(input).biomes),
        input.names.is_prefix_of(layer::top_result(input).names),
        !input.capture_names ==> layer::top_result(input).names == input.names,
{
    lists_extended_to(input, layer::step_count(input.chunk));
}

proof fn lists_extended_to(input: TopInput, k: int)
    ensures
        input.biomes.is_prefix_of(layer::top_scan(input, k).biomes),
        input.names.is_prefix_of(layer::top_scan(input, k).names),
        !input.capture_names ==> layer::top_scan(input, k).names == input.names,
    decreases k,
{
    if k > 0 {
        lists_extended_to(input, k - 1);
        layer::lists_grow(input, k - 1);
        let before = layer::top_scan(input, k - 1);
        let after = layer::top_scan(input, k);
        assert(input.biomes =~= after.biomes.take(input.biomes.len() as int)) by {
            assert forall|i: int| 0 <= i < input.biomes.len() implies input.biomes[i]
                == after.biomes[i] by {
                assert(before.biomes.take(input.biomes.len() as int)[i] == before.biomes[i]);
                assert(after.biomes[i] == before.biomes[i]);
            }
        }
        assert(input.names =~= after.names.take(input.names.len() as int)) by {
            assert forall|i: int| 0 <= i < input.names.len() implies input.names[i]
                == after.names[i] by {
                assert(before.names.take(input.names.len() as int)[i] == before.names[i]);
                assert(after.names[i] == before.names[i]);
            }
        }
        reveal(layer::filled);
    }
}

/// The layer data of a chunk hold its entries, with X varying fastest
pub proof fn layer_holds_entries(
    r: Result<Option<LayerData>, LayerError>,
    chunk: Chunk,
    stop: Option<Stop>,
    entries: Seq<LayerEntry>,
    x: int,
    z: int,
)
    requires
        layer::gives_layer(r, chunk, stop, entries),
        entries.len() == 256,
        0 <= x < 16,
        0 <= z < 16,
    ensures
        r is Ok <==> stop is None,
        r matches Err(e) ==> stop == Some(Stop::Failed(e)),
        r matches Ok(layer) ==> (layer is None <==> chunk.sections@.len() == 0),
        r matches Ok(Some(data)) ==> {
            let entry = entries[16 * z + x];
            &&& data.blocks.items@[16 * z + x] == entry.block
            &&& data.biomes.items@[16 * z + x] == entry.biome
            &&& data.names.items@[16 * z + x] == entry.name
            &&& data.block_light.items@[16 * z + x] == entry.block_light
            &&& data.depths.items@[16 * z + x] == entry.depth
        },
{
    if let Ok(Some(data)) = r {
        assert(data.entries()[16 * z + x] == entries[16 * z + x]);
    }
}

/// Each column of the cave layer shows the floor of its topmost cave
///
/// Below the topmost opaque block lies the topmost gap, and below that the floor. The color of
/// the entry is the very color of the floor's kind of block, and its biome and height are those
/// stored for the floor.
#[verifier::spinoff_prover]
pub proof fn cave_floor_shown(
    chunk: Chunk,
    biomes: Seq<u32>,
    x: int,
    z: int,
    roof: (int, int),
    gap: (int, int),
    floor: (int, int),
)
    requires
        is_place(chunk, roof.0, x, roof.1, z),
        is_place(chunk, gap.0, x, gap.1, z),
        is_place(chunk, floor.0, x, floor.1, z),
        above(roof.0, roof.1, gap.0, gap.1),
        above(gap.0, gap.1, floor.0, floor.1),
        layer::cave_result(chunk, biomes).stop is None,
        rock_at(chunk, roof.0, x, roof.1, z),
        !rock_at(chunk, gap.0, x, gap.1, z),
        rock_at(chunk, floor.0, x, floor.1, z),
        forall|s: int, y: int|
            is_place(chunk, s, x, y, z) && above(s, y, roof.0, roof.1) ==> !#[trigger] rock_at(
                chunk,
                s,
                x,
                y,
                z,
            ),
        forall|s: int, y: int|
            is_place(chunk, s, x, y, z) && above(roof.0, roof.1, s, y) && above(
                s,
                y,
                gap.0,
                gap.1,
            ) ==> #[trigger] rock_at(chunk, s, x, y, z),
        forall|s: int, y: int|
            is_place(chunk, s, x, y, z) && above(gap.0, gap.1, s, y) && above(
                s,
                y,
                floor.0,
                floor.1,
            ) ==> !#[trigger] rock_at(chunk, s, x, y, z),
    ensures
        ({
            let result = layer::cave_result(chunk, biomes);
            let entry = result.entries[16 * z + x];
            let section = chunk.sections@[floor.0];
            let at = 256 * floor.1 + 16 * z + x;
            &&& block_in(chunk, floor.0, x, floor.1, z) matches Some(block)
            &&& block.block_type matches Some(kind)
            &&& entry.block == Some(kind.block_color)
            &&& at < section.biomes@.len()
            &&& entry.biome matches Some(b) && 1 <= b <= result.biomes.len() && result.biomes[b - 1]
                == section.biomes@[at]
            &&& entry.depth matches Some(depth) && depth.0 == 16 * section.y.0 + floor.1
        }),
{
    let c = 16 * z + x;
    let m = 16 * chunk.sections@.len() as int;
    let a = depth_in_column(chunk, roof.0, roof.1);
    let b = depth_in_column(chunk, gap.0, gap.1);
    next_found(chunk, x, z, true, 0, roof);
    next_found(chunk, x, z, false, a, gap);
    next_found(chunk, x, z, true, b, floor);
    place_in_column(chunk, UnknownBlockMode::Hide, floor.0, x, floor.1, z);
    layer::cave_layer_shows_caves(chunk, biomes, c);
    assert(layer::floor_of(chunk, c, m) == depth_in_column(chunk, floor.0, floor.1));
}

#[verifier::spinoff_prover]
proof fn next_found(chunk: Chunk, x: int, z: int, opaque: bool, from: int, target: (int, int))
    requires
        is_place(chunk, target.0, x, target.1, z),
        0 <= from <= depth_in_column(chunk, target.0, target.1),
        rock_at(chunk, target.0, x, target.1, z) == opaque,
        forall|s: int, y: int|
            is_place(chunk, s, x, y, z) && from <= depth_in_column(chunk, s, y) && above(
                s,
                y,
                target.0,
                target.1,
            ) ==> #[trigger] rock_at(chunk, s, x, y, z) != opaque,
    ensures
        layer::next_in_column(
            chunk,
            16 * z + x,
            opaque,
            from,
            16 * chunk.sections@.len() as int,
        ) == depth_in_column(chunk, target.0, target.1),
{
    let c = 16 * z + x;
    let m = 16 * chunk.sections@.len() as int;
    let d = depth_in_column(chunk, target.0, target.1);
    rock_in_column(chunk, target.0, x, target.1, z);
    layer::next_in_column_least(chunk, c, opaque, from, m);
    let f = layer::next_in_column(chunk, c, opaque, from, m);
    if f < d {
        let (s, y) = position_in_chunk(chunk, f);
        rock_in_column(chunk, s, x, y, z);
        assert(above(s, y, target.0, target.1));
    }
}

/// A column of the cave layer that shows something has a cave: an opaque block, below it one
/// that is not opaque, and below that an opaque block
#[verifier::spinoff_prover]
pub proof fn shown_floor_below_cave(chunk: Chunk, biomes: Seq<u32>, x: int, z: int) -> (r: (
    (int, int),
    (int, int),
    (int, int),
))
    requires
        0 <= x < 16,
        0 <= z < 16,
        layer::cave_result(chunk, biomes).stop is None,
        layer::cave_result(chunk, biomes).entries[16 * z + x] != layer::empty_entry(),
    ensures
        is_place(chunk, r.0.0, x, r.0.1, z),
        is_place(chunk, r.1.0, x, r.1.1, z),
        is_place(chunk, r.2.0, x, r.2.1, z),
        above(r.0.0, r.0.1, r.1.0, r.1.1),
        above(r.1.0, r.1.1, r.2.0, r.2.1),
        rock_at(chunk, r.0.0, x, r.0.1, z),
        !rock_at(chunk, r.1.0, x, r.1.1, z),
        rock_at(chunk, r.2.0, x, r.2.1, z),
{
    let c = 16 * z + x;
    let m = 16 * chunk.sections@.len() as int;
    layer::cave_layer_shows_caves(chunk, biomes, c);
    let a = layer::roof_of(chunk, c, m);
    layer::next_in_column_least(chunk, c, true, 0, m);
    let b = layer::gap_of(chunk, c, m);
    layer::next_in_column_least(chunk, c, false, a, m);
    let d = layer::floor_of(chunk, c, m);
    layer::next_in_column_least(chunk, c, true, b, m);
    let roof = position_in_chunk(chunk, a);
    let gap = position_in_chunk(chunk, b);
    let floor = position_in_chunk(chunk, d);
    rock_in_column(chunk, roof.0, x, roof.1, z);
    rock_in_column(chunk, gap.0, x, gap.1, z);
    rock_in_column(chunk, floor.0, x, floor.1, z);
    (roof, gap, floor)
}

/// All blocks and biomes of a chunk are there, and all heights fit
pub open spec fn complete(chunk: Chunk) -> bool {
    &&& forall|s: int, x: int, y: int, z: int|
        is_place(chunk, s, x, y, z) ==> #[trigger] block_in(chunk, s, x, y, z) is Some
    &&& forall|s: int|
        0 <= s < chunk.sections@.len() ==> {
            &&& (#[trigger] chunk.sections@[s]).biomes@.len() >= 4096
            &&& i32::MIN <= 16 * chunk.sections@[s].y.0
            &&& 16 * chunk.sections@[s].y.0 + 15 <= i32::MAX
        }
}

proof fn step_of_complete(chunk: Chunk, k: int)
    requires
        complete(chunk),
        0 <= k < layer::step_count(chunk),
    ensures
        ({
            let section = layer::section_in_step(chunk, k);
            let coords = layer::coords_in_step(k);
            &&& section.spec_block_at(coords) is Some
            &&& section.spec_biome_at(coords) is Some
            &&& layer::height_of(section.y, coords.y) is Some
        }),
{
    let p = k % 4096;
    let s = chunk.sections@.len() - 1 - k / 4096;
    let (x, y, z) = (p % 16, 15 - p / 256, p % 256 / 16);
    place_in_column(chunk, UnknownBlockMode::Hide, s, x, y, z);
    assert(256 * depth_in_column(chunk, s, y) + 16 * z + x == k);
    assert(block_in(chunk, s, x, y, z) is Some);
    assert(chunk.sections@[s].biomes@.len() >= 4096);
}

proof fn complete_scan(input: TopInput, k: int)
    requires
        complete(input.chunk),
        0 <= k <= layer::step_count(input.chunk),
    ensures
        !(layer::top_scan(input, k).stop matches Some(Stop::Failed(_))),
    decreases k,
{
    if k > 0 {
        complete_scan(input, k - 1);
        step_of_complete(input.chunk, k - 1);
        reveal(layer::filled);
    }
}

proof fn complete_cave_scan(chunk: Chunk, biomes: Seq<u32>, k: int)
    requires
        complete(chunk),
        0 <= k <= layer::step_count(chunk),
    ensures
        !(layer::cave_scan(chunk, biomes, k).stop matches Some(Stop::Failed(_))),
    decreases k,
{
    if k > 0 {
        complete_cave_scan(chunk, biomes, k - 1);
        step_of_complete(chunk, k - 1);
    }
}

/// The layers of a chunk that lacks nothing can be determined, if there is room for its biomes
pub proof fn complete_chunk_succeeds(input: TopInput)
    requires
        complete(input.chunk),
        input.biomes.len() + 256 <= u16::MAX,
    ensures
        layer::top_result(input).stop is None,
        layer::cave_result(input.chunk, input.biomes).stop is None,
{
    complete_scan(input, layer::step_count(input.chunk));
    complete_cave_scan(input.chunk, input.biomes, layer::step_count(input.chunk));
    layer::biome_list_suffices(input);
    layer::cave_biome_list_suffices(input.chunk, input.biomes);
}

proof fn step_fails(input: TopInput, k: int)
    requires
        0 <= k,
        layer::top_scan(input, k).stop is None,
        layer::top_scan(input, k).entries[k % 256].depth is None,
        layer::section_in_step(input.chunk, k).spec_block_at(layer::coords_in_step(k)) is None,
    ensures
        layer::top_scan(input, k + 1).stop is Some,
{
    reveal(layer::filled);
}

/// The top layer of a chunk cannot be determined where a block is missing that is not hidden
/// below the ground
#[verifier::spinoff_prover]
pub proof fn missing_block_fails(input: TopInput, s: int, x: int, y: int, z: int)
    requires
        is_place(input.chunk, s, x, y, z),
        block_in(input.chunk, s, x, y, z) is None,
        forall|s2: int, y2: int|
            is_place(input.chunk, s2, x, y2, z) && above(s2, y2, s, y) ==> !#[trigger] ground_at(
                input.chunk,
                input.unknown,
                s2,
                x,
                y2,
                z,
            ),
    ensures
        layer::top_result(input).stop is Some,
{
    let c = 16 * z + x;
    let j = depth_in_column(input.chunk, s, y);
    let k = 256 * j + c;
    place_in_column(input.chunk, input.unknown, s, x, y, z);
    if layer::top_scan(input, k).stop is Some {
        layer::top_scan_stopped(input, k, layer::step_count(input.chunk));
    } else {
        layer::scan_shows_columns(input, k, c);
        layer::top_scan_len(input, k);
        assert(layer::seen_in_column(k, c) == j);
        layer::topmost_solid_least(input.chunk, input.unknown, c, j);
        let solid = layer::topmost_solid(input.chunk, input.unknown, c, j);
        if solid < j {
            let (s2, y2) = position_in_chunk(input.chunk, solid);
            place_in_column(input.chunk, input.unknown, s2, x, y2, z);
            assert(above(s2, y2, s, y));
        }
        step_fails(input, k);
        layer::top_scan_stopped(input, k + 1, layer::step_count(input.chunk));
    }
}

} // verus!
