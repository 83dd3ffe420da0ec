//! Simple flat per-block chunk rendering
//!
//! Renders a chunk subtile by coloring each block with its flat map color.
//! Used by the cave/underground layer.

use crate::indexed;
use crate::layer::{BiomeArray, BlockArray, BlockHeight, DepthArray};
use crate::pixels::Pixels;
use crate::resource::BlockColor;
use crate::types::LayerBlockCoords;
use indexmap::IndexSet;
use vstd::prelude::*;

verus! {

/// A visible block, as far as its color depends on it
#[derive(Debug, Clone, Copy, PartialEq, Eq)]
pub struct SurfaceBlock {
    /// The block
    pub block: BlockColor,
    /// The biome, if it is in the biome list
    pub biome: Option<u32>,
    /// The depth; zero if there is none
    pub depth: i32,
}

/// Indices are stored incremented by 1
pub open spec fn valid_indices(indices: Seq<Option<u16>>) -> bool {
    forall|i: int| 0 <= i < indices.len() ==> #[trigger] indices[i] != Some(0u16)
}

/// The biome that a stored index stands for
pub open spec fn stored_biome(index: Option<u16>, list: Seq<u32>) -> Option<u32> {
    match index {
        Some(i) => if i <= list.len() {
            Some(list[i - 1])
        } else {
            None
        },
        None => None,
    }
}

/// The visible block of a column
pub open spec fn surface_of(
    block: Option<BlockColor>,
    biome: Option<u16>,
    depth: Option<BlockHeight>,
    list: Seq<u32>,
) -> Option<SurfaceBlock> {
    match block {
        Some(block) => Some(
            SurfaceBlock {
                block,
                biome: stored_biome(biome, list),
                depth: match depth {
                    Some(height) => height.0,
                    None => 0,
                },
            },
        ),
        None => None,
    }
}

/// Returns the visible block of a column
pub fn surface_block(
    blocks: &BlockArray,
    biomes: &BiomeArray,
    depths: &DepthArray,
    biome_list: &IndexSet<u32>,
    coords: LayerBlockCoords,
) -> (r: Option<SurfaceBlock>)
    requires
        blocks.wf(),
        biomes.wf(),
        depths.wf(),
        valid_indices(biomes@),
        coords.wf(),
    ensures
        r == surface_of(
            blocks@[coords.spec_index_of()],
            biomes@[coords.spec_index_of()],
            depths@[coords.spec_index_of()],
            indexed::biome_ids(*biome_list),
        ),
{
    let block = match blocks.at(coords) {
        Some(block) => block,
        None => return None,
    };
    let depth: i32 = match depths.at(coords) {
        Some(height) => height.0,
        None => 0,
    };
    let stored = biomes.at(coords);
    assert(stored != Some(0u16));
    let biome = match stored {
        Some(i) => indexed::biome_with_index(biome_list, i as usize - 1),
        None => None,
    };
    Some(SurfaceBlock { block, biome, depth })
}

/// Returns the visible blocks of all columns of a chunk
pub fn chunk_surface(
    blocks: &BlockArray,
    biomes: &BiomeArray,
    depths: &DepthArray,
    biome_list: &IndexSet<u32>,
) -> (r: Vec<Option<SurfaceBlock>>)
    requires
        blocks.wf(),
        biomes.wf(),
        depths.wf(),
        valid_indices(biomes@),
    ensures
        r@ == Seq::new(
            256,
            |i: int|
                surface_of(blocks@[i], biomes@[i], depths@[i], indexed::biome_ids(*biome_list)),
        ),
{
    let mut out: Vec<Option<SurfaceBlock>> = Vec::new();
    let ghost f = |i: int|
        surface_of(blocks@[i], biomes@[i], depths@[i], indexed::biome_ids(*biome_list));
    let mut i: usize = 0;
    while i < 256
        invariant
            i <= 256,
            blocks.wf(),
            biomes.wf(),
            depths.wf(),
            valid_indices(biomes@),
            f == (|i: int|
                surface_of(blocks@[i], biomes@[i], depths@[i], indexed::biome_ids(*biome_list))),
            out@ == Seq::new(i as nat, f),
        decreases 256 - i,
    {
        let coords = LayerBlockCoords { x: (i % 16) as u8, z: (i / 16) as u8 };
        assert(coords.spec_index_of() == i);
        out.push(surface_block(blocks, biomes, depths, biome_list, coords));
        i = i + 1;
        assert(out@ =~= Seq::new(i as nat, f));
    }
    out
}

/// The pixel of a block: its color, or transparent
pub open spec fn pixel_of(color: Option<[u8; 3]>) -> Seq<u8> {
    match color {
        Some(c) => seq![c[0], c[1], c[2], 255u8],
        None => seq![0u8, 0u8, 0u8, 0u8],
    }
}

/// Appends the pixel of a block
pub(crate) fn push_pixel(data: &mut Vec<u8>, color: Option<[u8; 3]>)
    ensures
        final(data)@ == old(data)@ + pixel_of(color),
{
    match color {
        Some(c) => {
            data.push(c[0]);
            data.push(c[1]);
            data.push(c[2]);
            data.push(255);
        },
        None => {
            data.push(0);
            data.push(0);
            data.push(0);
            data.push(0);
        },
    }
    assert(data@ =~= old(data)@ + pixel_of(color));
}

/// Renders a chunk subtile from the colors of its blocks
///
/// Columns without a visible block are transparent.
pub fn render_chunk(colors: &Vec<Option<[u8; 3]>>) -> (r: Pixels)
    requires
        colors@.len() == 256,
    ensures
        r.wf(),
        r.width == 16,
        r.height == 16,
        forall|x: int, z: int|
            0 <= x < 16 && 0 <= z < 16 ==> #[trigger] r.pixel(x, z) == pixel_of(
                colors@[16 * z + x],
            ),
{
    let mut data: Vec<u8> = Vec::new();
    let mut i: usize = 0;
    while i < 256
        invariant
            i <= 256,
            colors@.len() == 256,
            data@.len() == 4 * i,
            forall|j: int|
                0 <= j < i ==> #[trigger] data@.subrange(4 * j, 4 * j + 4) == pixel_of(colors@[j]),
        decreases 256 - i,
    {
        let ghost before = data@;
        push_pixel(&mut data, colors[i]);
        assert forall|j: int| 0 <= j < i + 1 implies #[trigger] data@.subrange(4 * j, 4 * j + 4)
            == pixel_of(colors@[j]) by {
            if j < i {
                assert(data@.subrange(4 * j, 4 * j + 4) =~= before.subrange(4 * j, 4 * j + 4));
            } else {
                assert(data@.subrange(4 * j, 4 * j + 4) =~= pixel_of(colors@[j]));
            }
        }
        i = i + 1;
    }
    let r = Pixels { width: 16, height: 16, data };
    assert forall|x: int, z: int| 0 <= x < 16 && 0 <= z < 16 implies #[trigger] r.pixel(x, z)
        == pixel_of(colors@[16 * z + x]) by {
        let j = 16 * z + x;
        assert(r.data@.subrange(4 * j, 4 * j + 4) == pixel_of(colors@[j]));
    }
    r
}

/// The visible block of a column comes with the biome that its index stands for
///
/// Indices are stored incremented by 1. An index that is not in the list stands for no biome.
pub proof fn surface_shown(
    block: BlockColor,
    index: u16,
    height: BlockHeight,
    depth: Option<BlockHeight>,
    biome: Option<u16>,
    list: Seq<u32>,
)
    requires
        index < u16::MAX,
    ensures
        surface_of(None, biome, depth, list) is None,
        match surface_of(Some(block), biome, depth, list) {
            Some(surface) => {
                &&& surface.block == block
                &&& biome is None ==> surface.biome is None
                &&& biome == Some((index + 1) as u16) ==> surface.biome == (if index < list.len() {
                    Some(list[index as int])
                } else {
                    None
                })
                &&& depth == Some(height) ==> surface.depth == height.0
                &&& depth is None ==> surface.depth == 0
            },
            None => false,
        },
{
}

/// A pixel has the red, green and blue of the color and is opaque; without a color it is
/// transparent
pub proof fn pixel_shown(color: [u8; 3], k: int)
    requires
        0 <= k < 3,
    ensures
        pixel_of(Some(color)).len() == 4,
        pixel_of(Some(color))[k] == color[k],
        pixel_of(Some(color))[3] == 255,
        pixel_of(None).len() == 4,
        pixel_of(None)[3] == 0,
        pixel_of(None)[k] == 0,
{
}

} // verus!
