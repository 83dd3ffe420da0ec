//! Block textures for the high-resolution textured map layer
//!
//! When `--block-textures <dir>` is passed, the textured layer samples the
//! top-face texture of each surface block from a user-provided resource pack
//! instead of using a single flat color per block.

use crate::flat;
use crate::indexed;
use crate::layer::NameArray;
use crate::overlay;
use crate::paths;
use crate::patterns;
use crate::pixels::Pixels;
use crate::text;
use crate::types::LayerBlockCoords;
use indexmap::IndexSet;
use vstd::prelude::*;
use vstd::string::*;

verus! {

/// Finds block top-face textures in a resource pack
#[derive(Debug)]
pub struct TextureAtlas {
    /// Root directory of the resource pack (or texture directory)
    root: String,
    /// Output size (in pixels) of each block texture
    scale: u32,
}

/// The directories of a resource pack that may hold textures
pub open spec fn texture_dirs(root: Seq<char>) -> Seq<Seq<char>> {
    seq![
        paths::joined(root, "assets/minecraft/textures/block"@),
        paths::joined(root, "assets/minecraft/textures/blocks"@),
        paths::joined(root, "block"@),
        paths::joined(root, "blocks"@),
        root,
    ]
}

/// The candidate file paths for a block identifier: in each directory the top-face texture,
/// or else the texture of the block
pub open spec fn candidate_paths(root: Seq<char>, name: Seq<char>) -> Seq<Seq<char>> {
    let id = overlay::local_name(name);
    Seq::new(
        10,
        |i: int|
            paths::joined(
                texture_dirs(root)[i / 2],
                if i % 2 == 0 {
                    id + "_top"@ + ".png"@
                } else {
                    id + ".png"@
                },
            ),
    )
}

impl TextureAtlas {
    /// Root directory of the resource pack
    pub closed spec fn spec_root(&self) -> Seq<char> {
        self.root@
    }

    /// Output size (in pixels) of each block texture
    pub closed spec fn spec_scale(&self) -> u32 {
        self.scale
    }

    /// Creates a new texture atlas for a resource pack directory
    pub fn new(root: &str, scale: u32) -> (r: Self)
        ensures
            r.spec_root() == root@,
            r.spec_scale() == scale,
    {
        TextureAtlas { root: root.to_owned(), scale }
    }

    /// Returns the per-block texture size
    pub fn scale(&self) -> (r: u32)
        ensures
            r == self.spec_scale(),
    {
        self.scale
    }

    /// Builds the candidate file paths for a block identifier
    pub fn candidates(&self, name: &str) -> (r: Vec<String>)
        ensures
            patterns::texts(r@) == candidate_paths(self.spec_root(), name@),
    {
        let id = overlay::strip_namespace(name);
        let mut top: String = id.to_owned();
        top.append("_top");
        top.append(".png");
        let mut plain: String = id.to_owned();
        plain.append(".png");
        let root = self.root.as_str();
        let mut dirs: Vec<String> = Vec::new();
        dirs.push(paths::join(root, "assets/minecraft/textures/block"));
        dirs.push(paths::join(root, "assets/minecraft/textures/blocks"));
        dirs.push(paths::join(root, "block"));
        dirs.push(paths::join(root, "blocks"));
        dirs.push(root.to_owned());
        assert(patterns::texts(dirs@) =~= texture_dirs(root@));
        let ghost all = candidate_paths(root@, name@);
        let mut out: Vec<String> = Vec::new();
        let mut i: usize = 0;
        assert(patterns::texts(out@) =~= all.take(0));
        while i < 5
            invariant
                i <= 5,
                dirs@.len() == 5,
                patterns::texts(dirs@) == texture_dirs(root@),
                all == candidate_paths(root@, name@),
                top@ == overlay::local_name(name@) + "_top"@ + ".png"@,
                plain@ == overlay::local_name(name@) + ".png"@,
                patterns::texts(out@) == all.take(2 * i),
            decreases 5 - i,
        {
            assert(patterns::texts(dirs@)[i as int] == dirs@[i as int]@);
            let dir = dirs[i].as_str();
            let ghost before = out@;
            out.push(paths::join(dir, top.as_str()));
            out.push(paths::join(dir, plain.as_str()));
            assert(all[2 * i] == paths::joined(dir@, top@));
            assert(all[2 * i + 1] == paths::joined(dir@, plain@));
            assert(patterns::texts(out@) =~= patterns::texts(before).push(all[2 * i]).push(
                all[2 * i + 1],
            ));
            i = i + 1;
            assert(patterns::texts(out@) =~= all.take(2 * i));
        }
        assert(all.take(10) =~= all);
        out
    }
}

/// The sum of a color component over the first `n` pixels that are not transparent
pub open spec fn component_sum(data: Seq<u8>, n: int, k: int) -> int
    decreases n,
{
    if n <= 0 {
        0
    } else {
        component_sum(data, n - 1, k) + if data[4 * (n - 1) + 3] != 0 {
            data[4 * (n - 1) + k] as int
        } else {
            0
        }
    }
}

/// The number of pixels that are not transparent among the first `n`
pub open spec fn visible_count(data: Seq<u8>, n: int) -> int
    decreases n,
{
    if n <= 0 {
        0
    } else {
        visible_count(data, n - 1) + if data[4 * (n - 1) + 3] != 0 {
            1int
        } else {
            0
        }
    }
}

/// Sums of the colors of all pixels that are not transparent
#[derive(Debug, Clone, Copy, PartialEq, Eq)]
pub struct ColorSums {
    /// Sums of red, green and blue
    pub sums: [u128; 3],
    /// Number of pixels
    pub count: usize,
}

/// Sums the colors of all pixels of a texture that are not transparent
///
/// The mean color of the texture is the sum divided by the number of pixels.
pub fn color_sums(texture: &Pixels) -> (r: ColorSums)
    requires
        texture.wf(),
    ensures
        r.count == visible_count(texture.data@, texture.width * texture.height),
        forall|k: int|
            0 <= k < 3 ==> #[trigger] r.sums[k] == component_sum(
                texture.data@,
                texture.width * texture.height,
                k,
            ),
{
    let data = &texture.data;
    let pixels: usize = data.len() / 4;
    assert(pixels == texture.width * texture.height);
    let mut red: u128 = 0;
    let mut green: u128 = 0;
    let mut blue: u128 = 0;
    let mut count: usize = 0;
    let mut i: usize = 0;
    while i < pixels
        invariant
            i <= pixels,
            4 * pixels == data.len(),
            data@ == texture.data@,
            count <= i,
            red <= 255 * i,
            green <= 255 * i,
            blue <= 255 * i,
            red == component_sum(data@, i as int, 0),
            green == component_sum(data@, i as int, 1),
            blue == component_sum(data@, i as int, 2),
            count == visible_count(data@, i as int),
        decreases pixels - i,
    {
        if data[4 * i + 3] != 0 {
            red = red + data[4 * i] as u128;
            green = green + data[4 * i + 1] as u128;
            blue = blue + data[4 * i + 2] as u128;
            count = count + 1;
        }
        i = i + 1;
    }
    ColorSums { sums: [red, green, blue], count }
}

/// The pixels of an image that has been scaled to a square
pub uninterp spec fn resized(data: Seq<u8>, width: u32, height: u32, size: u32) -> Seq<u8>;

/// `image::imageops::resize` of an RGBA image to a square with a linear filter: the pixels
/// depend on the pixels and the sizes alone
#[verifier::external_body]
fn resize(texture: &Pixels, size: u32) -> (r: Pixels)
    requires
        texture.wf(),
        16 * (texture.width * size) <= isize::MAX,
        4 * (size * size) <= isize::MAX,
    ensures
        r.wf(),
        r.width == size,
        r.height == size,
        r.data@ == resized(texture.data@, texture.width, texture.height, size),
{
    let data = texture.data.clone();
    let input = image::RgbaImage::from_raw(texture.width, texture.height, data).unwrap();
    let output = image::imageops::resize(&input, size, size, image::imageops::FilterType::Triangle);
    Pixels { width: size, height: size, data: output.into_raw() }
}

/// A loaded and resized block texture
#[derive(Debug)]
pub struct LoadedTexture {
    /// The texture image, resized to the configured per-block size
    pub image: Pixels,
    /// Sums of the (opaque) texels, whose mean color is used to normalize against the flat
    /// color
    pub sums: ColorSums,
}

impl TextureAtlas {
    /// Resizes a texture, computing the sums for its mean color
    pub fn load(&self, texture: &Pixels) -> (r: LoadedTexture)
        requires
            texture.wf(),
            16 * (texture.width * self.spec_scale()) <= isize::MAX,
            4 * (self.spec_scale() * self.spec_scale()) <= isize::MAX,
        ensures
            r.image.wf(),
            r.image.width == self.spec_scale(),
            r.image.height == self.spec_scale(),
            r.image.data@ == resized(
                texture.data@,
                texture.width,
                texture.height,
                self.spec_scale(),
            ),
            r.sums.count == visible_count(
                r.image.data@,
                self.spec_scale() * self.spec_scale(),
            ),
            forall|k: int|
                0 <= k < 3 ==> #[trigger] r.sums.sums[k] == component_sum(
                    r.image.data@,
                    self.spec_scale() * self.spec_scale(),
                    k,
                ),
    {
        let image = resize(texture, self.scale);
        let sums = color_sums(&image);
        LoadedTexture { image, sums }
    }
}

/// The name that a stored index stands for
pub open spec fn stored_name(index: Option<u16>, list: Seq<Seq<char>>) -> Option<Seq<char>> {
    match index {
        Some(i) => if i <= list.len() {
            Some(list[i - 1])
        } else {
            None
        },
        None => None,
    }
}

/// Returns the block name of a column, which its texture is looked up by
pub fn texture_name<'a>(
    names: &NameArray,
    name_list: &'a IndexSet<String>,
    coords: LayerBlockCoords,
) -> (r: Option<&'a String>)
    requires
        names.wf(),
        flat::valid_indices(names@),
        coords.wf(),
    ensures
        match stored_name(names@[coords.spec_index_of()], indexed::block_names(*name_list)) {
            Some(name) => r matches Some(n) && n@ == name,
            None => r is None,
        },
{
    let stored = names.at(coords);
    assert(stored != Some(0u16));
    match stored {
        Some(i) => indexed::name_with_index(name_list, i as usize - 1),
        None => None,
    }
}

/// The color of a pixel of a textured chunk subtile
///
/// Each block is drawn as a square of `scale` by `scale` texels.
pub open spec fn texel_color(
    scale: int,
    blocks: Seq<Option<Vec<[u8; 3]>>>,
    x: int,
    y: int,
) -> Option<[u8; 3]> {
    match blocks[16 * (y / scale) + x / scale] {
        Some(texels) => Some(texels@[(y % scale) * scale + x % scale]),
        None => None,
    }
}

/// Each block has all of its texels
pub open spec fn valid_texels(scale: int, blocks: Seq<Option<Vec<[u8; 3]>>>) -> bool {
    &&& blocks.len() == 256
    &&& forall|i: int|
        0 <= i < 256 ==> (#[trigger] blocks[i] matches Some(texels) ==> texels@.len() == scale
            * scale)
}

proof fn texel_in_range(scale: int, x: int, y: int)
    requires
        0 < scale,
        0 <= x < 16 * scale,
        0 <= y < 16 * scale,
    ensures
        0 <= x / scale < 16,
        0 <= y / scale < 16,
        0 <= (y % scale) * scale + x % scale < scale * scale,
{
    assert(0 <= x / scale < 16 && 0 <= x % scale < scale) by (nonlinear_arith)
        requires
            0 < scale,
            0 <= x < 16 * scale,
    ;
    assert(0 <= y / scale < 16 && 0 <= y % scale < scale) by (nonlinear_arith)
        requires
            0 < scale,
            0 <= y < 16 * scale,
    ;
    let tx = x % scale;
    let ty = y % scale;
    assert(0 <= ty * scale + tx < scale * scale) by (nonlinear_arith)
        requires
            0 <= tx < scale,
            0 <= ty < scale,
    ;
}

/// The color of the pixel with the given number, counted row by row
pub open spec fn numbered_color(
    scale: int,
    blocks: Seq<Option<Vec<[u8; 3]>>>,
    i: int,
) -> Option<[u8; 3]> {
    texel_color(scale, blocks, i % (16 * scale), i / (16 * scale))
}

/// Returns the color of a pixel of a textured chunk subtile
fn texel(scale: usize, blocks: &Vec<Option<Vec<[u8; 3]>>>, x: usize, y: usize) -> (r: Option<
    [u8; 3],
>)
    requires
        0 < scale,
        x < 16 * scale,
        y < 16 * scale,
        valid_texels(scale as int, blocks@),
        scale * scale <= usize::MAX,
    ensures
        r == texel_color(scale as int, blocks@, x as int, y as int),
{
    proof {
        texel_in_range(scale as int, x as int, y as int);
    }
    let cell: usize = 16 * (y / scale) + x / scale;
    match &blocks[cell] {
        Some(texels) => {
            let ty: usize = y % scale;
            assert(0 <= ty * scale <= scale * scale) by (nonlinear_arith)
                requires
                    0 <= ty < scale,
            ;
            Some(texels[ty * scale + x % scale])
        },
        None => None,
    }
}

/// Returns the texel colors of a block, row by row: those of its texture, or the flat color
/// for a block without a matching texture
pub fn block_texels(texture: Option<Vec<[u8; 3]>>, flat: [u8; 3], scale: u32) -> (r: Vec<[u8; 3]>)
    requires
        texture is None ==> scale * scale <= usize::MAX,
    ensures
        texture matches Some(t) ==> r@ == t@,
        texture is None ==> r@ == Seq::new((scale * scale) as nat, |i: int| flat),
{
    if let Some(texels) = texture {
        return texels;
    }
    let count: usize = scale as usize * scale as usize;
    let mut texels: Vec<[u8; 3]> = Vec::new();
    let mut i: usize = 0;
    while i < count
        invariant
            i <= count,
            texels@ == Seq::new(i as nat, |j: int| flat),
        decreases count - i,
    {
        texels.push(flat);
        i = i + 1;
        assert(texels@ =~= Seq::new(i as nat, |j: int| flat));
    }
    texels
}

/// A block without a matching texture is drawn in its flat color
pub proof fn untextured_drawn_flat(
    scale: int,
    blocks: Seq<Option<Vec<[u8; 3]>>>,
    flat: [u8; 3],
    x: int,
    y: int,
)
    requires
        0 < scale,
        0 <= x < 16 * scale,
        0 <= y < 16 * scale,
        valid_texels(scale, blocks),
        blocks[16 * (y / scale) + x / scale] matches Some(texels) && texels@ == Seq::new(
            (scale * scale) as nat,
            |i: int| flat,
        ),
    ensures
        texel_color(scale, blocks, x, y) == Some(flat),
{
    texel_in_range(scale, x, y);
}

/// Renders a textured chunk subtile from the texel colors of its blocks
///
/// Each surface block is drawn using its texels, row by row. Columns without a visible
/// block are transparent.
pub fn render_chunk(scale: u32, blocks: &Vec<Option<Vec<[u8; 3]>>>) -> (r: Pixels)
    requires
        valid_texels(scale as int, blocks@),
        16 * scale <= u32::MAX,
        4 * (16 * scale) * (16 * scale) <= usize::MAX,
    ensures
        r.wf(),
        r.width == 16 * scale,
        r.height == 16 * scale,
        forall|x: int, y: int|
            r.has(x, y) ==> #[trigger] r.pixel(x, y) == flat::pixel_of(
                texel_color(scale as int, blocks@, x, y),
            ),
{
    let size: usize = 16 * scale as usize;
    let ghost n = scale as int;
    assert(size * size <= usize::MAX && n * n <= usize::MAX && 4 * (size * size) == 4 * (16 * n)
        * (16 * n)) by (nonlinear_arith)
        requires
            size == 16 * n,
            0 <= n,
            4 * (16 * n) * (16 * n) <= usize::MAX,
    ;
    let total: usize = size * size;
    let mut data: Vec<u8> = Vec::new();
    let mut i: usize = 0;
    while i < total
        invariant
            i <= total,
            total == size * size,
            size == 16 * n,
            n == scale,
            n * n <= usize::MAX,
            valid_texels(n, blocks@),
            data@.len() == 4 * i,
            forall|j: int|
                0 <= j < i ==> #[trigger] data@.subrange(4 * j, 4 * j + 4) == flat::pixel_of(
                    numbered_color(n, blocks@, j),
                ),
        decreases total - i,
    {
        assert(size > 0) by (nonlinear_arith)
            requires
                i < size * size,
                0 <= i,
        ;
        assert(0 <= (i as int) / (size as int) < size) by (nonlinear_arith)
            requires
                0 <= i < size * size,
                size > 0,
        ;
        let x: usize = i % size;
        let y: usize = i / size;
        let ghost before = data@;
        flat::push_pixel(&mut data, texel(scale as usize, blocks, x, y));
        assert forall|j: int| 0 <= j < i + 1 implies #[trigger] data@.subrange(4 * j, 4 * j + 4)
            == flat::pixel_of(numbered_color(n, blocks@, j)) by {
            if j < i {
                assert(data@.subrange(4 * j, 4 * j + 4) =~= before.subrange(4 * j, 4 * j + 4));
            } else {
                assert(data@.subrange(4 * j, 4 * j + 4) =~= flat::pixel_of(
                    numbered_color(n, blocks@, j),
                ));
            }
        }
        i = i + 1;
    }
    let r = Pixels { width: size as u32, height: size as u32, data };
    assert forall|x: int, y: int| r.has(x, y) implies #[trigger] r.pixel(x, y) == flat::pixel_of(
        texel_color(n, blocks@, x, y),
    ) by {
        let j = y * size + x;
        assert(0 <= j < size * size) by (nonlinear_arith)
            requires
                j == y * size + x,
                0 <= x < size,
                0 <= y < size,
        ;
        vstd::arithmetic::div_mod::lemma_fundamental_div_mod_converse(j, size as int, y, x);
        assert(r.data@.subrange(4 * j, 4 * j + 4) == flat::pixel_of(numbered_color(n, blocks@, j)));
    }
    r
}

/// Textures are looked for in the directories of a resource pack, in this order, and in each
/// of them for the top face first; the namespace of the block does not matter
#[verifier::spinoff_prover]
pub proof fn textures_looked_up(root: Seq<char>, name: Seq<char>)
    requires
        !text::begins_with(name, "minecraft:"@),
    ensures
        candidate_paths(root, "minecraft:"@ + name) == candidate_paths(root, name),
        ({
            let found = candidate_paths(root, name);
            let block = paths::joined(root, "assets/minecraft/textures/block"@);
            let blocks = paths::joined(root, "assets/minecraft/textures/blocks"@);
            &&& found.len() == 10
            &&& found[0] == paths::joined(block, name + "_top.png"@)
            &&& found[1] == paths::joined(block, name + ".png"@)
            &&& found[2] == paths::joined(blocks, name + "_top.png"@)
            &&& found[3] == paths::joined(blocks, name + ".png"@)
            &&& found[4] == paths::joined(paths::joined(root, "block"@), name + "_top.png"@)
            &&& found[5] == paths::joined(paths::joined(root, "block"@), name + ".png"@)
            &&& found[6] == paths::joined(paths::joined(root, "blocks"@), name + "_top.png"@)
            &&& found[7] == paths::joined(paths::joined(root, "blocks"@), name + ".png"@)
            &&& found[8] == paths::joined(root, name + "_top.png"@)
            &&& found[9] == paths::joined(root, name + ".png"@)
        }),
{
    reveal_strlit("_top");
    reveal_strlit(".png");
    reveal_strlit("_top.png");
    text::prefix_taken_off(name, "minecraft:"@);
    assert(name + "_top"@ + ".png"@ =~= name + "_top.png"@);
    assert(overlay::local_name(name) == name);
    assert(overlay::local_name("minecraft:"@ + name) == name);
}

/// The numbers of the pixels that are not transparent among the first `n`
pub open spec fn visible_pixels(data: Seq<u8>, n: int) -> Seq<int> {
    Seq::new(n as nat, |i: int| i).filter(|i: int| data[4 * i + 3] != 0)
}

/// The colors of all pixels that are not transparent are summed, component by component
pub proof fn visible_pixels_summed(data: Seq<u8>, n: int, k: int)
    requires
        0 <= n,
    ensures
        visible_count(data, n) == visible_pixels(data, n).len(),
        component_sum(data, n, k) == visible_pixels(data, n).fold_left(
            0int,
            |sum: int, i: int| sum + data[4 * i + k],
        ),
    decreases n,
{
    let all = Seq::new(n as nat, |i: int| i);
    reveal(Seq::filter);
    reveal_with_fuel(Seq::fold_left, 2);
    if n > 0 {
        visible_pixels_summed(data, n - 1, k);
        assert(all.drop_last() =~= Seq::new((n - 1) as nat, |i: int| i));
        assert(all.last() == n - 1);
        let before = visible_pixels(data, n - 1);
        if data[4 * (n - 1) + 3] != 0 {
            assert(visible_pixels(data, n) =~= before.push(n - 1));
            assert(before.push(n - 1).drop_last() =~= before);
        } else {
            assert(visible_pixels(data, n) =~= before);
        }
    }
}

/// Names are stored by their index, incremented by 1; an index that is not in the list stands
/// for no name
pub proof fn name_stored(index: u16, list: Seq<Seq<char>>)
    requires
        index < u16::MAX,
    ensures
        stored_name(None, list) is None,
        stored_name(Some((index + 1) as u16), list) == (if index < list.len() {
            Some(list[index as int])
        } else {
            None
        }),
{
}

/// Each block is drawn as a square at its place, with its texels row by row
pub proof fn texels_drawn(
    scale: int,
    blocks: Seq<Option<Vec<[u8; 3]>>>,
    x: int,
    z: int,
    column: int,
    row: int,
)
    requires
        valid_texels(scale, blocks),
        0 <= x < 16,
        0 <= z < 16,
        0 <= column < scale,
        0 <= row < scale,
    ensures
        ({
            let color = texel_color(scale, blocks, x * scale + column, z * scale + row);
            match blocks[16 * z + x] {
                Some(texels) => color == Some(texels@[row * scale + column]),
                None => color is None,
            }
        }),
{
    vstd::arithmetic::div_mod::lemma_fundamental_div_mod_converse(
        x * scale + column,
        scale,
        x,
        column,
    );
    vstd::arithmetic::div_mod::lemma_fundamental_div_mod_converse(
        z * scale + row,
        scale,
        z,
        row,
    );
}

} // verus!
