//! Decoding of Bedrock Edition subchunk "paletted storage" data
//!
//! A subchunk (LevelDB key tag `0x2f`) stores a 16×16×16 block volume as one or
//! more storage layers. Each layer consists of a header byte (bits-per-block and
//! a runtime flag), a packed array of palette indices, and a little-endian NBT
//! block palette. Supported container versions are 1, 8 and 9 (version 9 carries
//! an extra subchunk Y-index byte).

use crate::bedrock::layout;
use crate::bedrock::nbt;
use crate::bedrock::nbt::{Nbt, NbtError};
use crate::bedrock::within;
use crate::bytes;
use vstd::prelude::*;
use vstd::string::*;

verus! {

/// Number of blocks along each axis of a subchunk
pub const SUBCHUNK_SIZE: usize = 16;

/// Total number of blocks in a subchunk
pub const BLOCKS_PER_SUBCHUNK: usize = 4096;

/// Reasons why data is not a subchunk
#[derive(Debug, Clone, Copy, PartialEq, Eq, Structural)]
pub enum SubChunkError {
    /// The data ends too early
    UnexpectedEnd,
    /// The layer refers to a runtime palette, which saved data does not have
    RuntimePalette,
    /// The layer uses more than 16 bits per block
    InvalidBitWidth(u8),
    /// The data ends inside the palette
    TruncatedPalette,
    /// A palette entry has no name
    MissingName,
    /// A palette entry is not NBT
    Nbt(NbtError),
    /// There is no subchunk format with this version
    UnsupportedVersion(u8),
}

/// Computes the storage offset of a block within a subchunk
///
/// Bedrock orders subchunk blocks with X as the most significant and Y as the
/// least significant index.
pub fn block_offset(x: usize, y: usize, z: usize) -> (r: usize)
    requires
        (x * 16 + z) * 16 + y <= usize::MAX,
    ensures
        r == (x * 16 + z) * 16 + y,
{
    (x * SUBCHUNK_SIZE + z) * SUBCHUNK_SIZE + y
}

/// Every block of a subchunk has a storage offset of its own
pub proof fn block_offsets_distinct(x: int, y: int, z: int, x2: int, y2: int, z2: int)
    requires
        0 <= x < 16,
        0 <= y < 16,
        0 <= z < 16,
        0 <= x2 < 16,
        0 <= y2 < 16,
        0 <= z2 < 16,
    ensures
        0 <= (x * 16 + z) * 16 + y < BLOCKS_PER_SUBCHUNK,
        (x * 16 + z) * 16 + y == (x2 * 16 + z2) * 16 + y2 ==> x == x2 && y == y2 && z == z2,
{
}

/// A single decoded storage layer of a subchunk
#[derive(Debug)]
pub struct SubChunkLayer {
    /// Block palette (names including the `minecraft:` prefix)
    pub palette: Vec<String>,
    /// Palette indices of the blocks
    pub indices: PackedIndices,
}

/// Palette indices that are packed into words
#[derive(Debug)]
pub struct PackedIndices {
    /// Number of bits used per palette index
    bits: u8,
    /// Packed palette indices, as little-endian 32-bit words
    words: Vec<u32>,
}

impl PackedIndices {
    /// Number of bits used per palette index
    pub closed spec fn width(&self) -> u8 {
        self.bits
    }

    /// The words that the palette indices are packed into
    pub closed spec fn packed_words(&self) -> Seq<u32> {
        self.words@
    }

    #[verifier::type_invariant]
    spec fn valid_width(self) -> bool {
        self.bits <= 16
    }
}

/// What a storage layer holds
pub struct Layer {
    /// The names of the palette
    pub palette: Seq<Seq<char>>,
    /// Number of bits used per palette index
    pub bits: u8,
    /// The words that the palette indices are packed into
    pub words: Seq<u32>,
}

/// The characters of each name
pub open spec fn names_view(names: Seq<String>) -> Seq<Seq<char>> {
    names.map_values(|n: String| n@)
}

impl View for SubChunkLayer {
    type V = Layer;

    open spec fn view(&self) -> Layer {
        Layer {
            palette: names_view(self.palette@),
            bits: self.indices.width(),
            words: self.indices.packed_words(),
        }
    }
}

/// The palette index that is packed at `offset`
///
/// A word holds as many indices as fit into its 32 bits, the first in the lowest
/// bits. Indices behind the last word are zero, as are all indices of no bits.
pub open spec fn index_at(layer: Layer, offset: int) -> int {
    if layer.bits == 0 {
        0
    } else {
        let per_word = 32int / layer.bits as int;
        if offset / per_word < layer.words.len() {
            layer.words[offset / per_word] as int / vstd::arithmetic::power2::pow2(
                ((offset % per_word) * layer.bits) as nat,
            ) as int % vstd::arithmetic::power2::pow2(layer.bits as nat) as int
        } else {
            0
        }
    }
}

impl SubChunkLayer {
    /// Returns the palette index of the block at a storage offset
    pub fn palette_index(&self, offset: usize) -> (r: usize)
        ensures
            r == index_at(self@, offset as int),
    {
        let indices = &self.indices;
        proof {
            use_type_invariant(indices);
        }
        if indices.bits == 0 {
            return 0;
        }
        let bits: usize = indices.bits as usize;
        assert(1 <= 32int / bits as int <= 32) by (nonlinear_arith)
            requires
                1 <= bits <= 16,
        ;
        let per_word: usize = 32 / bits;
        let word: usize = offset / per_word;
        let slot: usize = offset % per_word;
        assert(slot * bits < 32) by (nonlinear_arith)
            requires
                slot < per_word,
                per_word == 32int / bits as int,
                1 <= bits <= 16,
        ;
        let shift: u32 = (slot * bits) as u32;
        let width: u32 = indices.bits as u32;
        if word < indices.words.len() {
            let w: u32 = indices.words[word];
            proof {
                vstd::bits::lemma_u32_shr_is_div(w, shift);
                vstd::arithmetic::power2::lemma2_to64();
                vstd::arithmetic::power2::lemma_pow2_strictly_increases(width as nat, 32);
                vstd::bits::lemma_u32_shl_is_mul(1u32, width);
                vstd::arithmetic::power2::lemma_pow2_pos(width as nat);
                vstd::bits::lemma_u32_low_bits_mask_is_mod(w >> shift, width as nat);
            }
            let mask: u32 = (1u32 << width) - 1;
            ((w >> shift) & mask) as usize
        } else {
            0
        }
    }

    /// Returns the block name at a storage offset
    pub fn name_at(&self, offset: usize) -> (r: Option<&str>)
        ensures
            r is Some <==> index_at(self@, offset as int) < self@.palette.len(),
            r matches Some(s) ==> s@ == self@.palette[index_at(self@, offset as int)],
    {
        let index: usize = self.palette_index(offset);
        if index < self.palette.len() {
            Some(self.palette[index].as_str())
        } else {
            None
        }
    }
}

/// Reads a little-endian `u32` at `pos`, advancing it
fn read_u32(data: &[u8], pos: &mut usize) -> (r: Result<u32, SubChunkError>)
    requires
        *old(pos) <= data.len(),
    ensures
        *final(pos) <= data.len(),
        match r {
            Ok(v) => {
                &&& *old(pos) + 4 <= data@.len()
                &&& v == bytes::le32(data@, *old(pos) as int)
                &&& *final(pos) == *old(pos) + 4
            },
            Err(e) => {
                &&& e == SubChunkError::UnexpectedEnd
                &&& *old(pos) + 4 > data@.len()
                &&& *final(pos) == *old(pos)
            },
        },
{
    if data.len() - *pos < 4 {
        return Err(SubChunkError::UnexpectedEnd);
    }
    let value: u32 = bytes::u32_at(data, *pos);
    *pos = *pos + 4;
    Ok(value)
}

/// Reads a single byte at `pos`, advancing it
fn read_u8(data: &[u8], pos: &mut usize) -> (r: Result<u8, SubChunkError>)
    requires
        *old(pos) <= data.len(),
    ensures
        *final(pos) <= data.len(),
        match r {
            Ok(v) => {
                &&& *old(pos) < data@.len()
                &&& v == data@[*old(pos) as int]
                &&& *final(pos) == *old(pos) + 1
            },
            Err(e) => {
                &&& e == SubChunkError::UnexpectedEnd
                &&& *old(pos) >= data@.len()
                &&& *final(pos) == *old(pos)
            },
        },
{
    if *pos >= data.len() {
        return Err(SubChunkError::UnexpectedEnd);
    }
    let value: u8 = data[*pos];
    *pos = *pos + 1;
    Ok(value)
}

/// The number of words that hold the palette indices of a subchunk
pub open spec fn word_count(bits: int) -> int {
    if bits == 0 {
        0
    } else {
        (BLOCKS_PER_SUBCHUNK + 32int / bits - 1) / (32int / bits)
    }
}

/// The words at `pos`
pub open spec fn words_at(data: Seq<u8>, pos: int, count: int) -> Seq<u32> {
    Seq::new(count as nat, |i: int| bytes::le32(data, pos + 4 * i) as u32)
}

/// The names `done`, followed by the names of `count` palette entries at `pos`
///
/// A palette entry is an NBT compound with a string `name`.
pub open spec fn palette_at(
    data: Seq<u8>,
    pos: int,
    count: int,
    done: Seq<Seq<char>>,
) -> Result<(Seq<Seq<char>>, int), SubChunkError>
    decreases count,
{
    if count <= 0 {
        Ok((done, pos))
    } else {
        match nbt::root_at(data, pos) {
            Err((e, _)) => Err(SubChunkError::Nbt(e)),
            Ok((None, _)) => Err(SubChunkError::TruncatedPalette),
            Ok((Some(v), p)) => match entry_name(v) {
                None => Err(SubChunkError::MissingName),
                Some(name) => palette_at(data, p, count - 1, done.push(name)),
            },
        }
    }
}

/// The name of a palette entry
pub open spec fn entry_name(v: Nbt) -> Option<Seq<char>> {
    match v.entry("name"@) {
        None => None,
        Some(t) => t.text(),
    }
}

/// The storage layer at `pos`, and the position behind it
pub open spec fn layer_at(data: Seq<u8>, pos: int) -> Result<(Layer, int), SubChunkError> {
    if pos >= data.len() {
        Err(SubChunkError::UnexpectedEnd)
    } else if data[pos] % 2 == 1 {
        Err(SubChunkError::RuntimePalette)
    } else if data[pos] / 2 > 16 {
        Err(SubChunkError::InvalidBitWidth((data[pos] / 2) as u8))
    } else {
        let bits = data[pos] / 2;
        let sizes = pos + 1 + 4 * word_count(bits as int);
        if sizes + 4 > data.len() {
            Err(SubChunkError::UnexpectedEnd)
        } else {
            match palette_at(data.skip(sizes + 4), 0, bytes::le32(data, sizes), Seq::empty()) {
                Err(e) => Err(e),
                Ok((palette, p)) => Ok(
                    (
                        Layer {
                            palette,
                            bits: bits as u8,
                            words: words_at(data, pos + 1, word_count(bits as int)),
                        },
                        sizes + 4 + p,
                    ),
                ),
            }
        }
    }
}

/// The first storage layer of a subchunk, if it has one
pub open spec fn block_layer(data: Seq<u8>) -> Result<Option<Layer>, SubChunkError> {
    if data.len() == 0 {
        Ok(None)
    } else {
        let version = data[0];
        let header: int = if version == 1 {
            1
        } else if version == 8 {
            2
        } else {
            3
        };
        if version != 1 && version != 8 && version != 9 {
            Err(SubChunkError::UnsupportedVersion(version))
        } else if data.len() < header {
            Err(SubChunkError::UnexpectedEnd)
        } else if version != 1 && data[1] == 0 {
            Ok(None)
        } else {
            match layer_at(data, header) {
                Err(e) => Err(e),
                Ok((layer, _)) => Ok(Some(layer)),
            }
        }
    }
}

/// Reads the words of a storage layer
fn read_words(data: &[u8], pos: &mut usize, count: usize) -> (r: Result<Vec<u32>, SubChunkError>)
    requires
        *old(pos) <= data.len(),
        count <= BLOCKS_PER_SUBCHUNK,
    ensures
        *final(pos) <= data.len(),
        match r {
            Ok(words) => {
                &&& *old(pos) + 4 * count <= data@.len()
                &&& words@ == words_at(data@, *old(pos) as int, count as int)
                &&& *final(pos) == *old(pos) + 4 * count
            },
            Err(e) => {
                &&& e == SubChunkError::UnexpectedEnd
                &&& *old(pos) + 4 * count > data@.len()
            },
        },
{
    let ghost start = *pos as int;
    let mut words: Vec<u32> = Vec::new();
    let mut i: usize = 0;
    while i < count
        invariant
            i <= count,
            start == *old(pos),
            *pos == start + 4 * i,
            *pos <= data.len(),
            words@ == words_at(data@, start, i as int),
        decreases count - i,
    {
        match read_u32(data, pos) {
            Ok(w) => words.push(w),
            Err(e) => return Err(e),
        }
        i = i + 1;
        assert(words@ =~= words_at(data@, start, i as int));
    }
    Ok(words)
}

/// Reads the names of a block palette
fn read_palette(reader: &mut nbt::Reader, count: u32) -> (r: Result<Vec<String>, SubChunkError>)
    ensures
        final(reader).input() == old(reader).input(),
        match palette_at(old(reader).input(), old(reader).at(), count as int, Seq::empty()) {
            Ok((names, p)) => {
                &&& r matches Ok(v)
                &&& names_view(v@) == names
                &&& final(reader).at() == p
            },
            Err(e) => r == Err::<Vec<String>, SubChunkError>(e),
        },
{
    let ghost input = reader.input();
    let ghost start = reader.at();
    let mut palette: Vec<String> = Vec::new();
    let mut left: u32 = count;
    assert(names_view(palette@) =~= Seq::<Seq<char>>::empty());
    while left > 0
        invariant
            input == old(reader).input(),
            start == old(reader).at(),
            reader.input() == input,
            palette_at(input, start, count as int, Seq::empty()) == palette_at(
                input,
                reader.at(),
                left as int,
                names_view(palette@),
            ),
        decreases left,
    {
        let value = match reader.read_value() {
            Err(e) => return Err(SubChunkError::Nbt(e)),
            Ok(None) => return Err(SubChunkError::TruncatedPalette),
            Ok(Some(value)) => value,
        };
        let name = match value.get("name") {
            None => return Err(SubChunkError::MissingName),
            Some(name) => name,
        };
        let name = match name.as_str() {
            None => return Err(SubChunkError::MissingName),
            Some(name) => name,
        };
        let ghost so_far = names_view(palette@);
        palette.push(name.to_owned());
        assert(names_view(palette@) =~= so_far.push(name@));
        left = left - 1;
    }
    Ok(palette)
}

/// Parses a single storage layer starting at `pos`
fn parse_layer(data: &[u8], pos: &mut usize) -> (r: Result<SubChunkLayer, SubChunkError>)
    requires
        *old(pos) <= data.len(),
    ensures
        match layer_at(data@, *old(pos) as int) {
            Ok((layer, p)) => {
                &&& r matches Ok(l)
                &&& l@ == layer
                &&& *final(pos) == p
            },
            Err(e) => r == Err::<SubChunkLayer, SubChunkError>(e),
        },
{
    let header: u8 = match read_u8(data, pos) {
        Ok(header) => header,
        Err(e) => return Err(e),
    };
    let bits: u8 = header / 2;
    if header % 2 == 1 {
        return Err(SubChunkError::RuntimePalette);
    }
    // Valid Bedrock palettes use at most 16 bits per block; reject anything
    // larger as corrupt data.
    if bits > 16 {
        return Err(SubChunkError::InvalidBitWidth(bits));
    }
    let count: usize = if bits == 0 {
        0
    } else {
        assert(2 <= 32int / bits as int <= 32) by (nonlinear_arith)
            requires
                1 <= bits <= 16,
        ;
        let per_word: usize = 32 / (bits as usize);
        let sum: usize = BLOCKS_PER_SUBCHUNK + per_word - 1;
        assert(sum as int / per_word as int <= 4096) by (nonlinear_arith)
            requires
                sum <= 4096 + 31,
                per_word >= 2,
        ;
        sum / per_word
    };
    assert(count == word_count(bits as int));
    let words = match read_words(data, pos, count) {
        Ok(words) => words,
        Err(e) => return Err(e),
    };
    let palette_size: u32 = match read_u32(data, pos) {
        Ok(size) => size,
        Err(e) => return Err(e),
    };
    let rest = vstd::slice::slice_subrange(data, *pos, data.len());
    assert(rest@ =~= data@.skip(*pos as int));
    let mut reader = nbt::Reader::new(rest);
    let palette = match read_palette(&mut reader, palette_size) {
        Ok(palette) => palette,
        Err(e) => return Err(e),
    };
    *pos = *pos + reader.position();
    Ok(SubChunkLayer { palette, indices: PackedIndices { bits, words } })
}

/// Parses the block storage (first layer) of a subchunk value
///
/// Returns `None` for subchunks without any storage layers.
pub fn parse_block_layer(data: &[u8]) -> (r: Result<Option<SubChunkLayer>, SubChunkError>)
    ensures
        match block_layer(data@) {
            Ok(None) => r == Ok::<Option<SubChunkLayer>, SubChunkError>(None),
            Ok(Some(layer)) => {
                &&& r matches Ok(Some(l))
                &&& l@ == layer
            },
            Err(e) => r == Err::<Option<SubChunkLayer>, SubChunkError>(e),
        },
{
    if data.len() == 0 {
        return Ok(None);
    }
    let mut pos: usize = 0;
    let version: u8 = match read_u8(data, &mut pos) {
        Ok(version) => version,
        Err(e) => return Err(e),
    };
    let storage_count: u8 = if version == 1 {
        1
    } else if version == 8 {
        match read_u8(data, &mut pos) {
            Ok(count) => count,
            Err(e) => return Err(e),
        }
    } else if version == 9 {
        let count: u8 = match read_u8(data, &mut pos) {
            Ok(count) => count,
            Err(e) => return Err(e),
        };
        // Skip the subchunk Y-index byte (authoritative value comes from the key)
        match read_u8(data, &mut pos) {
            Ok(_y_index) => {},
            Err(e) => return Err(e),
        }
        count
    } else {
        return Err(SubChunkError::UnsupportedVersion(version));
    };
    if storage_count == 0 {
        return Ok(None);
    }
    match parse_layer(data, &mut pos) {
        Ok(layer) => Ok(Some(layer)),
        Err(e) => Err(e),
    }
}

/// The number that palette indices of `bits` bits each are packed into, the first
/// of them in the lowest bits
pub open spec fn packed(indices: Seq<int>, bits: nat) -> int
    decreases indices.len(),
{
    if indices.len() == 0 {
        0
    } else {
        indices[0] + vstd::arithmetic::power2::pow2(bits) * packed(indices.skip(1), bits)
    }
}

proof fn packed_nonnegative(indices: Seq<int>, bits: nat)
    requires
        forall|j: int| 0 <= j < indices.len() ==> 0 <= #[trigger] indices[j],
    ensures
        0 <= packed(indices, bits),
    decreases indices.len(),
{
    if indices.len() > 0 {
        let tail = indices.skip(1);
        assert forall|j: int| 0 <= j < tail.len() implies 0 <= #[trigger] tail[j] by {
            assert(tail[j] == indices[j + 1]);
        }
        packed_nonnegative(tail, bits);
        let base = vstd::arithmetic::power2::pow2(bits);
        let rest = packed(tail, bits);
        assert(0 <= base * rest) by (nonlinear_arith)
            requires
                0 <= rest,
        ;
    }
}

/// A packed palette index is found again at its place
pub proof fn packed_index(indices: Seq<int>, bits: nat, i: int)
    requires
        0 <= i < indices.len(),
        forall|j: int|
            0 <= j < indices.len() ==> 0 <= #[trigger] indices[j]
                < vstd::arithmetic::power2::pow2(bits),
    ensures
        packed(indices, bits) / vstd::arithmetic::power2::pow2((i * bits) as nat) as int
            % vstd::arithmetic::power2::pow2(bits) as int == indices[i],
    decreases i,
{
    let base = vstd::arithmetic::power2::pow2(bits) as int;
    let rest = packed(indices.skip(1), bits);
    vstd::arithmetic::power2::lemma_pow2_pos(bits);
    packed_nonnegative(indices, bits);
    assert(packed(indices, bits) == rest * base + indices[0]) by (nonlinear_arith)
        requires
            packed(indices, bits) == indices[0] + base * rest,
    ;
    if i == 0 {
        assert(0 * bits == 0) by (nonlinear_arith);
        vstd::arithmetic::power2::lemma2_to64();
        assert(packed(indices, bits) / 1 == packed(indices, bits));
        vstd::arithmetic::div_mod::lemma_fundamental_div_mod_converse(
            packed(indices, bits),
            base,
            rest,
            indices[0],
        );
    } else {
        let tail = indices.skip(1);
        assert forall|j: int| 0 <= j < tail.len() implies 0 <= #[trigger] tail[j]
            < vstd::arithmetic::power2::pow2(bits) by {
            assert(tail[j] == indices[j + 1]);
        }
        packed_index(tail, bits, i - 1);
        let shift = ((i - 1) * bits) as nat;
        assert((i - 1) * bits >= 0 && i * bits == bits + (i - 1) * bits) by (nonlinear_arith)
            requires
                i >= 1,
        ;
        vstd::arithmetic::power2::lemma_pow2_adds(bits, shift);
        vstd::arithmetic::power2::lemma_pow2_pos(shift);
        vstd::arithmetic::div_mod::lemma_fundamental_div_mod_converse(
            packed(indices, bits),
            base,
            rest,
            indices[0],
        );
        vstd::arithmetic::div_mod::lemma_div_denominator(
            packed(indices, bits),
            base,
            vstd::arithmetic::power2::pow2(shift) as int,
        );
    }
}

/// The words of a layer hold the palette indices of all blocks, as many in each
/// word as fit
pub open spec fn holds_indices(layer: Layer, indices: Seq<int>) -> bool {
    let per_word = 32int / layer.bits as int;
    &&& 1 <= layer.bits <= 16
    &&& indices.len() == BLOCKS_PER_SUBCHUNK
    &&& forall|j: int|
        0 <= j < indices.len() ==> 0 <= #[trigger] indices[j] < vstd::arithmetic::power2::pow2(
            layer.bits as nat,
        )
    &&& layer.words.len() == word_count(layer.bits as int)
    &&& forall|w: int|
        0 <= w < layer.words.len() ==> #[trigger] layer.words[w] == packed(
            word_indices(indices, w, per_word),
            layer.bits as nat,
        )
}

/// The palette indices in a word
pub open spec fn word_indices(indices: Seq<int>, w: int, per_word: int) -> Seq<int> {
    indices.subrange(
        w * per_word,
        if (w + 1) * per_word <= indices.len() {
            (w + 1) * per_word
        } else {
            indices.len() as int
        },
    )
}

/// Every palette index that was packed into the words of a layer is read back
pub proof fn indices_read_back(layer: Layer, indices: Seq<int>, offset: int)
    requires
        holds_indices(layer, indices),
        0 <= offset < BLOCKS_PER_SUBCHUNK,
    ensures
        index_at(layer, offset) == indices[offset],
{
    let bits = layer.bits as int;
    let per_word = 32int / bits;
    assert(2 <= per_word <= 32) by (nonlinear_arith)
        requires
            1 <= bits <= 16,
            per_word == 32int / bits,
    ;
    let w = offset / per_word;
    let slot = offset % per_word;
    let count = word_count(bits);
    assert(0 <= w && 0 <= slot < per_word && offset == w * per_word + slot && w * per_word
        <= offset && (w + 1) * per_word == w * per_word + per_word && w < count) by (nonlinear_arith)
        requires
            w == offset / per_word,
            slot == offset % per_word,
            0 <= offset < 4096,
            2 <= per_word <= 32,
            count == (4096 + per_word - 1) / per_word,
    ;
    let ix = word_indices(indices, w, per_word);
    assert forall|j: int| 0 <= j < ix.len() implies 0 <= #[trigger] ix[j]
        < vstd::arithmetic::power2::pow2(layer.bits as nat) by {
        assert(ix[j] == indices[w * per_word + j]);
    }
    packed_index(ix, layer.bits as nat, slot);
    assert(layer.words[w] == packed(ix, layer.bits as nat));
    assert(ix[slot] == indices[offset]);
}

/// The bytes of the words of a layer
pub open spec fn word_bytes(words: Seq<u32>) -> Seq<u8>
    decreases words.len(),
{
    if words.len() == 0 {
        Seq::empty()
    } else {
        word_bytes(words.drop_last()) + bytes::le32_bytes(words.last() as int)
    }
}

/// The bytes of a storage layer with the given palette entries
pub open spec fn layer_bytes(bits: u8, words: Seq<u32>, entries: Seq<(Seq<char>, Nbt)>) -> Seq<u8> {
    seq![(2 * bits) as u8] + (word_bytes(words) + (bytes::le32_bytes(entries.len() as int)
        + layout::root_bytes(entries)))
}

/// Palette entries that can be written, and their names
pub open spec fn entries_named(entries: Seq<(Seq<char>, Nbt)>, names: Seq<Seq<char>>) -> bool {
    &&& entries.len() == names.len() < 0x1_0000_0000
    &&& forall|i: int|
        0 <= i < entries.len() ==> {
            &&& layout::storable_text((#[trigger] entries[i]).0)
            &&& layout::storable(entries[i].1)
            &&& entry_name(entries[i].1) == Some(names[i])
        }
}

/// The bytes in front of the first storage layer of a subchunk
pub open spec fn subchunk_header(version: u8, count: u8, y: u8) -> Seq<u8> {
    if version == 1 {
        seq![1u8]
    } else if version == 8 {
        seq![8u8, count]
    } else {
        seq![9u8, count, y]
    }
}

proof fn words_read_back(words: Seq<u32>, data: Seq<u8>, pos: int)
    requires
        layout::stands_at(word_bytes(words), data, pos),
    ensures
        word_bytes(words).len() == 4 * words.len(),
        words_at(data, pos, words.len() as int) == words,
    decreases words.len(),
{
    if words.len() > 0 {
        let last = bytes::le32_bytes(words.last() as int);
        layout::stands_split(word_bytes(words.drop_last()), last, data, pos);
        words_read_back(words.drop_last(), data, pos);
        let at = pos + 4 * (words.len() - 1);
        bytes::le32_roundtrip(words.last() as int, data, at);
        assert forall|i: int| 0 <= i < words.len() implies words_at(
            data,
            pos,
            words.len() as int,
        )[i] == words[i] by {
            if i < words.len() - 1 {
                assert(words_at(data, pos, words.len() - 1)[i] == words.drop_last()[i]);
            }
        }
    }
    assert(words_at(data, pos, words.len() as int) =~= words);
}

#[verifier::spinoff_prover]
proof fn palette_read_back(
    entries: Seq<(Seq<char>, Nbt)>,
    names: Seq<Seq<char>>,
    data: Seq<u8>,
    pos: int,
    done: Seq<Seq<char>>,
)
    requires
        entries_named(entries, names),
        layout::stands_at(layout::root_bytes(entries), data, pos),
    ensures
        palette_at(data, pos, entries.len() as int, done) == Ok::<
            (Seq<Seq<char>>, int),
            SubChunkError,
        >((done + names, pos + layout::root_bytes(entries).len())),
    decreases entries.len(),
{
    if entries.len() == 0 {
        assert(done + names =~= done);
    } else {
        let (name, value) = entries[0];
        let first = seq![layout::tag_of(value)] + layout::text_bytes(name) + layout::value_bytes(
            value,
        );
        layout::stands_split(first, layout::root_bytes(entries.skip(1)), data, pos);
        layout::root_read_back(name, value, data, pos);
        assert(entries_named(entries.skip(1), names.skip(1)));
        palette_read_back(
            entries.skip(1),
            names.skip(1),
            data,
            pos + first.len(),
            done.push(names[0]),
        );
        assert(done.push(names[0]) + names.skip(1) =~= done + names);
    }
}

#[verifier::spinoff_prover]
proof fn layer_parts(layer: Layer, entries: Seq<(Seq<char>, Nbt)>, data: Seq<u8>, pos: int)
    requires
        layer.bits <= 16,
        entries.len() < 0x1_0000_0000,
        layout::stands_at(layer_bytes(layer.bits, layer.words, entries), data, pos),
    ensures
        ({
            let sizes = pos + 1 + 4 * layer.words.len();
            &&& data[pos] == 2 * layer.bits
            &&& words_at(data, pos + 1, layer.words.len() as int) == layer.words
            &&& bytes::le32(data, sizes) == entries.len()
            &&& layout::stands_at(layout::root_bytes(entries), data.skip(sizes + 4), 0)
            &&& sizes + 4 + layout::root_bytes(entries).len() <= data.len()
            &&& layer_bytes(layer.bits, layer.words, entries).len() == 1 + 4 * layer.words.len()
                + 4 + layout::root_bytes(entries).len()
        }),
{
    let count_bytes = bytes::le32_bytes(entries.len() as int);
    let palette = layout::root_bytes(entries);
    layout::stands_split(
        seq![(2 * layer.bits) as u8],
        word_bytes(layer.words) + (count_bytes + palette),
        data,
        pos,
    );
    assert(data.subrange(pos, pos + 1)[0] == data[pos]);
    layout::stands_split(word_bytes(layer.words), count_bytes + palette, data, pos + 1);
    words_read_back(layer.words, data, pos + 1);
    let sizes = pos + 1 + 4 * layer.words.len();
    layout::stands_split(count_bytes, palette, data, sizes);
    bytes::le32_roundtrip(entries.len() as int, data, sizes);
    assert(data.skip(sizes + 4).subrange(0, palette.len() as int) =~= data.subrange(
        sizes + 4,
        sizes + 4 + palette.len(),
    ));
}

#[verifier::spinoff_prover]
proof fn layer_read_back(layer: Layer, entries: Seq<(Seq<char>, Nbt)>, data: Seq<u8>, pos: int)
    requires
        layer.bits <= 16,
        layer.words.len() == word_count(layer.bits as int),
        entries_named(entries, layer.palette),
        layout::stands_at(layer_bytes(layer.bits, layer.words, entries), data, pos),
    ensures
        layer_at(data, pos) == Ok::<(Layer, int), SubChunkError>(
            (layer, pos + layer_bytes(layer.bits, layer.words, entries).len()),
        ),
{
    let tail = data.skip(pos + 1 + 4 * layer.words.len() + 4);
    layer_parts(layer, entries, data, pos);
    palette_read_back(entries, layer.palette, tail, 0, Seq::empty());
    assert(Seq::<Seq<char>>::empty() + layer.palette =~= layer.palette);
}

proof fn header_read_back(version: u8, count: u8, y: u8, body: Seq<u8>, rest: Seq<u8>)
    requires
        version == 1 || version == 8 || version == 9,
        count > 0,
        body.len() > 0,
    ensures
        ({
            let header = subchunk_header(version, count, y);
            let data = header + body + rest;
            &&& layout::stands_at(body, data, header.len() as int)
            &&& block_layer(data) == match layer_at(data, header.len() as int) {
                Err(e) => Err::<Option<Layer>, SubChunkError>(e),
                Ok((layer, _)) => Ok(Some(layer)),
            }
        }),
{
    let header = subchunk_header(version, count, y);
    let data = header + body + rest;
    let pos = header.len() as int;
    assert(data.subrange(pos, pos + body.len()) =~= body);
    assert(data[0] == header[0]);
    if version != 1 {
        assert(data[1] == header[1]);
    }
}

/// The first layer of a written subchunk is read back
#[verifier::spinoff_prover]
pub proof fn subchunk_read_back(
    version: u8,
    count: u8,
    y: u8,
    layer: Layer,
    entries: Seq<(Seq<char>, Nbt)>,
    rest: Seq<u8>,
)
    requires
        version == 1 || version == 8 || version == 9,
        count > 0,
        layer.bits <= 16,
        layer.words.len() == word_count(layer.bits as int),
        entries_named(entries, layer.palette),
    ensures
        block_layer(
            subchunk_header(version, count, y) + layer_bytes(layer.bits, layer.words, entries)
                + rest,
        ) == Ok::<Option<Layer>, SubChunkError>(Some(layer)),
{
    let header = subchunk_header(version, count, y);
    let body = layer_bytes(layer.bits, layer.words, entries);
    header_read_back(version, count, y, body, rest);
    layer_read_back(layer, entries, header + body + rest, header.len() as int);
}

proof fn palette_followed(
    data: Seq<u8>,
    extra: Seq<u8>,
    pos: int,
    count: int,
    done: Seq<Seq<char>>,
)
    requires
        0 <= pos <= data.len(),
        palette_at(data, pos, count, done) is Ok,
    ensures
        palette_at(data + extra, pos, count, done) == palette_at(data, pos, count, done),
    decreases count,
{
    if count > 0 {
        nbt::root_advances(data, pos);
        within::root_within(data, data + extra, 0, pos);
        if let Ok((Some(v), p)) = nbt::root_at(data, pos) {
            if let Some(name) = entry_name(v) {
                palette_followed(data, extra, p, count - 1, done.push(name));
            }
        }
    }
}

proof fn layer_followed(data: Seq<u8>, extra: Seq<u8>, pos: int)
    requires
        0 <= pos,
        layer_at(data, pos) is Ok,
    ensures
        layer_at(data + extra, pos) == layer_at(data, pos),
{
    let whole = data + extra;
    let bits = data[pos] / 2;
    let count = word_count(bits as int);
    assert(whole[pos] == data[pos]);
    if bits > 0 {
        assert(0 <= count) by (nonlinear_arith)
            requires
                1 <= bits <= 16,
                count == (4096 + 32int / bits as int - 1) / (32int / bits as int),
        ;
    }
    let sizes = pos + 1 + 4 * count;
    assert(bytes::le32(whole, sizes) == bytes::le32(data, sizes));
    assert(words_at(whole, pos + 1, count) =~= words_at(data, pos + 1, count));
    let rest = data.skip(sizes + 4);
    assert(whole.skip(sizes + 4) =~= rest + extra);
    palette_followed(rest, extra, 0, bytes::le32(data, sizes), Seq::empty());
}

/// Only the first storage layer of a subchunk is read: where data gives a layer, it gives the
/// same layer whatever follows
pub proof fn layer_ends_subchunk(data: Seq<u8>, extra: Seq<u8>)
    requires
        block_layer(data) matches Ok(Some(_)),
    ensures
        block_layer(data + extra) == block_layer(data),
{
    let whole = data + extra;
    let header: int = if data[0] == 1 {
        1
    } else if data[0] == 8 {
        2
    } else {
        3
    };
    assert(whole[0] == data[0]);
    if data[0] != 1 {
        assert(whole[1] == data[1]);
    }
    layer_followed(data, extra, header);
}

/// The words of a layer are just as many as hold the indices of all blocks
pub proof fn words_suffice(bits: int)
    requires
        1 <= bits <= 16,
    ensures
        word_count(0) == 0,
        word_count(bits) * (32int / bits) >= 4096,
        (word_count(bits) - 1) * (32int / bits) < 4096,
{
    let per_word = 32int / bits;
    let count = word_count(bits);
    assert(2 <= per_word <= 32) by (nonlinear_arith)
        requires
            1 <= bits <= 16,
            per_word == 32int / bits,
    ;
    assert(count * per_word >= 4096 && (count - 1) * per_word < 4096) by (nonlinear_arith)
        requires
            count == (4096 + per_word - 1) / per_word,
            2 <= per_word <= 32,
    ;
}

/// Layers with a runtime palette, with too many bits per block, or with too few words are
/// refused
pub proof fn layers_refused(data: Seq<u8>, pos: int)
    requires
        0 <= pos,
    ensures
        pos >= data.len() ==> layer_at(data, pos) == Err::<(Layer, int), SubChunkError>(
            SubChunkError::UnexpectedEnd,
        ),
        pos < data.len() && data[pos] % 2 == 1 ==> layer_at(data, pos) == Err::<
            (Layer, int),
            SubChunkError,
        >(SubChunkError::RuntimePalette),
        pos < data.len() && data[pos] % 2 == 0 && data[pos] >= 34 ==> layer_at(data, pos) == Err::<
            (Layer, int),
            SubChunkError,
        >(SubChunkError::InvalidBitWidth((data[pos] / 2) as u8)),
        pos < data.len() && data[pos] % 2 == 0 && data[pos] <= 32 && pos + 1 + 4 * word_count(
            (data[pos] / 2) as int,
        ) + 4 > data.len() ==> layer_at(data, pos) == Err::<(Layer, int), SubChunkError>(
            SubChunkError::UnexpectedEnd,
        ),
{
}

/// A palette entry without a name is refused, as is a palette that ends too early
pub proof fn palettes_refused(data: Seq<u8>, pos: int, count: int, done: Seq<Seq<char>>)
    requires
        count > 0,
    ensures
        nbt::root_at(data, pos) matches Ok((None, _)) ==> palette_at(data, pos, count, done)
            == Err::<(Seq<Seq<char>>, int), SubChunkError>(SubChunkError::TruncatedPalette),
        nbt::root_at(data, pos) matches Err((e, _)) ==> palette_at(data, pos, count, done) == Err::<
            (Seq<Seq<char>>, int),
            SubChunkError,
        >(SubChunkError::Nbt(e)),
        nbt::root_at(data, pos) matches Ok((Some(value), _)) ==> (value.entry("name"@) !is Some
            || value.entry("name"@)->0 !is Text) ==> palette_at(data, pos, count, done) == Err::<
            (Seq<Seq<char>>, int),
            SubChunkError,
        >(SubChunkError::MissingName),
{
}

/// A subchunk begins with its version; the newer versions have a number of layers, which may
/// be none
pub proof fn subchunk_versions(data: Seq<u8>)
    ensures
        data.len() == 0 ==> block_layer(data) == Ok::<Option<Layer>, SubChunkError>(None),
        data.len() > 0 && data[0] != 1 && data[0] != 8 && data[0] != 9 ==> block_layer(data)
            == Err::<Option<Layer>, SubChunkError>(SubChunkError::UnsupportedVersion(data[0])),
        data.len() == 1 && (data[0] == 8 || data[0] == 9) ==> block_layer(data) == Err::<
            Option<Layer>,
            SubChunkError,
        >(SubChunkError::UnexpectedEnd),
        data.len() == 2 && data[0] == 9 ==> block_layer(data) == Err::<
            Option<Layer>,
            SubChunkError,
        >(SubChunkError::UnexpectedEnd),
        data.len() >= 2 && data[0] == 8 && data[1] == 0 ==> block_layer(data) == Ok::<
            Option<Layer>,
            SubChunkError,
        >(None),
        data.len() >= 3 && data[0] == 9 && data[1] == 0 ==> block_layer(data) == Ok::<
            Option<Layer>,
            SubChunkError,
        >(None),
{
}

} // verus!
