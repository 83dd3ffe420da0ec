//! Descriptions of LevelDB keys
//!
//! Chunk keys are shown as their dimension, chunk coordinates and record type;
//! printable string keys are shown as text; everything else is shown as hex.

use crate::bedrock::nbt;
use crate::bytes;
use crate::text;
use vstd::prelude::*;
use vstd::string::*;

verus! {

/// The name of a known chunk record tag byte
pub open spec fn tag_name(tag: u8) -> Option<Seq<char>> {
    if tag == 0x2b {
        Some("Data3D"@)
    } else if tag == 0x2d {
        Some("Data2D"@)
    } else if tag == 0x2f {
        Some("SubChunk"@)
    } else if tag == 0x31 {
        Some("BlockEntity"@)
    } else if tag == 0x32 {
        Some("Entity"@)
    } else if tag == 0x33 {
        Some("PendingTicks"@)
    } else if tag == 0x35 {
        Some("BiomeState"@)
    } else if tag == 0x36 {
        Some("FinalizedState"@)
    } else if tag == 0x38 {
        Some("BorderBlocks"@)
    } else if tag == 0x39 {
        Some("HardcodedSpawners"@)
    } else if tag == 0x3a {
        Some("RandomTicks"@)
    } else if tag == 0x3b {
        Some("Checksums"@)
    } else if tag == 0x76 {
        Some("LegacyVersion"@)
    } else if tag == 0x78 {
        Some("Version"@)
    } else {
        None
    }
}

/// Returns a name for a known Bedrock chunk record tag byte
pub fn chunk_tag_name(tag: u8) -> (r: Option<&'static str>)
    ensures
        match tag_name(tag) {
            Some(name) => r matches Some(n) && n@ == name,
            None => r is None,
        },
{
    if tag == 0x2b {
        Some("Data3D")
    } else if tag == 0x2d {
        Some("Data2D")
    } else if tag == 0x2f {
        Some("SubChunk")
    } else if tag == 0x31 {
        Some("BlockEntity")
    } else if tag == 0x32 {
        Some("Entity")
    } else if tag == 0x33 {
        Some("PendingTicks")
    } else if tag == 0x35 {
        Some("BiomeState")
    } else if tag == 0x36 {
        Some("FinalizedState")
    } else if tag == 0x38 {
        Some("BorderBlocks")
    } else if tag == 0x39 {
        Some("HardcodedSpawners")
    } else if tag == 0x3a {
        Some("RandomTicks")
    } else if tag == 0x3b {
        Some("Checksums")
    } else if tag == 0x76 {
        Some("LegacyVersion")
    } else if tag == 0x78 {
        Some("Version")
    } else {
        None
    }
}

/// The name of a dimension, given by its number
pub open spec fn dimension_of(index: i32) -> Seq<char> {
    if index == 1 {
        "nether"@
    } else if index == 2 {
        "end"@
    } else {
        "overworld"@
    }
}

/// Maps a Bedrock dimension index to a name
pub fn dimension_name(index: i32) -> (r: &'static str)
    ensures
        r@ == dimension_of(index),
{
    if index == 1 {
        "nether"
    } else if index == 2 {
        "end"
    } else {
        "overworld"
    }
}

/// The signed 32-bit number at a position of a key
pub open spec fn number_at(key: Seq<u8>, at: int) -> i32 {
    bytes::signed32(bytes::le32(key, at))
}

/// Reads a little-endian `i32` at a position of a key
fn read_i32(key: &[u8], at: usize) -> (r: i32)
    requires
        at + 4 <= key.len(),
    ensures
        r == number_at(key@, at as int),
{
    bytes::as_signed32(bytes::u32_at(key, at))
}

/// What a key says, if it is a chunk key
///
/// A chunk key has the chunk coordinates, the dimension unless it is the overworld, a tag
/// byte, and the Y index if the tag is that of a subchunk.
pub open spec fn chunk_description(key: Seq<u8>) -> Option<Seq<char>> {
    let with_dimension = key.len() == 13 || key.len() == 14;
    let tag_at: int = if with_dimension {
        12
    } else {
        8
    };
    if key.len() != 9 && key.len() != 10 && !with_dimension {
        None
    } else {
        let dimension = if with_dimension {
            dimension_of(number_at(key, 8))
        } else {
            "overworld"@
        };
        match tag_name(key[tag_at]) {
            None => None,
            Some(name) => {
                let chunk = dimension + " chunk ("@ + text::decimal(number_at(key, 0) as int)
                    + ", "@ + text::decimal(number_at(key, 4) as int) + ") "@ + name;
                if key[tag_at] == 0x2f && key.len() == tag_at + 2 {
                    Some(
                        chunk + " y="@ + text::decimal(bytes::signed8(key[tag_at + 1] as int) as int),
                    )
                } else if key.len() == tag_at + 1 {
                    Some(chunk)
                } else {
                    None
                }
            },
        }
    }
}

/// Describes a chunk key as `<dimension> chunk (cx, cz) <tag>`, if it is one
pub fn describe_chunk_key(key: &[u8]) -> (r: Option<String>)
    ensures
        match chunk_description(key@) {
            Some(d) => r matches Some(s) && s@ == d,
            None => r is None,
        },
{
    let len: usize = key.len();
    let tag_at: usize = if len == 9 || len == 10 {
        8
    } else if len == 13 || len == 14 {
        12
    } else {
        return None;
    };
    let dimension: &str = if tag_at == 12 {
        dimension_name(read_i32(key, 8))
    } else {
        "overworld"
    };
    let tag: u8 = key[tag_at];
    let name = match chunk_tag_name(tag) {
        Some(name) => name,
        None => return None,
    };
    let mut out: String = dimension.to_owned();
    out.append(" chunk (");
    text::push_decimal(&mut out, read_i32(key, 0));
    out.append(", ");
    text::push_decimal(&mut out, read_i32(key, 4));
    out.append(") ");
    out.append(name);
    if tag == 0x2f && len == tag_at + 2 {
        out.append(" y=");
        text::push_decimal(&mut out, bytes::as_signed8(key[tag_at + 1]) as i32);
        Some(out)
    } else if len == tag_at + 1 {
        Some(out)
    } else {
        None
    }
}

/// All bytes of a key are printable ASCII characters
pub open spec fn printable(key: Seq<u8>) -> bool {
    key.len() > 0 && forall|i: int| 0 <= i < key.len() ==> 0x20 <= #[trigger] key[i] <= 0x7e
}

/// Returns the key as text if it is entirely printable ASCII
pub fn printable_key(key: &[u8]) -> (r: Option<String>)
    ensures
        r is Some <==> printable(key@),
        r matches Some(s) ==> s@ == nbt::text_of(key@),
{
    if key.len() == 0 {
        return None;
    }
    let mut i: usize = 0;
    while i < key.len()
        invariant
            i <= key.len(),
            forall|j: int| 0 <= j < i ==> 0x20 <= #[trigger] key@[j] <= 0x7e,
        decreases key.len() - i,
    {
        if key[i] < 0x20 || key[i] > 0x7e {
            assert(!(0x20 <= key@[i as int] <= 0x7e));
            return None;
        }
        i = i + 1;
    }
    Some(nbt::text_lossy(key))
}

/// A hexadecimal digit
pub open spec fn hex_digit(n: int) -> char {
    if n < 10 {
        (48 + n) as char
    } else {
        (87 + n) as char
    }
}

/// The bytes of a key in hexadecimal form
pub open spec fn hex(key: Seq<u8>) -> Seq<char>
    decreases key.len(),
{
    if key.len() == 0 {
        Seq::empty()
    } else {
        hex(key.drop_last()).push(hex_digit(key.last() as int / 16)).push(
            hex_digit(key.last() as int % 16),
        )
    }
}

/// Returns a hexadecimal digit
fn hex_str(n: u8) -> (r: &'static str)
    requires
        n < 16,
    ensures
        r@ == seq![hex_digit(n as int)],
{
    proof {
        reveal_strlit("0");
        reveal_strlit("1");
        reveal_strlit("2");
        reveal_strlit("3");
        reveal_strlit("4");
        reveal_strlit("5");
        reveal_strlit("6");
        reveal_strlit("7");
        reveal_strlit("8");
        reveal_strlit("9");
        reveal_strlit("a");
        reveal_strlit("b");
        reveal_strlit("c");
        reveal_strlit("d");
        reveal_strlit("e");
        reveal_strlit("f");
    }
    let r: &str = if n == 0 {
        "0"
    } else if n == 1 {
        "1"
    } else if n == 2 {
        "2"
    } else if n == 3 {
        "3"
    } else if n == 4 {
        "4"
    } else if n == 5 {
        "5"
    } else if n == 6 {
        "6"
    } else if n == 7 {
        "7"
    } else if n == 8 {
        "8"
    } else if n == 9 {
        "9"
    } else if n == 10 {
        "a"
    } else if n == 11 {
        "b"
    } else if n == 12 {
        "c"
    } else if n == 13 {
        "d"
    } else if n == 14 {
        "e"
    } else {
        "f"
    };
    assert(r@ =~= seq![hex_digit(n as int)]);
    r
}

/// Formats a key as a hex string
pub fn hex_key(key: &[u8]) -> (r: String)
    ensures
        r@ == hex(key@),
{
    let mut out = String::new();
    let mut i: usize = 0;
    assert(key@.take(0) =~= Seq::<u8>::empty());
    assert(out@ =~= hex(key@.take(0)));
    while i < key.len()
        invariant
            i <= key.len(),
            out@ == hex(key@.take(i as int)),
        decreases key.len() - i,
    {
        assert(key@.take(i + 1).drop_last() =~= key@.take(i as int));
        let ghost before = out@;
        out.append(hex_str(key[i] / 16));
        out.append(hex_str(key[i] % 16));
        assert(out@ =~= before.push(hex_digit(key@[i as int] as int / 16)).push(
            hex_digit(key@[i as int] as int % 16),
        ));
        i = i + 1;
    }
    assert(key@.take(i as int) =~= key@);
    out
}

/// A human-readable description of a key
pub open spec fn description(key: Seq<u8>) -> Seq<char> {
    if printable(key) {
        "\""@ + nbt::text_of(key) + "\""@
    } else {
        match chunk_description(key) {
            Some(d) => d,
            None => "0x"@ + hex(key),
        }
    }
}

/// Builds a human-readable description of a key
pub fn describe_key(key: &[u8]) -> (r: String)
    ensures
        r@ == description(key@),
{
    if let Some(text) = printable_key(key) {
        let mut out: String = "\"".to_owned();
        out.append(text.as_str());
        out.append("\"");
        return out;
    }
    match describe_chunk_key(key) {
        Some(description) => description,
        None => {
            let mut out: String = "0x".to_owned();
            out.append(hex_key(key).as_str());
            out
        },
    }
}

/// The tags of chunk records and their names
pub open spec fn record_tags() -> Seq<(u8, Seq<char>)> {
    seq![
        (0x2bu8, "Data3D"@),
        (0x2du8, "Data2D"@),
        (0x2fu8, "SubChunk"@),
        (0x31u8, "BlockEntity"@),
        (0x32u8, "Entity"@),
        (0x33u8, "PendingTicks"@),
        (0x35u8, "BiomeState"@),
        (0x36u8, "FinalizedState"@),
        (0x38u8, "BorderBlocks"@),
        (0x39u8, "HardcodedSpawners"@),
        (0x3au8, "RandomTicks"@),
        (0x3bu8, "Checksums"@),
        (0x76u8, "LegacyVersion"@),
        (0x78u8, "Version"@),
    ]
}

/// Each tag has its name, and no other tag has one
#[verifier::spinoff_prover]
pub proof fn tags_named(tag: u8, i: int)
    ensures
        0 <= i < record_tags().len() ==> tag_name(record_tags()[i].0) == Some(record_tags()[i].1),
        (forall|j: int| 0 <= j < record_tags().len() ==> tag != (#[trigger] record_tags()[j]).0)
            ==> tag_name(tag) is None,
{
    let all = record_tags();
    assert(all[0].0 == 0x2b);
    assert(all[1].0 == 0x2d);
    assert(all[2].0 == 0x2f);
    assert(all[3].0 == 0x31);
    assert(all[4].0 == 0x32);
    assert(all[5].0 == 0x33);
    assert(all[6].0 == 0x35);
    assert(all[7].0 == 0x36);
    assert(all[8].0 == 0x38);
    assert(all[9].0 == 0x39);
    assert(all[10].0 == 0x3a);
    assert(all[11].0 == 0x3b);
    assert(all[12].0 == 0x76);
    assert(all[13].0 == 0x78);
}

/// The description of a chunk record
pub open spec fn chunk_text(dimension: Seq<char>, x: int, z: int, name: Seq<char>) -> Seq<char> {
    dimension + " chunk ("@ + text::decimal(x) + ", "@ + text::decimal(z) + ") "@ + name
}

/// A chunk key holds the coordinates of a chunk, its dimension unless that is the overworld,
/// and the tag of a record
#[verifier::spinoff_prover]
pub proof fn chunk_key_described(x: i32, z: i32, dimension: i32, tag: u8, name: Seq<char>)
    requires
        tag_name(tag) == Some(name),
    ensures
        ({
            let chunk = bytes::le32_bytes(bytes::unsigned32(x)) + bytes::le32_bytes(
                bytes::unsigned32(z),
            );
            let there = chunk + bytes::le32_bytes(bytes::unsigned32(dimension));
            &&& chunk_description(chunk.push(tag)) == Some(
                chunk_text("overworld"@, x as int, z as int, name),
            )
            &&& dimension == 0 ==> chunk_description(there.push(tag)) == Some(
                chunk_text("overworld"@, x as int, z as int, name),
            )
            &&& dimension == 1 ==> chunk_description(there.push(tag)) == Some(
                chunk_text("nether"@, x as int, z as int, name),
            )
            &&& dimension == 2 ==> chunk_description(there.push(tag)) == Some(
                chunk_text("end"@, x as int, z as int, name),
            )
        }),
{
    let chunk = bytes::le32_bytes(bytes::unsigned32(x)) + bytes::le32_bytes(bytes::unsigned32(z));
    let there = chunk + bytes::le32_bytes(bytes::unsigned32(dimension));
    chunk_numbers(x, z, dimension, chunk.push(tag));
    chunk_numbers(x, z, dimension, there.push(tag));
    assert(chunk.len() == 8 && there.len() == 12);
    assert(chunk.push(tag)[8] == tag && there.push(tag)[12] == tag);
}

proof fn chunk_numbers(x: i32, z: i32, dimension: i32, key: Seq<u8>)
    ensures
        ({
            let chunk = bytes::le32_bytes(bytes::unsigned32(x)) + bytes::le32_bytes(
                bytes::unsigned32(z),
            );
            let there = chunk + bytes::le32_bytes(bytes::unsigned32(dimension));
            &&& key.len() >= 8 && key.take(8) == chunk ==> number_at(key, 0) == x && number_at(
                key,
                4,
            ) == z
            &&& key.len() >= 12 && key.take(12) == there ==> number_at(key, 0) == x && number_at(
                key,
                4,
            ) == z && number_at(key, 8) == dimension
            &&& key.len() > 8 && key.drop_last() == chunk ==> key.take(8) == chunk
            &&& key.len() > 12 && key.drop_last() == there ==> key.take(12) == there
        }),
{
    let a = bytes::le32_bytes(bytes::unsigned32(x));
    let b = bytes::le32_bytes(bytes::unsigned32(z));
    let c = bytes::le32_bytes(bytes::unsigned32(dimension));
    let chunk = a + b;
    let there = chunk + c;
    assert(a.len() == 4 && b.len() == 4 && c.len() == 4);
    bytes::signs_kept(0, x, 0, 0);
    bytes::signs_kept(0, z, 0, 0);
    bytes::signs_kept(0, dimension, 0, 0);
    if key.len() >= 8 && key.take(8) == chunk {
        assert(key.subrange(0, 4) =~= a) by {
            assert(key.subrange(0, 4) =~= key.take(8).subrange(0, 4));
        }
        assert(key.subrange(4, 8) =~= b) by {
            assert(key.subrange(4, 8) =~= key.take(8).subrange(4, 8));
        }
        bytes::le32_roundtrip(bytes::unsigned32(x), key, 0);
        bytes::le32_roundtrip(bytes::unsigned32(z), key, 4);
    }
    if key.len() >= 12 && key.take(12) == there {
        assert(key.subrange(0, 4) =~= a) by {
            assert(key.subrange(0, 4) =~= key.take(12).subrange(0, 4));
        }
        assert(key.subrange(4, 8) =~= b) by {
            assert(key.subrange(4, 8) =~= key.take(12).subrange(4, 8));
        }
        assert(key.subrange(8, 12) =~= c) by {
            assert(key.subrange(8, 12) =~= key.take(12).subrange(8, 12));
        }
        bytes::le32_roundtrip(bytes::unsigned32(x), key, 0);
        bytes::le32_roundtrip(bytes::unsigned32(z), key, 4);
        bytes::le32_roundtrip(bytes::unsigned32(dimension), key, 8);
    }
    if key.len() > 8 && key.drop_last() == chunk {
        assert(key.take(8) =~= chunk);
    }
    if key.len() > 12 && key.drop_last() == there {
        assert(key.take(12) =~= there);
    }
}

/// The key of a subchunk ends with its Y index; the keys of other records do not have one
#[verifier::spinoff_prover]
pub proof fn subchunk_key_described(chunk: Seq<u8>, tag: u8, y: i8, last: u8)
    requires
        chunk.len() == 8 || chunk.len() == 12,
        last == (if y < 0 {
            y + 256
        } else {
            y as int
        }),
    ensures
        ({
            let key = chunk.push(tag);
            &&& tag == 0x2f ==> chunk_description(key.push(last)) == Some(
                chunk_description(key)->0 + " y="@ + text::decimal(y as int),
            )
            &&& tag == 0x2f ==> chunk_description(key) is Some
            &&& tag != 0x2f ==> chunk_description(key.push(last)) is None
            &&& tag_name(tag) is None ==> chunk_description(key) is None
        }),
{
    let key = chunk.push(tag);
    let longer = key.push(last);
    bytes::signs_kept(0, 0, 0, y);
    assert(key[chunk.len() as int] == tag && longer[chunk.len() as int] == tag);
    assert(longer[chunk.len() as int + 1] == last);
    assert(number_at(longer, 0) == number_at(key, 0));
    assert(number_at(longer, 4) == number_at(key, 4));
    if chunk.len() == 12 {
        assert(number_at(longer, 8) == number_at(key, 8));
    }
}

/// Keys of other lengths are no chunk keys
pub proof fn other_keys(key: Seq<u8>)
    requires
        key.len() != 9,
        key.len() != 10,
        key.len() != 13,
        key.len() != 14,
    ensures
        chunk_description(key) is None,
{
}

/// In hexadecimal form each byte has two digits, the greater one first
pub proof fn hex_digits(a: Seq<u8>, b: Seq<u8>, byte: u8)
    ensures
        hex(a + b) == hex(a) + hex(b),
        hex(Seq::empty()) == Seq::<char>::empty(),
        hex(seq![byte]) == seq![
            "0123456789abcdef"@[byte as int / 16],
            "0123456789abcdef"@[byte as int % 16],
        ],
    decreases b.len(),
{
    if b.len() == 0 {
        assert(a + b =~= a);
        assert(hex(a) + hex(b) =~= hex(a));
    } else {
        hex_digits(a, b.drop_last(), byte);
        assert((a + b).drop_last() =~= a + b.drop_last());
        assert(hex(a + b) =~= hex(a) + hex(b));
    }
    reveal_with_fuel(hex, 2);
    assert(seq![byte].drop_last() =~= Seq::<u8>::empty());
    hex_digit_listed(byte as int / 16);
    hex_digit_listed(byte as int % 16);
    assert(hex(seq![byte]) =~= seq![
        "0123456789abcdef"@[byte as int / 16],
        "0123456789abcdef"@[byte as int % 16],
    ]);
}

proof fn hex_digit_listed(n: int)
    requires
        0 <= n < 16,
    ensures
        hex_digit(n) == "0123456789abcdef"@[n],
{
    reveal_strlit("0123456789abcdef");
    let all = "0123456789abcdef"@;
    assert(all[0] == '0' && all[1] == '1' && all[2] == '2' && all[3] == '3' && all[4] == '4');
    assert(all[5] == '5' && all[6] == '6' && all[7] == '7' && all[8] == '8' && all[9] == '9');
    assert(all[10] == 'a' && all[11] == 'b' && all[12] == 'c' && all[13] == 'd');
    assert(all[14] == 'e' && all[15] == 'f');
}

/// Keys of printable characters are shown as quoted text, chunk keys as what they say, and all
/// others in hexadecimal form
pub proof fn keys_described(key: Seq<u8>, i: int)
    ensures
        key.len() == 0 ==> !printable(key),
        0 <= i < key.len() && (key[i] < 32 || key[i] > 126) ==> !printable(key),
        key.len() > 0 && (forall|j: int| 0 <= j < key.len() ==> 32 <= #[trigger] key[j] <= 126)
            ==> description(key) == seq!['"'] + nbt::text_of(key) + seq!['"'],
        !printable(key) && chunk_description(key) is Some ==> description(key)
            == chunk_description(key)->0,
        !printable(key) && chunk_description(key) is None ==> description(key) == seq!['0', 'x']
            + hex(key),
{
    reveal_strlit("\"");
    reveal_strlit("0x");
    assert("\""@ =~= seq!['"']);
    assert("0x"@ =~= seq!['0', 'x']);
}

} // verus!
