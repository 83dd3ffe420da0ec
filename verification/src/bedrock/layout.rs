//! The byte layout of NBT values, and that reading undoes it
//!
//! The layout is stated for values that it can hold: strings of less than
//! 2^16 bytes, and lists and arrays of less than 2^31 elements, the elements of
//! one list being of one type.

use crate::bedrock::nbt;
use crate::bedrock::nbt::Nbt;
use crate::bytes;
use vstd::prelude::*;

verus! {

/// The type tag of a value
pub open spec fn tag_of(v: Nbt) -> u8 {
    match v {
        Nbt::Byte(_) => 1,
        Nbt::Short(_) => 2,
        Nbt::Int(_) => 3,
        Nbt::Long(_) => 4,
        Nbt::Float(_) => 5,
        Nbt::Double(_) => 6,
        Nbt::ByteArray(_) => 7,
        Nbt::Text(_) => 8,
        Nbt::List(_) => 9,
        Nbt::Compound(_) => 10,
        Nbt::IntArray(_) => 11,
        Nbt::LongArray(_) => 12,
    }
}

/// The element tag of a list: that of its elements, or End for an empty list
pub open spec fn element_tag(l: Seq<Nbt>) -> u8 {
    if l.len() == 0 {
        0
    } else {
        tag_of(l[0])
    }
}

/// A string that the layout can hold
pub open spec fn storable_text(s: Seq<char>) -> bool {
    vstd::utf8::encode_utf8(s).len() < 0x1_0000
}

/// A value that the layout can hold
pub open spec fn storable(v: Nbt) -> bool
    decreases v,
{
    match v {
        Nbt::ByteArray(b) => b.len() < 0x8000_0000,
        Nbt::Text(s) => storable_text(s),
        Nbt::List(l) => {
            &&& l.len() < 0x8000_0000
            &&& storable_elements(l, element_tag(l))
        },
        Nbt::Compound(c) => storable_entries(c),
        Nbt::IntArray(a) => a.len() < 0x8000_0000,
        Nbt::LongArray(a) => a.len() < 0x8000_0000,
        _ => true,
    }
}

/// List elements of type `tag` that the layout can hold
pub open spec fn storable_elements(l: Seq<Nbt>, tag: u8) -> bool
    decreases l,
{
    l.len() == 0 || {
        &&& tag_of(l[0]) == tag
        &&& storable(l[0])
        &&& storable_elements(l.skip(1), tag)
    }
}

/// Compound entries that the layout can hold
pub open spec fn storable_entries(c: Seq<(Seq<char>, Nbt)>) -> bool
    decreases c,
{
    c.len() == 0 || {
        &&& storable_text(c[0].0)
        &&& storable(c[0].1)
        &&& storable_entries(c.skip(1))
    }
}

/// The bytes of a string
pub open spec fn text_bytes(s: Seq<char>) -> Seq<u8> {
    bytes::le16_bytes(vstd::utf8::encode_utf8(s).len() as int) + vstd::utf8::encode_utf8(s)
}

/// The bytes of an int array's elements
pub open spec fn int_bytes(a: Seq<i32>) -> Seq<u8>
    decreases a.len(),
{
    if a.len() == 0 {
        Seq::empty()
    } else {
        int_bytes(a.drop_last()) + bytes::le32_bytes(bytes::unsigned32(a.last()))
    }
}

/// The bytes of a long array's elements
pub open spec fn long_bytes(a: Seq<i64>) -> Seq<u8>
    decreases a.len(),
{
    if a.len() == 0 {
        Seq::empty()
    } else {
        long_bytes(a.drop_last()) + bytes::le64_bytes(bytes::unsigned64(a.last()))
    }
}

/// The bytes of a value, without its tag
pub open spec fn value_bytes(v: Nbt) -> Seq<u8>
    decreases v,
{
    match v {
        Nbt::Byte(n) => seq![(if n < 0 { n + 0x100 } else { n as int }) as u8],
        Nbt::Short(n) => bytes::le16_bytes(bytes::unsigned16(n)),
        Nbt::Int(n) => bytes::le32_bytes(bytes::unsigned32(n)),
        Nbt::Long(n) => bytes::le64_bytes(bytes::unsigned64(n)),
        Nbt::Float(n) => bytes::le32_bytes(n as int),
        Nbt::Double(n) => bytes::le64_bytes(n as int),
        Nbt::ByteArray(b) => bytes::le32_bytes(b.len() as int) + b,
        Nbt::Text(s) => text_bytes(s),
        Nbt::List(l) => seq![element_tag(l)] + bytes::le32_bytes(l.len() as int) + element_bytes(l),
        Nbt::Compound(c) => entry_bytes(c),
        Nbt::IntArray(a) => bytes::le32_bytes(a.len() as int) + int_bytes(a),
        Nbt::LongArray(a) => bytes::le32_bytes(a.len() as int) + long_bytes(a),
    }
}

/// The bytes of list elements
pub open spec fn element_bytes(l: Seq<Nbt>) -> Seq<u8>
    decreases l,
{
    if l.len() == 0 {
        Seq::empty()
    } else {
        value_bytes(l[0]) + element_bytes(l.skip(1))
    }
}

/// The bytes of compound entries, with the end tag
pub open spec fn entry_bytes(c: Seq<(Seq<char>, Nbt)>) -> Seq<u8>
    decreases c,
{
    if c.len() == 0 {
        seq![0u8]
    } else {
        seq![tag_of(c[0].1)] + text_bytes(c[0].0) + value_bytes(c[0].1) + entry_bytes(c.skip(1))
    }
}

/// The bytes of named root values, written back to back
pub open spec fn root_bytes(roots: Seq<(Seq<char>, Nbt)>) -> Seq<u8>
    decreases roots.len(),
{
    if roots.len() == 0 {
        Seq::empty()
    } else {
        seq![tag_of(roots[0].1)] + text_bytes(roots[0].0) + value_bytes(roots[0].1) + root_bytes(
            roots.skip(1),
        )
    }
}

/// The bytes `b` stand in `data` at `pos`
pub open spec fn stands_at(b: Seq<u8>, data: Seq<u8>, pos: int) -> bool {
    &&& 0 <= pos
    &&& pos + b.len() <= data.len()
    &&& data.subrange(pos, pos + b.len()) == b
}

/// Where two byte sequences stand back to back, each of them stands
pub proof fn stands_split(a: Seq<u8>, b: Seq<u8>, data: Seq<u8>, pos: int)
    requires
        stands_at(a + b, data, pos),
    ensures
        stands_at(a, data, pos),
        stands_at(b, data, pos + a.len()),
{
    let whole = data.subrange(pos, pos + (a + b).len());
    assert(data.subrange(pos, pos + a.len()) =~= whole.subrange(0, a.len() as int));
    assert(whole.subrange(0, a.len() as int) =~= a);
    assert(data.subrange(pos + a.len(), pos + a.len() + b.len()) =~= whole.subrange(
        a.len() as int,
        (a + b).len() as int,
    ));
    assert(whole.subrange(a.len() as int, (a + b).len() as int) =~= b);
}

/// Reading a string where its bytes stand gives it back
pub proof fn text_read_back(s: Seq<char>, data: Seq<u8>, pos: int)
    requires
        storable_text(s),
        stands_at(text_bytes(s), data, pos),
    ensures
        nbt::text_at(data, pos) == Ok::<(Seq<char>, int), (nbt::NbtError, int)>(
            (s, pos + text_bytes(s).len()),
        ),
{
    let enc = vstd::utf8::encode_utf8(s);
    stands_split(bytes::le16_bytes(enc.len() as int), enc, data, pos);
    bytes::le16_roundtrip(enc.len() as int, data, pos);
    vstd::utf8::encode_utf8_decode_utf8(s);
    vstd::utf8::encode_utf8_valid_utf8(s);
}

proof fn ints_read_back(a: Seq<i32>, data: Seq<u8>, pos: int)
    requires
        stands_at(int_bytes(a), data, pos),
    ensures
        int_bytes(a).len() == 4 * a.len(),
        nbt::ints_at(data, pos, a.len() as int) == a,
    decreases a.len(),
{
    if a.len() > 0 {
        let last = bytes::le32_bytes(bytes::unsigned32(a.last()));
        stands_split(int_bytes(a.drop_last()), last, data, pos);
        ints_read_back(a.drop_last(), data, pos);
        bytes::le32_roundtrip(
            bytes::unsigned32(a.last()),
            data,
            pos + int_bytes(a.drop_last()).len(),
        );
        let shorter = nbt::ints_at(data, pos, a.len() - 1);
        assert forall|i: int| 0 <= i < a.len() implies nbt::ints_at(
            data,
            pos,
            a.len() as int,
        )[i] == a[i] by {
            if i < a.len() - 1 {
                assert(shorter[i] == a.drop_last()[i]);
            }
        }
    }
    assert(nbt::ints_at(data, pos, a.len() as int) =~= a);
}

proof fn longs_read_back(a: Seq<i64>, data: Seq<u8>, pos: int)
    requires
        stands_at(long_bytes(a), data, pos),
    ensures
        long_bytes(a).len() == 8 * a.len(),
        nbt::longs_at(data, pos, a.len() as int) == a,
    decreases a.len(),
{
    if a.len() > 0 {
        let last = bytes::le64_bytes(bytes::unsigned64(a.last()));
        stands_split(long_bytes(a.drop_last()), last, data, pos);
        longs_read_back(a.drop_last(), data, pos);
        bytes::le64_roundtrip(
            bytes::unsigned64(a.last()),
            data,
            pos + long_bytes(a.drop_last()).len(),
        );
        let shorter = nbt::longs_at(data, pos, a.len() - 1);
        assert forall|i: int| 0 <= i < a.len() implies nbt::longs_at(
            data,
            pos,
            a.len() as int,
        )[i] == a[i] by {
            if i < a.len() - 1 {
                assert(shorter[i] == a.drop_last()[i]);
            }
        }
    }
    assert(nbt::longs_at(data, pos, a.len() as int) =~= a);
}

#[verifier::spinoff_prover]
proof fn plain_read_back(v: Nbt, data: Seq<u8>, pos: int)
    requires
        !(v is List) && !(v is Compound),
        storable(v),
        stands_at(value_bytes(v), data, pos),
    ensures
        nbt::payload_at(data, pos, tag_of(v)) == Ok::<(Nbt, int), (nbt::NbtError, int)>(
            (v, pos + value_bytes(v).len()),
        ),
{
    let enc = value_bytes(v);
    match v {
        Nbt::Byte(n) => {
            let t = data.subrange(pos, pos + 1);
            assert(t[0] == data[pos]);
            assert(t[0] == enc[0]);
        },
        Nbt::Short(n) => {
            bytes::le16_roundtrip(bytes::unsigned16(n), data, pos);
        },
        Nbt::Int(n) => {
            bytes::le32_roundtrip(bytes::unsigned32(n), data, pos);
        },
        Nbt::Long(n) => {
            bytes::le64_roundtrip(bytes::unsigned64(n), data, pos);
        },
        Nbt::Float(n) => {
            bytes::le32_roundtrip(n as int, data, pos);
        },
        Nbt::Double(n) => {
            bytes::le64_roundtrip(n as int, data, pos);
        },
        Nbt::ByteArray(b) => {
            stands_split(bytes::le32_bytes(b.len() as int), b, data, pos);
            bytes::le32_roundtrip(b.len() as int, data, pos);
        },
        Nbt::Text(s) => {
            text_read_back(s, data, pos);
        },
        Nbt::IntArray(a) => {
            stands_split(bytes::le32_bytes(a.len() as int), int_bytes(a), data, pos);
            bytes::le32_roundtrip(a.len() as int, data, pos);
            ints_read_back(a, data, pos + 4);
        },
        Nbt::LongArray(a) => {
            stands_split(bytes::le32_bytes(a.len() as int), long_bytes(a), data, pos);
            bytes::le32_roundtrip(a.len() as int, data, pos);
            longs_read_back(a, data, pos + 4);
        },
        _ => {},
    }
}

/// Reading a value where its bytes stand gives it back, and ends behind them
#[verifier::spinoff_prover]
pub proof fn value_read_back(v: Nbt, data: Seq<u8>, pos: int)
    requires
        storable(v),
        stands_at(value_bytes(v), data, pos),
    ensures
        nbt::payload_at(data, pos, tag_of(v)) == Ok::<(Nbt, int), (nbt::NbtError, int)>(
            (v, pos + value_bytes(v).len()),
        ),
    decreases v,
{
    match v {
        Nbt::List(l) => {
            let head = seq![element_tag(l)];
            let len = bytes::le32_bytes(l.len() as int);
            stands_split(head + len, element_bytes(l), data, pos);
            stands_split(head, len, data, pos);
            let t = data.subrange(pos, pos + 1);
            assert(t[0] == data[pos]);
            assert(t[0] == head[0]);
            bytes::le32_roundtrip(l.len() as int, data, pos + 1);
            elements_read_back(l, element_tag(l), data, pos + 5, Seq::empty());
            assert(Seq::<Nbt>::empty() + l =~= l);
        },
        Nbt::Compound(c) => {
            entries_read_back(c, data, pos, Seq::empty());
            assert(Seq::<(Seq<char>, Nbt)>::empty() + c =~= c);
        },
        _ => {
            plain_read_back(v, data, pos);
        },
    }
}

#[verifier::spinoff_prover]
proof fn elements_read_back(l: Seq<Nbt>, tag: u8, data: Seq<u8>, pos: int, done: Seq<Nbt>)
    requires
        storable_elements(l, tag),
        stands_at(element_bytes(l), data, pos),
    ensures
        nbt::elements_at(data, pos, tag, l.len() as int, done) == Ok::<
            (Seq<Nbt>, int),
            (nbt::NbtError, int),
        >((done + l, pos + element_bytes(l).len())),
    decreases l,
{
    if l.len() == 0 {
        assert(done + l =~= done);
    } else {
        stands_split(value_bytes(l[0]), element_bytes(l.skip(1)), data, pos);
        value_read_back(l[0], data, pos);
        nbt::payload_advances(data, pos, tag);
        elements_read_back(
            l.skip(1),
            tag,
            data,
            pos + value_bytes(l[0]).len(),
            done.push(l[0]),
        );
        assert(done.push(l[0]) + l.skip(1) =~= done + l);
    }
}

#[verifier::spinoff_prover]
proof fn entries_read_back(
    c: Seq<(Seq<char>, Nbt)>,
    data: Seq<u8>,
    pos: int,
    done: Seq<(Seq<char>, Nbt)>,
)
    requires
        storable_entries(c),
        stands_at(entry_bytes(c), data, pos),
    ensures
        nbt::entries_at(data, pos, done) == Ok::<
            (Seq<(Seq<char>, Nbt)>, int),
            (nbt::NbtError, int),
        >((done + c, pos + entry_bytes(c).len())),
    decreases c,
{
    let t = data.subrange(pos, pos + entry_bytes(c).len());
    assert(t[0] == data[pos]);
    if c.len() == 0 {
        assert(done + c =~= done);
    } else {
        let head = seq![tag_of(c[0].1)];
        let name = text_bytes(c[0].0);
        let value = value_bytes(c[0].1);
        stands_split(head + name + value, entry_bytes(c.skip(1)), data, pos);
        stands_split(head + name, value, data, pos);
        stands_split(head, name, data, pos);
        text_read_back(c[0].0, data, pos + 1);
        let p = pos + 1 + name.len();
        value_read_back(c[0].1, data, p);
        nbt::payload_advances(data, p, tag_of(c[0].1));
        entries_read_back(c.skip(1), data, p + value.len(), done.push(c[0]));
        assert(done.push(c[0]) + c.skip(1) =~= done + c);
    }
}

/// The values of named root values
pub open spec fn root_values(roots: Seq<(Seq<char>, Nbt)>) -> Seq<Nbt> {
    roots.map_values(|r: (Seq<char>, Nbt)| r.1)
}

/// Reading a named root value where its bytes stand gives it back
#[verifier::spinoff_prover]
pub proof fn root_read_back(name: Seq<char>, v: Nbt, data: Seq<u8>, pos: int)
    requires
        storable_text(name),
        storable(v),
        stands_at(seq![tag_of(v)] + text_bytes(name) + value_bytes(v), data, pos),
    ensures
        nbt::root_at(data, pos) == Ok::<(Option<Nbt>, int), (nbt::NbtError, int)>(
            (Some(v), pos + (seq![tag_of(v)] + text_bytes(name) + value_bytes(v)).len()),
        ),
{
    let tag = seq![tag_of(v)];
    let head = tag + text_bytes(name);
    stands_split(head, value_bytes(v), data, pos);
    stands_split(tag, text_bytes(name), data, pos);
    assert(data.subrange(pos, pos + 1)[0] == data[pos]);
    text_read_back(name, data, pos + 1);
    value_read_back(v, data, pos + head.len());
}

proof fn roots_read_back_from(
    roots: Seq<(Seq<char>, Nbt)>,
    data: Seq<u8>,
    pos: int,
    done: Seq<Nbt>,
)
    requires
        storable_entries(roots),
        stands_at(root_bytes(roots), data, pos),
        pos + root_bytes(roots).len() == data.len(),
    ensures
        nbt::roots_at(data, pos, done) == Ok::<Seq<Nbt>, nbt::NbtError>(
            done + root_values(roots),
        ),
    decreases roots.len(),
{
    if roots.len() == 0 {
        assert(done + root_values(roots) =~= done);
    } else {
        let (name, v) = roots[0];
        let first = seq![tag_of(v)] + text_bytes(name) + value_bytes(v);
        stands_split(first, root_bytes(roots.skip(1)), data, pos);
        root_read_back(name, v, data, pos);
        nbt::root_advances(data, pos);
        roots_read_back_from(roots.skip(1), data, pos + first.len(), done.push(v));
        assert(done.push(roots[0].1) + root_values(roots.skip(1)) =~= done + root_values(roots));
    }
}

/// Reading named values written back to back gives all of them, in their order
pub proof fn roots_read_back(roots: Seq<(Seq<char>, Nbt)>)
    requires
        storable_entries(roots),
    ensures
        nbt::roots_at(root_bytes(roots), 0, Seq::empty()) == Ok::<Seq<Nbt>, nbt::NbtError>(
            root_values(roots),
        ),
{
    let data = root_bytes(roots);
    assert(data.subrange(0, data.len() as int) =~= data);
    roots_read_back_from(roots, data, 0, Seq::empty());
    assert(Seq::<Nbt>::empty() + root_values(roots) =~= root_values(roots));
}

/// Each kind of value has its tag
pub proof fn tags_numbered(
    n: i64,
    bits: u64,
    data: Seq<u8>,
    text: Seq<char>,
    list: Seq<Nbt>,
    entries: Seq<(Seq<char>, Nbt)>,
    ints: Seq<i32>,
    longs: Seq<i64>,
)
    ensures
        tag_of(Nbt::Byte(n as i8)) == 1,
        tag_of(Nbt::Short(n as i16)) == 2,
        tag_of(Nbt::Int(n as i32)) == 3,
        tag_of(Nbt::Long(n)) == 4,
        tag_of(Nbt::Float(bits as u32)) == 5,
        tag_of(Nbt::Double(bits)) == 6,
        tag_of(Nbt::ByteArray(data)) == 7,
        tag_of(Nbt::Text(text)) == 8,
        tag_of(Nbt::List(list)) == 9,
        tag_of(Nbt::Compound(entries)) == 10,
        tag_of(Nbt::IntArray(ints)) == 11,
        tag_of(Nbt::LongArray(longs)) == 12,
{
}

} // verus!
