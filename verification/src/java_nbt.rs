//! NBT data of Java Edition
//!
//! Java Edition stores NBT in big-endian byte order, most often compressed with gzip. The
//! entries of a compound have no order.

use crate::bedrock::nbt;
use crate::bedrock::nbt::{Nbt, Value};
use crate::compression;
use fastnbt::Value as FastValue;
use vstd::prelude::*;

verus! {

/// `fastnbt::Value`, an NBT value
#[verifier::external_type_specification]
#[verifier::external_body]
pub struct ExFastValue(FastValue);

/// `fastnbt::error::Error`
#[verifier::external_type_specification]
#[verifier::external_body]
pub struct ExFastError(fastnbt::error::Error);

/// What a Java Edition NBT value means
pub enum JavaNbt {
    Byte(i8),
    Short(i16),
    Int(i32),
    Long(i64),
    /// The bits of an IEEE 754 single
    Float(u32),
    /// The bits of an IEEE 754 double
    Double(u64),
    ByteArray(Seq<i8>),
    Text(Seq<char>),
    List(Seq<JavaNbt>),
    /// Entries by their names
    Compound(Map<Seq<char>, JavaNbt>),
    IntArray(Seq<i32>),
    LongArray(Seq<i64>),
}

/// What an NBT value holds
pub uninterp spec fn held(value: FastValue) -> JavaNbt;

/// The compound that uncompressed NBT data stand for, if they do
pub uninterp spec fn java_nbt(data: Seq<u8>) -> Option<JavaNbt>;

/// `fastnbt::from_bytes`: whether bytes are NBT data, and which value they stand for, depends
/// on the bytes alone
#[verifier::external_body]
fn from_bytes(data: &[u8]) -> (r: Result<FastValue, fastnbt::error::Error>)
    ensures
        r is Ok <==> java_nbt(data@) is Some,
        r matches Ok(value) ==> java_nbt(data@) == Some(held(value)),
{
    fastnbt::from_bytes(data)
}

/// The variants of `fastnbt::Value` that hold a number or a text
#[verifier::external_body]
fn scalar(value: &FastValue) -> (r: Option<Value>)
    ensures
        match held(*value) {
            JavaNbt::Byte(n) => r == Some(Value::Byte(n)),
            JavaNbt::Short(n) => r == Some(Value::Short(n)),
            JavaNbt::Int(n) => r == Some(Value::Int(n)),
            JavaNbt::Long(n) => r == Some(Value::Long(n)),
            JavaNbt::Float(bits) => r == Some(Value::Float(bits)),
            JavaNbt::Double(bits) => r == Some(Value::Double(bits)),
            JavaNbt::Text(s) => r matches Some(Value::String(t)) && t@ == s,
            _ => r is None,
        },
{
    match value {
        FastValue::Byte(n) => Some(Value::Byte(*n)),
        FastValue::Short(n) => Some(Value::Short(*n)),
        FastValue::Int(n) => Some(Value::Int(*n)),
        FastValue::Long(n) => Some(Value::Long(*n)),
        FastValue::Float(x) => Some(Value::Float(x.to_bits())),
        FastValue::Double(x) => Some(Value::Double(x.to_bits())),
        FastValue::String(s) => Some(Value::String(s.clone())),
        _ => None,
    }
}

/// An array of numbers
enum NumberArray {
    Bytes(Vec<i8>),
    Ints(Vec<i32>),
    Longs(Vec<i64>),
}

/// The variants of `fastnbt::Value` that hold an array of numbers
#[verifier::external_body]
fn array(value: &FastValue) -> (r: Option<NumberArray>)
    ensures
        match held(*value) {
            JavaNbt::ByteArray(a) => r matches Some(NumberArray::Bytes(v)) && v@ == a,
            JavaNbt::IntArray(a) => r matches Some(NumberArray::Ints(v)) && v@ == a,
            JavaNbt::LongArray(a) => r matches Some(NumberArray::Longs(v)) && v@ == a,
            _ => r is None,
        },
{
    match value {
        FastValue::ByteArray(a) => Some(NumberArray::Bytes(a.to_vec())),
        FastValue::IntArray(a) => Some(NumberArray::Ints(a.to_vec())),
        FastValue::LongArray(a) => Some(NumberArray::Longs(a.to_vec())),
        _ => None,
    }
}

/// The variant of `fastnbt::Value` that holds a list
#[verifier::external_body]
fn list(value: &FastValue) -> (r: Option<&Vec<FastValue>>)
    ensures
        match held(*value) {
            JavaNbt::List(items) => {
                &&& r matches Some(v)
                &&& v@.len() == items.len()
                &&& forall|i: int| 0 <= i < items.len() ==> held(#[trigger] v@[i]) == items[i]
            },
            _ => r is None,
        },
{
    match value {
        FastValue::List(items) => Some(items),
        _ => None,
    }
}

/// Entries are those of a compound, each of them once
pub open spec fn lists_entries(
    entries: Seq<(String, &FastValue)>,
    map: Map<Seq<char>, JavaNbt>,
) -> bool {
    &&& forall|i: int|
        0 <= i < entries.len() ==> map.contains_key((#[trigger] entries[i]).0@)
            && map[entries[i].0@] == held(*entries[i].1)
    &&& forall|k: Seq<char>| #[trigger]
        map.contains_key(k) ==> exists|i: int|
            0 <= i < entries.len() && (#[trigger] entries[i]).0@ == k
    &&& forall|i: int, j: int|
        0 <= i < j < entries.len() ==> (#[trigger] entries[i]).0@ != (#[trigger] entries[j]).0@
}

/// The variant of `fastnbt::Value` that holds a compound; the order in which the entries come
/// is open
#[verifier::external_body]
fn compound(value: &FastValue) -> (r: Option<Vec<(String, &FastValue)>>)
    ensures
        match held(*value) {
            JavaNbt::Compound(map) => r matches Some(v) && lists_entries(v@, map),
            _ => r is None,
        },
{
    match value {
        FastValue::Compound(map) => Some(map.iter().map(|(k, v)| (k.clone(), v)).collect()),
        _ => None,
    }
}

/// Entries are those of a compound, each of them once, in any order
pub open spec fn orders(entries: Seq<(Seq<char>, Nbt)>, map: Map<Seq<char>, JavaNbt>) -> bool {
    &&& forall|i: int| 0 <= i < entries.len() ==> map.contains_key((#[trigger] entries[i]).0)
    &&& forall|k: Seq<char>| #[trigger]
        map.contains_key(k) ==> exists|i: int|
            0 <= i < entries.len() && (#[trigger] entries[i]).0 == k
    &&& forall|i: int, j: int|
        0 <= i < j < entries.len() ==> (#[trigger] entries[i]).0 != (#[trigger] entries[j]).0
}

/// An NBT value means the same as a Java Edition one, up to the order of the entries of
/// compounds
pub open spec fn agrees(a: Nbt, b: JavaNbt) -> bool
    decreases a,
{
    match (a, b) {
        (Nbt::Byte(m), JavaNbt::Byte(n)) => m == n,
        (Nbt::Short(m), JavaNbt::Short(n)) => m == n,
        (Nbt::Int(m), JavaNbt::Int(n)) => m == n,
        (Nbt::Long(m), JavaNbt::Long(n)) => m == n,
        (Nbt::Float(m), JavaNbt::Float(n)) => m == n,
        (Nbt::Double(m), JavaNbt::Double(n)) => m == n,
        (Nbt::ByteArray(s), JavaNbt::ByteArray(t)) => {
            s.len() == t.len() && forall|i: int| 0 <= i < s.len() ==> #[trigger] s[i] == t[i] as u8
        },
        (Nbt::Text(s), JavaNbt::Text(t)) => s == t,
        (Nbt::List(s), JavaNbt::List(t)) => {
            s.len() == t.len() && forall|i: int| 0 <= i < s.len() ==> agrees(#[trigger] s[i], t[i])
        },
        (Nbt::Compound(entries), JavaNbt::Compound(map)) => {
            orders(entries, map) && forall|i: int|
                0 <= i < entries.len() ==> agrees((#[trigger] entries[i]).1, map[entries[i].0])
        },
        (Nbt::IntArray(s), JavaNbt::IntArray(t)) => s == t,
        (Nbt::LongArray(s), JavaNbt::LongArray(t)) => s == t,
        _ => false,
    }
}

/// Returns bytes without their signs
fn unsigned(numbers: &Vec<i8>) -> (r: Vec<u8>)
    ensures
        r@.len() == numbers@.len(),
        forall|i: int| 0 <= i < r@.len() ==> #[trigger] r@[i] == numbers@[i] as u8,
{
    let mut out: Vec<u8> = Vec::new();
    let mut i: usize = 0;
    while i < numbers.len()
        invariant
            i <= numbers.len(),
            out@.len() == i,
            forall|j: int| 0 <= j < i ==> #[trigger] out@[j] == numbers@[j] as u8,
        decreases numbers.len() - i,
    {
        out.push(numbers[i] as u8);
        i = i + 1;
    }
    out
}

proof fn entries_finite(entries: Seq<(String, &FastValue)>, map: Map<Seq<char>, JavaNbt>)
    requires
        lists_entries(entries, map),
    ensures
        map.dom().finite(),
{
    let names = entries.map_values(|e: (String, &FastValue)| e.0@);
    assert forall|k: Seq<char>| #[trigger] map.dom().contains(k) implies names.to_set().contains(
        k,
    ) by {
        let i = choose|i: int| 0 <= i < entries.len() && (#[trigger] entries[i]).0@ == k;
        assert(names[i] == k);
    }
    vstd::seq_lib::seq_to_set_is_finite(names);
    vstd::set_lib::lemma_set_subset_finite(names.to_set(), map.dom());
}

/// Converts an NBT value
fn convert(value: &FastValue) -> (r: Value)
    ensures
        agrees(r@, held(*value)),
    decreases held(*value),
{
    if let Some(v) = scalar(value) {
        return v;
    }
    if let Some(a) = array(value) {
        return match a {
            NumberArray::Bytes(v) => Value::ByteArray(unsigned(&v)),
            NumberArray::Ints(v) => Value::IntArray(v),
            NumberArray::Longs(v) => Value::LongArray(v),
        };
    }
    if let Some(items) = list(value) {
        let ghost all = held(*value)->List_0;
        let mut out: Vec<Value> = Vec::new();
        let mut i: usize = 0;
        while i < items.len()
            invariant
                i <= items.len(),
                held(*value) == JavaNbt::List(all),
                items@.len() == all.len(),
                forall|j: int| 0 <= j < all.len() ==> held(#[trigger] items@[j]) == all[j],
                out@.len() == i,
                forall|j: int| 0 <= j < i ==> agrees((#[trigger] out@[j])@, all[j]),
            decreases items.len() - i,
        {
            assert(held(items@[i as int]) == all[i as int]);
            assert(decreases_to!(held(*value) => held(*value)->List_0));
            assert(decreases_to!(all => all[i as int]));
            out.push(convert(&items[i]));
            i = i + 1;
        }
        assert forall|j: int| 0 <= j < nbt::trees(out@).len() implies agrees(
            #[trigger] nbt::trees(out@)[j],
            all[j],
        ) by {
            nbt::trees_len(out@);
            nbt::trees_index(out@, j);
        }
        proof {
            nbt::trees_len(out@);
        }
        return Value::List(out);
    }
    let entries = match compound(value) {
        Some(entries) => entries,
        None => Vec::new(),
    };
    let ghost map = held(*value)->Compound_0;
    proof {
        entries_finite(entries@, map);
    }
    let mut out: Vec<(String, Value)> = Vec::new();
    let mut i: usize = 0;
    while i < entries.len()
        invariant
            i <= entries.len(),
            held(*value) == JavaNbt::Compound(map),
            map.dom().finite(),
            lists_entries(entries@, map),
            out@.len() == i,
            forall|j: int|
                0 <= j < i ==> (#[trigger] out@[j]).0@ == entries@[j].0@ && agrees(
                    out@[j].1@,
                    map[entries@[j].0@],
                ),
        decreases entries.len() - i,
    {
        let ghost name = entries@[i as int].0@;
        assert(map.contains_key(name));
        assert(decreases_to!(held(*value) => held(*value)->Compound_0));
        assert(decreases_to!(map => map[name])) by {
            broadcast use vstd::map::axiom_map_index_decreases_finite;

        }
        out.push((entries[i].0.clone(), convert(entries[i].1)));
        i = i + 1;
    }
    proof {
        entries_converted(entries@, out@, map);
    }
    Value::Compound(out)
}

proof fn entries_converted(
    entries: Seq<(String, &FastValue)>,
    out: Seq<(String, Value)>,
    map: Map<Seq<char>, JavaNbt>,
)
    requires
        lists_entries(entries, map),
        out.len() == entries.len(),
        forall|j: int|
            0 <= j < out.len() ==> (#[trigger] out[j]).0@ == entries[j].0@ && agrees(
                out[j].1@,
                map[entries[j].0@],
            ),
    ensures
        agrees(Nbt::Compound(nbt::entry_trees(out)), JavaNbt::Compound(map)),
{
    let all = nbt::entry_trees(out);
    if out.len() > 0 {
        nbt::entry_trees_index(out, 0);
    }
    assert(all.len() == out.len());
    assert forall|j: int| 0 <= j < all.len() implies all[j].0 == entries[j].0@ && agrees(
        (#[trigger] all[j]).1,
        map[all[j].0],
    ) by {
        nbt::entry_trees_index(out, j);
    }
    assert forall|k: Seq<char>| #[trigger] map.contains_key(k) implies exists|j: int|
        0 <= j < all.len() && (#[trigger] all[j]).0 == k by {
        let j = choose|j: int| 0 <= j < entries.len() && (#[trigger] entries[j]).0@ == k;
        assert(all[j].0 == k);
    }
    assert(orders(all, map));
}

/// Parses uncompressed NBT data
pub fn parse(data: &[u8]) -> (r: Option<Value>)
    ensures
        match java_nbt(data@) {
            Some(root) => r matches Some(value) && agrees(value@, root),
            None => r is None,
        },
{
    match from_bytes(data) {
        Ok(value) => Some(convert(&value)),
        Err(_) => None,
    }
}

/// The compound that the contents of an NBT file stand for, if they do
pub open spec fn root_in(raw: Seq<u8>) -> Option<JavaNbt> {
    if compression::is_gzip(raw) {
        match compression::gunzipped(raw) {
            Some(data) => java_nbt(data),
            None => None,
        }
    } else {
        java_nbt(raw)
    }
}

/// Parses the contents of an NBT file, which may be compressed with gzip
pub fn parse_file(raw: Vec<u8>) -> (r: Option<Value>)
    ensures
        match root_in(raw@) {
            Some(root) => r matches Some(value) && agrees(value@, root),
            None => r is None,
        },
{
    match compression::read_nbt(raw) {
        Ok(data) => parse(data.as_slice()),
        Err(_) => None,
    }
}

impl JavaNbt {
    /// The entry of a compound that is named `key`
    pub open spec fn entry(self, key: Seq<char>) -> Option<JavaNbt> {
        match self {
            JavaNbt::Compound(map) => if map.contains_key(key) {
                Some(map[key])
            } else {
                None
            },
            _ => None,
        }
    }
}

proof fn named_found(entries: Seq<(Seq<char>, Nbt)>, key: Seq<char>)
    ensures
        match nbt::named(entries, key) {
            Some(v) => exists|i: int| 0 <= i < entries.len() && #[trigger] entries[i] == (key, v),
            None => forall|i: int| 0 <= i < entries.len() ==> (#[trigger] entries[i]).0 != key,
        },
    decreases entries.len(),
{
    if entries.len() > 0 && entries[0].0 != key {
        let rest = entries.skip(1);
        named_found(rest, key);
        match nbt::named(entries, key) {
            Some(v) => {
                let i = choose|i: int| 0 <= i < rest.len() && #[trigger] rest[i] == (key, v);
                assert(entries[i + 1] == (key, v));
            },
            None => {
                assert forall|i: int| 0 <= i < entries.len() implies (#[trigger] entries[i]).0
                    != key by {
                    if i > 0 {
                        assert(rest[i - 1].0 != key);
                    }
                }
            },
        }
    } else if entries.len() > 0 {
        assert(entries[0] == (key, entries[0].1));
    }
}

/// Looking up an entry of a compound gives the same, whatever the order of its entries is
pub proof fn entry_agrees(a: Nbt, b: JavaNbt, key: Seq<char>)
    requires
        agrees(a, b),
    ensures
        a.entry(key) is Some <==> b.entry(key) is Some,
        a.entry(key) matches Some(v) ==> agrees(v, b.entry(key)->0),
{
    match (a, b) {
        (Nbt::Compound(entries), JavaNbt::Compound(map)) => {
            named_found(entries, key);
            match nbt::named(entries, key) {
                Some(v) => {
                    let i = choose|i: int|
                        0 <= i < entries.len() && #[trigger] entries[i] == (key, v);
                    assert(agrees(entries[i].1, map[entries[i].0]));
                },
                None => {
                    if map.contains_key(key) {
                        let i = choose|i: int|
                            0 <= i < entries.len() && (#[trigger] entries[i]).0 == key;
                        assert(entries[i].0 != key);
                    }
                },
            }
        },
        _ => {},
    }
}

/// Values that agree are of the same kind and hold the same
pub proof fn agreeing_values(a: Nbt, b: JavaNbt, i: int)
    requires
        agrees(a, b),
    ensures
        b matches JavaNbt::Byte(n) ==> a == Nbt::Byte(n),
        b matches JavaNbt::Short(n) ==> a == Nbt::Short(n),
        b matches JavaNbt::Int(n) ==> a == Nbt::Int(n),
        b matches JavaNbt::Long(n) ==> a == Nbt::Long(n),
        b matches JavaNbt::Float(bits) ==> a == Nbt::Float(bits),
        b matches JavaNbt::Double(bits) ==> a == Nbt::Double(bits),
        b matches JavaNbt::Text(s) ==> a == Nbt::Text(s),
        b matches JavaNbt::IntArray(s) ==> a == Nbt::IntArray(s),
        b matches JavaNbt::LongArray(s) ==> a == Nbt::LongArray(s),
        b matches JavaNbt::ByteArray(t) ==> {
            &&& a matches Nbt::ByteArray(s)
            &&& s.len() == t.len()
            &&& 0 <= i < s.len() ==> s[i] == t[i] as u8
        },
        b matches JavaNbt::List(t) ==> {
            &&& a matches Nbt::List(s)
            &&& s.len() == t.len()
            &&& 0 <= i < s.len() ==> agrees(s[i], t[i])
        },
        b matches JavaNbt::Compound(map) ==> {
            &&& a matches Nbt::Compound(entries)
            &&& 0 <= i < entries.len() ==> map.contains_key(entries[i].0) && agrees(
                entries[i].1,
                map[entries[i].0],
            )
        },
{
}

/// NBT files are read compressed or uncompressed
pub proof fn files_read(raw: Seq<u8>)
    ensures
        raw.len() >= 2 && raw[0] == 0x1f && raw[1] == 0x8b ==> {
            &&& compression::gunzipped(raw) matches Some(data) ==> root_in(raw) == java_nbt(data)
            &&& compression::gunzipped(raw) is None ==> root_in(raw) is None
        },
        raw.len() < 2 || raw[0] != 0x1f || raw[1] != 0x8b ==> root_in(raw) == java_nbt(raw),
{
}

} // verus!
