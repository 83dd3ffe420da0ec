//! Minimal little-endian NBT reader for Bedrock Edition data
//!
//! Bedrock Edition stores NBT in little-endian byte order. Floating point
//! numbers are kept as their bit patterns.

use crate::bytes;
use vstd::prelude::*;

verus! {

/// Reasons why data is not NBT
#[derive(Debug, Clone, Copy, PartialEq, Eq, Structural)]
pub enum NbtError {
    /// The data ends inside a value
    UnexpectedEnd,
    /// A byte array has a negative length
    NegativeByteArrayLength,
    /// A list has a negative length
    NegativeListLength,
    /// An int array has a negative length
    NegativeIntArrayLength,
    /// A long array has a negative length
    NegativeLongArrayLength,
    /// There is no value type with this tag
    UnknownTag(u8),
}

/// A parsed NBT value
#[derive(Debug, PartialEq, Eq)]
pub enum Value {
    /// `TAG_Byte`
    Byte(i8),
    /// `TAG_Short`
    Short(i16),
    /// `TAG_Int`
    Int(i32),
    /// `TAG_Long`
    Long(i64),
    /// `TAG_Float`, as the bits of an IEEE 754 single
    Float(u32),
    /// `TAG_Double`, as the bits of an IEEE 754 double
    Double(u64),
    /// `TAG_Byte_Array`
    ByteArray(Vec<u8>),
    /// `TAG_String`
    String(String),
    /// `TAG_List`
    List(Vec<Value>),
    /// `TAG_Compound`
    Compound(Vec<(String, Value)>),
    /// `TAG_Int_Array`
    IntArray(Vec<i32>),
    /// `TAG_Long_Array`
    LongArray(Vec<i64>),
}

/// What an NBT value means: a [Value] with sequences in place of vectors
pub enum Nbt {
    Byte(i8),
    Short(i16),
    Int(i32),
    Long(i64),
    Float(u32),
    Double(u64),
    ByteArray(Seq<u8>),
    Text(Seq<char>),
    List(Seq<Nbt>),
    Compound(Seq<(Seq<char>, Nbt)>),
    IntArray(Seq<i32>),
    LongArray(Seq<i64>),
}

/// The meaning of a value
pub open spec fn tree(v: Value) -> Nbt
    decreases v,
{
    match v {
        Value::Byte(n) => Nbt::Byte(n),
        Value::Short(n) => Nbt::Short(n),
        Value::Int(n) => Nbt::Int(n),
        Value::Long(n) => Nbt::Long(n),
        Value::Float(n) => Nbt::Float(n),
        Value::Double(n) => Nbt::Double(n),
        Value::ByteArray(b) => Nbt::ByteArray(b@),
        Value::String(s) => Nbt::Text(s@),
        Value::List(l) => Nbt::List(trees(l@)),
        Value::Compound(c) => Nbt::Compound(entry_trees(c@)),
        Value::IntArray(a) => Nbt::IntArray(a@),
        Value::LongArray(a) => Nbt::LongArray(a@),
    }
}

/// The meanings of a sequence of values
pub open spec fn trees(vs: Seq<Value>) -> Seq<Nbt>
    decreases vs,
{
    if vs.len() == 0 {
        Seq::empty()
    } else {
        trees(vs.drop_last()).push(tree(vs.last()))
    }
}

/// The names of the entries of a compound, with the meanings of their values
pub open spec fn entry_trees(es: Seq<(String, Value)>) -> Seq<(Seq<char>, Nbt)>
    decreases es,
{
    if es.len() == 0 {
        Seq::empty()
    } else {
        entry_trees(es.drop_last()).push((es.last().0@, tree(es.last().1)))
    }
}

impl View for Value {
    type V = Nbt;

    open spec fn view(&self) -> Nbt {
        tree(*self)
    }
}

/// What reading something from a position gives: the thing and the position
/// behind it, or the reason for failing and the position where reading failed
pub type Parse<T> = Result<(T, int), (NbtError, int)>;

/// The text that [String::from_utf8_lossy] makes of bytes that are not UTF-8
pub uninterp spec fn lossy_chars(bytes: Seq<u8>) -> Seq<char>;

/// The text that a byte sequence holds
pub open spec fn text_of(bytes: Seq<u8>) -> Seq<char> {
    if vstd::utf8::valid_utf8(bytes) {
        vstd::utf8::decode_utf8(bytes)
    } else {
        lossy_chars(bytes)
    }
}

/// The string at `pos`: a 16-bit length, followed by that many bytes of text
pub open spec fn text_at(data: Seq<u8>, pos: int) -> Parse<Seq<char>> {
    if pos + 2 > data.len() {
        Err((NbtError::UnexpectedEnd, pos))
    } else if pos + 2 + bytes::le16(data, pos) > data.len() {
        Err((NbtError::UnexpectedEnd, pos + 2))
    } else {
        let end = pos + 2 + bytes::le16(data, pos);
        Ok((text_of(data.subrange(pos + 2, end)), end))
    }
}

/// The length of a list or array at `pos`: a 32-bit number that is not negative
pub open spec fn length_at(data: Seq<u8>, pos: int, negative: NbtError) -> Parse<int> {
    if pos + 4 > data.len() {
        Err((NbtError::UnexpectedEnd, pos))
    } else if bytes::signed32(bytes::le32(data, pos)) < 0 {
        Err((negative, pos + 4))
    } else {
        Ok((bytes::signed32(bytes::le32(data, pos)) as int, pos + 4))
    }
}

/// The 32-bit numbers at `pos`
pub open spec fn ints_at(data: Seq<u8>, pos: int, count: int) -> Seq<i32> {
    Seq::new(count as nat, |i: int| bytes::signed32(bytes::le32(data, pos + 4 * i)))
}

/// The 64-bit numbers at `pos`
pub open spec fn longs_at(data: Seq<u8>, pos: int, count: int) -> Seq<i64> {
    Seq::new(count as nat, |i: int| bytes::signed64(bytes::le64(data, pos + 8 * i)))
}

/// The value of type `tag` at `pos`
pub open spec fn payload_at(data: Seq<u8>, pos: int, tag: u8) -> Parse<Nbt>
    decreases data.len() - pos, 1int,
{
    if tag == 1 {
        if pos + 1 > data.len() {
            Err((NbtError::UnexpectedEnd, pos))
        } else {
            Ok((Nbt::Byte(bytes::signed8(data[pos] as int)), pos + 1))
        }
    } else if tag == 2 {
        if pos + 2 > data.len() {
            Err((NbtError::UnexpectedEnd, pos))
        } else {
            Ok((Nbt::Short(bytes::signed16(bytes::le16(data, pos))), pos + 2))
        }
    } else if tag == 3 {
        if pos + 4 > data.len() {
            Err((NbtError::UnexpectedEnd, pos))
        } else {
            Ok((Nbt::Int(bytes::signed32(bytes::le32(data, pos))), pos + 4))
        }
    } else if tag == 4 {
        if pos + 8 > data.len() {
            Err((NbtError::UnexpectedEnd, pos))
        } else {
            Ok((Nbt::Long(bytes::signed64(bytes::le64(data, pos))), pos + 8))
        }
    } else if tag == 5 {
        if pos + 4 > data.len() {
            Err((NbtError::UnexpectedEnd, pos))
        } else {
            Ok((Nbt::Float(bytes::le32(data, pos) as u32), pos + 4))
        }
    } else if tag == 6 {
        if pos + 8 > data.len() {
            Err((NbtError::UnexpectedEnd, pos))
        } else {
            Ok((Nbt::Double(bytes::le64(data, pos) as u64), pos + 8))
        }
    } else if tag == 7 {
        match length_at(data, pos, NbtError::NegativeByteArrayLength) {
            Err(e) => Err(e),
            Ok((n, p)) => if p + n > data.len() {
                Err((NbtError::UnexpectedEnd, p))
            } else {
                Ok((Nbt::ByteArray(data.subrange(p, p + n)), p + n))
            },
        }
    } else if tag == 8 {
        match text_at(data, pos) {
            Err(e) => Err(e),
            Ok((s, p)) => Ok((Nbt::Text(s), p)),
        }
    } else if tag == 9 {
        if pos + 1 > data.len() {
            Err((NbtError::UnexpectedEnd, pos))
        } else {
            match length_at(data, pos + 1, NbtError::NegativeListLength) {
                Err(e) => Err(e),
                Ok((n, p)) => if p <= pos {
                    Err((NbtError::UnexpectedEnd, p))
                } else {
                    match elements_at(data, p, data[pos], n, Seq::empty()) {
                        Err(e) => Err(e),
                        Ok((l, q)) => Ok((Nbt::List(l), q)),
                    }
                },
            }
        }
    } else if tag == 10 {
        match entries_at(data, pos, Seq::empty()) {
            Err(e) => Err(e),
            Ok((c, p)) => Ok((Nbt::Compound(c), p)),
        }
    } else if tag == 11 {
        match length_at(data, pos, NbtError::NegativeIntArrayLength) {
            Err(e) => Err(e),
            Ok((n, p)) => if p + 4 * n > data.len() {
                Err((NbtError::UnexpectedEnd, p + 4 * ((data.len() - p) / 4)))
            } else {
                Ok((Nbt::IntArray(ints_at(data, p, n)), p + 4 * n))
            },
        }
    } else if tag == 12 {
        match length_at(data, pos, NbtError::NegativeLongArrayLength) {
            Err(e) => Err(e),
            Ok((n, p)) => if p + 8 * n > data.len() {
                Err((NbtError::UnexpectedEnd, p + 8 * ((data.len() - p) / 8)))
            } else {
                Ok((Nbt::LongArray(longs_at(data, p, n)), p + 8 * n))
            },
        }
    } else {
        Err((NbtError::UnknownTag(tag), pos))
    }
}

/// The elements `done`, followed by `count` list elements of type `tag` at `pos`
///
/// A list of elements of type 0 (End) is empty, whatever its length says.
pub open spec fn elements_at(
    data: Seq<u8>,
    pos: int,
    tag: u8,
    count: int,
    done: Seq<Nbt>,
) -> Parse<Seq<Nbt>>
    decreases data.len() - pos, 2int,
{
    if count <= 0 || tag == 0 {
        Ok((done, pos))
    } else {
        match payload_at(data, pos, tag) {
            Err(e) => Err(e),
            Ok((v, p)) => if pos < p <= data.len() {
                elements_at(data, p, tag, count - 1, done.push(v))
            } else {
                Err((NbtError::UnexpectedEnd, p))
            },
        }
    }
}

/// The entries `done`, followed by the compound entries at `pos` up to an end tag
///
/// An entry is a type tag, a name and a value of that type.
pub open spec fn entries_at(
    data: Seq<u8>,
    pos: int,
    done: Seq<(Seq<char>, Nbt)>,
) -> Parse<Seq<(Seq<char>, Nbt)>>
    decreases data.len() - pos, 0int,
{
    if pos + 1 > data.len() {
        Err((NbtError::UnexpectedEnd, pos))
    } else if data[pos] == 0 {
        Ok((done, pos + 1))
    } else {
        match text_at(data, pos + 1) {
            Err(e) => Err(e),
            Ok((name, p)) => if p <= pos || p > data.len() {
                Err((NbtError::UnexpectedEnd, p))
            } else {
                match payload_at(data, p, data[pos]) {
                    Err(e) => Err(e),
                    Ok((v, q)) => if pos < q <= data.len() {
                        entries_at(data, q, done.push((name, v)))
                    } else {
                        Err((NbtError::UnexpectedEnd, q))
                    },
                }
            },
        }
    }
}

/// The root value at `pos`: a type tag, a name that is skipped, and a value
///
/// There is none at the end of the data, nor where an end tag stands.
pub open spec fn root_at(data: Seq<u8>, pos: int) -> Parse<Option<Nbt>> {
    if pos >= data.len() {
        Ok((None, pos))
    } else if data[pos] == 0 {
        Ok((None, pos + 1))
    } else {
        match text_at(data, pos + 1) {
            Err(e) => Err(e),
            Ok((_name, p)) => match payload_at(data, p, data[pos]) {
                Err(e) => Err(e),
                Ok((v, q)) => Ok((Some(v), q)),
            },
        }
    }
}

/// The root values `done`, followed by all root values at `pos`
pub open spec fn roots_at(data: Seq<u8>, pos: int, done: Seq<Nbt>) -> Result<Seq<Nbt>, NbtError>
    decreases data.len() - pos,
{
    match root_at(data, pos) {
        Err((e, _)) => Err(e),
        Ok((None, _)) => Ok(done),
        Ok((Some(v), p)) => if pos < p <= data.len() {
            roots_at(data, p, done.push(v))
        } else {
            Err(NbtError::UnexpectedEnd)
        },
    }
}

/// Values take at least one byte and end inside the data
pub proof fn payload_advances(data: Seq<u8>, pos: int, tag: u8)
    requires
        0 <= pos <= data.len(),
    ensures
        payload_at(data, pos, tag) matches Ok((_, p)) ==> pos < p <= data.len(),
    decreases data.len() - pos, 1int,
{
    if tag == 9 && pos + 5 <= data.len() {
        let n = bytes::signed32(bytes::le32(data, pos + 1)) as int;
        elements_advance(data, pos + 5, data[pos], n, Seq::empty());
    } else if tag == 10 {
        entries_advance(data, pos, Seq::empty());
    }
}

/// Reading list elements does not go back and ends inside the data
pub proof fn elements_advance(data: Seq<u8>, pos: int, tag: u8, count: int, done: Seq<Nbt>)
    requires
        0 <= pos <= data.len(),
    ensures
        elements_at(data, pos, tag, count, done) matches Ok((_, p)) ==> pos <= p <= data.len(),
    decreases data.len() - pos, 2int,
{
    if count > 0 && tag != 0 {
        payload_advances(data, pos, tag);
        if let Ok((v, p)) = payload_at(data, pos, tag) {
            elements_advance(data, p, tag, count - 1, done.push(v));
        }
    }
}

/// Reading compound entries takes at least the end tag and ends inside the data
pub proof fn entries_advance(data: Seq<u8>, pos: int, done: Seq<(Seq<char>, Nbt)>)
    requires
        0 <= pos <= data.len(),
    ensures
        entries_at(data, pos, done) matches Ok((_, p)) ==> pos < p <= data.len(),
    decreases data.len() - pos, 0int,
{
    if pos + 1 <= data.len() && data[pos] != 0 {
        if let Ok((name, p)) = text_at(data, pos + 1) {
            payload_advances(data, p, data[pos]);
            if let Ok((v, q)) = payload_at(data, p, data[pos]) {
                entries_advance(data, q, done.push((name, v)));
            }
        }
    }
}

/// Replaces the bytes that are not UTF-8 and returns the text
///
/// Calls [String::from_utf8_lossy]. Bytes that are valid UTF-8 are decoded; of
/// other bytes it is only said that the text depends on nothing but them.
#[verifier::external_body]
pub(crate) fn text_lossy(bytes: &[u8]) -> (r: String)
    ensures
        vstd::utf8::valid_utf8(bytes@) ==> r@ == vstd::utf8::decode_utf8(bytes@),
        !vstd::utf8::valid_utf8(bytes@) ==> r@ == lossy_chars(bytes@),
{
    String::from_utf8_lossy(bytes).into_owned()
}

/// Cursor-based reader over little-endian NBT data
pub struct Reader<'a> {
    /// The input data
    data: &'a [u8],
    /// Current read position
    pos: usize,
}

impl<'a> Reader<'a> {
    /// The input data
    pub closed spec fn input(&self) -> Seq<u8> {
        self.data@
    }

    /// The read position
    pub closed spec fn at(&self) -> int {
        self.pos as int
    }

    #[verifier::type_invariant]
    spec fn in_bounds(self) -> bool {
        self.pos <= self.data.len()
    }

    /// Creates a new reader over the given data
    pub fn new(data: &'a [u8]) -> (r: Self)
        ensures
            r.input() == data@,
            r.at() == 0,
    {
        Reader { data, pos: 0 }
    }

    /// Returns whether the whole input has been consumed
    pub fn at_end(&self) -> (r: bool)
        ensures
            r == (self.at() >= self.input().len()),
    {
        self.pos >= self.data.len()
    }

    /// Returns the number of bytes consumed so far
    pub fn position(&self) -> (r: usize)
        ensures
            r == self.at(),
            r <= self.input().len(),
    {
        proof {
            use_type_invariant(self);
        }
        self.pos
    }

    /// Reads a fixed number of bytes
    fn bytes(&mut self, len: usize) -> (r: Result<&'a [u8], NbtError>)
        ensures
            final(self).input() == old(self).input(),
            0 <= old(self).at() <= old(self).input().len(),
            0 <= final(self).at() <= final(self).input().len(),
            match r {
                Ok(b) => {
                    &&& old(self).at() + len <= old(self).input().len()
                    &&& final(self).at() == old(self).at() + len
                    &&& b@ == old(self).input().subrange(old(self).at(), old(self).at() + len)
                    &&& b@.len() == len
                },
                Err(e) => {
                    &&& e == NbtError::UnexpectedEnd
                    &&& old(self).at() + len > old(self).input().len()
                    &&& final(self).at() == old(self).at()
                },
            },
    {
        proof {
            use_type_invariant(&*self);
        }
        if len > self.data.len() - self.pos {
            return Err(NbtError::UnexpectedEnd);
        }
        let start: usize = self.pos;
        let end: usize = start + len;
        let ret = vstd::slice::slice_subrange(self.data, start, end);
        self.pos = end;
        Ok(ret)
    }

    /// Reads a single byte
    fn u8(&mut self) -> (r: Result<u8, NbtError>)
        ensures
            final(self).input() == old(self).input(),
            0 <= old(self).at() <= old(self).input().len(),
            match r {
                Ok(v) => {
                    &&& old(self).at() + 1 <= old(self).input().len()
                    &&& final(self).at() == old(self).at() + 1
                    &&& v == old(self).input()[old(self).at()]
                },
                Err(e) => {
                    &&& e == NbtError::UnexpectedEnd
                    &&& old(self).at() + 1 > old(self).input().len()
                    &&& final(self).at() == old(self).at()
                },
            },
    {
        let b = match self.bytes(1) {
            Ok(b) => b,
            Err(e) => return Err(e),
        };
        Ok(b[0])
    }

    /// Reads a little-endian `i16`
    fn i16(&mut self) -> (r: Result<i16, NbtError>)
        ensures
            final(self).input() == old(self).input(),
            0 <= old(self).at() <= old(self).input().len(),
            match r {
                Ok(v) => {
                    &&& old(self).at() + 2 <= old(self).input().len()
                    &&& final(self).at() == old(self).at() + 2
                    &&& v == bytes::signed16(bytes::le16(old(self).input(), old(self).at()))
                },
                Err(e) => {
                    &&& e == NbtError::UnexpectedEnd
                    &&& old(self).at() + 2 > old(self).input().len()
                    &&& final(self).at() == old(self).at()
                },
            },
    {
        let b = match self.bytes(2) {
            Ok(b) => b,
            Err(e) => return Err(e),
        };
        Ok(bytes::as_signed16(bytes::u16_at(b, 0)))
    }

    /// Reads a little-endian `u32`
    fn u32(&mut self) -> (r: Result<u32, NbtError>)
        ensures
            final(self).input() == old(self).input(),
            0 <= old(self).at() <= old(self).input().len(),
            match r {
                Ok(v) => {
                    &&& old(self).at() + 4 <= old(self).input().len()
                    &&& final(self).at() == old(self).at() + 4
                    &&& v == bytes::le32(old(self).input(), old(self).at())
                },
                Err(e) => {
                    &&& e == NbtError::UnexpectedEnd
                    &&& old(self).at() + 4 > old(self).input().len()
                    &&& final(self).at() == old(self).at()
                },
            },
    {
        let b = match self.bytes(4) {
            Ok(b) => b,
            Err(e) => return Err(e),
        };
        Ok(bytes::u32_at(b, 0))
    }

    /// Reads a little-endian `u64`
    fn u64(&mut self) -> (r: Result<u64, NbtError>)
        ensures
            final(self).input() == old(self).input(),
            0 <= old(self).at() <= old(self).input().len(),
            match r {
                Ok(v) => {
                    &&& old(self).at() + 8 <= old(self).input().len()
                    &&& final(self).at() == old(self).at() + 8
                    &&& v == bytes::le64(old(self).input(), old(self).at())
                },
                Err(e) => {
                    &&& e == NbtError::UnexpectedEnd
                    &&& old(self).at() + 8 > old(self).input().len()
                    &&& final(self).at() == old(self).at()
                },
            },
    {
        let b = match self.bytes(8) {
            Ok(b) => b,
            Err(e) => return Err(e),
        };
        Ok(bytes::u64_at(b, 0))
    }

    /// Reads a little-endian `i32`
    fn i32(&mut self) -> (r: Result<i32, NbtError>)
        ensures
            final(self).input() == old(self).input(),
            0 <= old(self).at() <= old(self).input().len(),
            match r {
                Ok(v) => {
                    &&& old(self).at() + 4 <= old(self).input().len()
                    &&& final(self).at() == old(self).at() + 4
                    &&& v == bytes::signed32(bytes::le32(old(self).input(), old(self).at()))
                },
                Err(e) => {
                    &&& e == NbtError::UnexpectedEnd
                    &&& old(self).at() + 4 > old(self).input().len()
                    &&& final(self).at() == old(self).at()
                },
            },
    {
        let b = match self.bytes(4) {
            Ok(b) => b,
            Err(e) => return Err(e),
        };
        Ok(bytes::as_signed32(bytes::u32_at(b, 0)))
    }

    /// Reads a little-endian `i64`
    fn i64(&mut self) -> (r: Result<i64, NbtError>)
        ensures
            final(self).input() == old(self).input(),
            0 <= old(self).at() <= old(self).input().len(),
            match r {
                Ok(v) => {
                    &&& old(self).at() + 8 <= old(self).input().len()
                    &&& final(self).at() == old(self).at() + 8
                    &&& v == bytes::signed64(bytes::le64(old(self).input(), old(self).at()))
                },
                Err(e) => {
                    &&& e == NbtError::UnexpectedEnd
                    &&& old(self).at() + 8 > old(self).input().len()
                    &&& final(self).at() == old(self).at()
                },
            },
    {
        let b = match self.bytes(8) {
            Ok(b) => b,
            Err(e) => return Err(e),
        };
        Ok(bytes::as_signed64(bytes::u64_at(b, 0)))
    }

    /// Reads an NBT string (`u16` length prefix followed by UTF-8 bytes)
    fn string(&mut self) -> (r: Result<String, NbtError>)
        ensures
            final(self).input() == old(self).input(),
            0 <= old(self).at() <= old(self).input().len(),
            match text_at(old(self).input(), old(self).at()) {
                Ok((t, p)) => r matches Ok(s) && s@ == t && final(self).at() == p,
                Err((e, p)) => r == Err::<String, NbtError>(e) && final(self).at() == p,
            },
    {
        let b = match self.bytes(2) {
            Ok(b) => b,
            Err(e) => return Err(e),
        };
        let len: usize = bytes::u16_at(b, 0) as usize;
        let b = match self.bytes(len) {
            Ok(b) => b,
            Err(e) => return Err(e),
        };
        Ok(text_lossy(b))
    }

    /// Reads the length of a list or array
    fn length(&mut self, negative: NbtError) -> (r: Result<usize, NbtError>)
        ensures
            final(self).input() == old(self).input(),
            0 <= old(self).at() <= old(self).input().len(),
            match length_at(old(self).input(), old(self).at(), negative) {
                Ok((n, p)) => r matches Ok(m) && m == n && final(self).at() == p,
                Err((e, p)) => r == Err::<usize, NbtError>(e) && final(self).at() == p,
            },
    {
        let len: i32 = match self.i32() {
            Ok(len) => len,
            Err(e) => return Err(e),
        };
        if len < 0 {
            return Err(negative);
        }
        Ok(len as usize)
    }

    /// Reads the elements of an int array
    fn ints(&mut self, count: usize) -> (r: Result<Vec<i32>, NbtError>)
        ensures
            final(self).input() == old(self).input(),
            0 <= old(self).at() <= old(self).input().len(),
            match r {
                Ok(a) => {
                    &&& old(self).at() + 4 * count <= old(self).input().len()
                    &&& a@ == ints_at(old(self).input(), old(self).at(), count as int)
                    &&& final(self).at() == old(self).at() + 4 * count
                },
                Err(e) => {
                    &&& e == NbtError::UnexpectedEnd
                    &&& old(self).at() + 4 * count > old(self).input().len()
                    &&& final(self).at() == old(self).at() + 4 * ((old(self).input().len()
                        - old(self).at()) / 4)
                },
            },
    {
        proof {
            use_type_invariant(&*self);
        }
        let ghost start = self.at();
        let ghost input = self.input();
        let mut arr: Vec<i32> = Vec::new();
        let mut i: usize = 0;
        while i < count
            invariant
                i <= count,
                start == old(self).at(),
                0 <= start <= input.len(),
                input == old(self).input(),
                self.input() == input,
                self.at() == start + 4 * i,
                self.at() <= input.len(),
                arr@ == ints_at(input, start, i as int),
            decreases count - i,
        {
            match self.i32() {
                Ok(v) => arr.push(v),
                Err(e) => return Err(e),
            }
            i = i + 1;
            assert(arr@ =~= ints_at(input, start, i as int));
        }
        Ok(arr)
    }

    /// Reads the elements of a long array
    fn longs(&mut self, count: usize) -> (r: Result<Vec<i64>, NbtError>)
        ensures
            final(self).input() == old(self).input(),
            0 <= old(self).at() <= old(self).input().len(),
            match r {
                Ok(a) => {
                    &&& old(self).at() + 8 * count <= old(self).input().len()
                    &&& a@ == longs_at(old(self).input(), old(self).at(), count as int)
                    &&& final(self).at() == old(self).at() + 8 * count
                },
                Err(e) => {
                    &&& e == NbtError::UnexpectedEnd
                    &&& old(self).at() + 8 * count > old(self).input().len()
                    &&& final(self).at() == old(self).at() + 8 * ((old(self).input().len()
                        - old(self).at()) / 8)
                },
            },
    {
        proof {
            use_type_invariant(&*self);
        }
        let ghost start = self.at();
        let ghost input = self.input();
        let mut arr: Vec<i64> = Vec::new();
        let mut i: usize = 0;
        while i < count
            invariant
                i <= count,
                start == old(self).at(),
                0 <= start <= input.len(),
                input == old(self).input(),
                self.input() == input,
                self.at() == start + 8 * i,
                self.at() <= input.len(),
                arr@ == longs_at(input, start, i as int),
            decreases count - i,
        {
            match self.i64() {
                Ok(v) => arr.push(v),
                Err(e) => return Err(e),
            }
            i = i + 1;
            assert(arr@ =~= longs_at(input, start, i as int));
        }
        Ok(arr)
    }

    /// Reads the payload of a value of the given tag type
    fn payload(&mut self, tag: u8) -> (r: Result<Value, NbtError>)
        ensures
            final(self).input() == old(self).input(),
            0 <= old(self).at() <= old(self).input().len(),
            match payload_at(old(self).input(), old(self).at(), tag) {
                Ok((v, p)) => r matches Ok(w) && w@ == v && final(self).at() == p,
                Err((e, p)) => r == Err::<Value, NbtError>(e) && final(self).at() == p,
            },
        decreases old(self).input().len() - old(self).at(), 1int,
    {
        proof {
            use_type_invariant(&*self);
        }
        if tag == 1 {
            match self.u8() {
                Ok(v) => Ok(Value::Byte(bytes::as_signed8(v))),
                Err(e) => Err(e),
            }
        } else if tag == 2 {
            match self.i16() {
                Ok(v) => Ok(Value::Short(v)),
                Err(e) => Err(e),
            }
        } else if tag == 3 {
            match self.i32() {
                Ok(v) => Ok(Value::Int(v)),
                Err(e) => Err(e),
            }
        } else if tag == 4 {
            match self.i64() {
                Ok(v) => Ok(Value::Long(v)),
                Err(e) => Err(e),
            }
        } else if tag == 5 {
            match self.u32() {
                Ok(v) => Ok(Value::Float(v)),
                Err(e) => Err(e),
            }
        } else if tag == 6 {
            match self.u64() {
                Ok(v) => Ok(Value::Double(v)),
                Err(e) => Err(e),
            }
        } else if tag == 7 {
            let len: usize = match self.length(NbtError::NegativeByteArrayLength) {
                Ok(len) => len,
                Err(e) => return Err(e),
            };
            match self.bytes(len) {
                Ok(b) => Ok(Value::ByteArray(vstd::slice::slice_to_vec(b))),
                Err(e) => Err(e),
            }
        } else if tag == 8 {
            match self.string() {
                Ok(s) => Ok(Value::String(s)),
                Err(e) => Err(e),
            }
        } else if tag == 9 {
            let elem_tag: u8 = match self.u8() {
                Ok(t) => t,
                Err(e) => return Err(e),
            };
            let len: usize = match self.length(NbtError::NegativeListLength) {
                Ok(len) => len,
                Err(e) => return Err(e),
            };
            match self.elements(elem_tag, len) {
                Ok(l) => Ok(Value::List(l)),
                Err(e) => Err(e),
            }
        } else if tag == 10 {
            match self.compound() {
                Ok(c) => Ok(Value::Compound(c)),
                Err(e) => Err(e),
            }
        } else if tag == 11 {
            let len: usize = match self.length(NbtError::NegativeIntArrayLength) {
                Ok(len) => len,
                Err(e) => return Err(e),
            };
            match self.ints(len) {
                Ok(a) => Ok(Value::IntArray(a)),
                Err(e) => Err(e),
            }
        } else if tag == 12 {
            let len: usize = match self.length(NbtError::NegativeLongArrayLength) {
                Ok(len) => len,
                Err(e) => return Err(e),
            };
            match self.longs(len) {
                Ok(a) => Ok(Value::LongArray(a)),
                Err(e) => Err(e),
            }
        } else {
            Err(NbtError::UnknownTag(tag))
        }
    }

    /// Reads the elements of a list
    fn elements(&mut self, tag: u8, count: usize) -> (r: Result<Vec<Value>, NbtError>)
        ensures
            final(self).input() == old(self).input(),
            0 <= old(self).at() <= old(self).input().len(),
            match elements_at(old(self).input(), old(self).at(), tag, count as int, Seq::empty()) {
                Ok((l, p)) => r matches Ok(w) && trees(w@) == l && final(self).at() == p,
                Err((e, p)) => r == Err::<Vec<Value>, NbtError>(e) && final(self).at() == p,
            },
        decreases old(self).input().len() - old(self).at(), 2int,
    {
        proof {
            use_type_invariant(&*self);
        }
        let ghost start = self.at();
        let ghost input = self.input();
        let mut list: Vec<Value> = Vec::new();
        let mut left: usize = count;
        assert(trees(list@) =~= Seq::<Nbt>::empty());
        while left > 0 && tag != 0
            invariant
                start == old(self).at(),
                input == old(self).input(),
                self.input() == input,
                0 <= start <= self.at() <= input.len(),
                elements_at(input, start, tag, count as int, Seq::empty()) == elements_at(
                    input,
                    self.at(),
                    tag,
                    left as int,
                    trees(list@),
                ),
            decreases left,
        {
            let ghost before = self.at();
            proof {
                payload_advances(input, before, tag);
            }
            let v = match self.payload(tag) {
                Ok(v) => v,
                Err(e) => return Err(e),
            };
            let ghost so_far = list@;
            list.push(v);
            assert(list@.drop_last() =~= so_far);
            left = left - 1;
        }
        Ok(list)
    }

    /// Reads the named entries of a compound until the closing `TAG_End`
    fn compound(&mut self) -> (r: Result<Vec<(String, Value)>, NbtError>)
        ensures
            final(self).input() == old(self).input(),
            0 <= old(self).at() <= old(self).input().len(),
            match entries_at(old(self).input(), old(self).at(), Seq::empty()) {
                Ok((c, p)) => r matches Ok(w) && entry_trees(w@) == c && final(self).at() == p,
                Err((e, p)) => r == Err::<Vec<(String, Value)>, NbtError>(e) && final(self).at()
                    == p,
            },
        decreases old(self).input().len() - old(self).at(), 0int,
    {
        proof {
            use_type_invariant(&*self);
        }
        let ghost start = self.at();
        let ghost input = self.input();
        let mut entries: Vec<(String, Value)> = Vec::new();
        assert(entry_trees(entries@) =~= Seq::<(Seq<char>, Nbt)>::empty());
        loop
            invariant
                start == old(self).at(),
                input == old(self).input(),
                self.input() == input,
                0 <= start <= self.at() <= input.len(),
                entries_at(input, start, Seq::empty()) == entries_at(
                    input,
                    self.at(),
                    entry_trees(entries@),
                ),
            decreases input.len() - self.at(),
        {
            let ghost here = self.at();
            let tag: u8 = match self.u8() {
                Ok(tag) => tag,
                Err(e) => return Err(e),
            };
            if tag == 0 {
                return Ok(entries);
            }
            let name = match self.string() {
                Ok(name) => name,
                Err(e) => return Err(e),
            };
            proof {
                payload_advances(input, self.at(), tag);
            }
            let value = match self.payload(tag) {
                Ok(value) => value,
                Err(e) => return Err(e),
            };
            let ghost so_far = entries@;
            entries.push((name, value));
            assert(entries@.drop_last() =~= so_far);
        }
    }

    /// Reads a single root (named) NBT value
    ///
    /// Returns `None` if the input is fully consumed.
    pub fn read_value(&mut self) -> (r: Result<Option<Value>, NbtError>)
        ensures
            final(self).input() == old(self).input(),
            match root_at(old(self).input(), old(self).at()) {
                Ok((None, p)) => r == Ok::<Option<Value>, NbtError>(None) && final(self).at() == p,
                Ok((Some(v), p)) => {
                    &&& r matches Ok(Some(w))
                    &&& w@ == v
                    &&& final(self).at() == p
                },
                Err((e, p)) => r == Err::<Option<Value>, NbtError>(e) && final(self).at() == p,
            },
    {
        proof {
            use_type_invariant(&*self);
        }
        if self.at_end() {
            return Ok(None);
        }
        let tag: u8 = match self.u8() {
            Ok(tag) => tag,
            Err(e) => return Err(e),
        };
        if tag == 0 {
            // Trailing padding
            return Ok(None);
        }
        // Skip the (usually empty) root name
        match self.string() {
            Ok(_name) => {},
            Err(e) => return Err(e),
        }
        match self.payload(tag) {
            Ok(v) => Ok(Some(v)),
            Err(e) => Err(e),
        }
    }
}

/// A root value takes at least one byte and ends inside the data
pub proof fn root_advances(data: Seq<u8>, pos: int)
    requires
        0 <= pos <= data.len(),
    ensures
        root_at(data, pos) matches Ok((Some(_), p)) ==> pos < p <= data.len(),
{
    if pos < data.len() && data[pos] != 0 {
        if let Ok((_name, p)) = text_at(data, pos + 1) {
            payload_advances(data, p, data[pos]);
        }
    }
}

/// Reads all concatenated root NBT values from a buffer
///
/// Bedrock stores block palettes and block entity lists as several NBT
/// compounds written back to back.
pub fn read_all(data: &[u8]) -> (r: Result<Vec<Value>, NbtError>)
    ensures
        match roots_at(data@, 0, Seq::empty()) {
            Ok(l) => r matches Ok(w) && trees(w@) == l,
            Err(e) => r == Err::<Vec<Value>, NbtError>(e),
        },
{
    let mut reader = Reader::new(data);
    let mut values: Vec<Value> = Vec::new();
    assert(trees(values@) =~= Seq::<Nbt>::empty());
    loop
        invariant
            reader.input() == data@,
            0 <= reader.at() <= data@.len(),
            roots_at(data@, 0, Seq::empty()) == roots_at(data@, reader.at(), trees(values@)),
        decreases data@.len() - reader.at(),
    {
        proof {
            root_advances(data@, reader.at());
        }
        match reader.read_value() {
            Ok(Some(value)) => {
                let ghost so_far = values@;
                values.push(value);
                assert(values@.drop_last() =~= so_far);
            },
            Ok(None) => return Ok(values),
            Err(e) => return Err(e),
        }
    }
}

/// The value of the first entry that is named `key`
pub open spec fn named(entries: Seq<(Seq<char>, Nbt)>, key: Seq<char>) -> Option<Nbt>
    decreases entries.len(),
{
    if entries.len() == 0 {
        None
    } else if entries[0].0 == key {
        Some(entries[0].1)
    } else {
        named(entries.skip(1), key)
    }
}

impl Nbt {
    /// The entry of a compound that is named `key`
    pub open spec fn entry(self, key: Seq<char>) -> Option<Nbt> {
        match self {
            Nbt::Compound(entries) => named(entries, key),
            _ => None,
        }
    }

    /// The text of a string
    pub open spec fn text(self) -> Option<Seq<char>> {
        match self {
            Nbt::Text(s) => Some(s),
            _ => None,
        }
    }
}

/// The meanings of a sequence of values, one by one
pub proof fn trees_index(vs: Seq<Value>, i: int)
    requires
        0 <= i < vs.len(),
    ensures
        trees(vs).len() == vs.len(),
        trees(vs)[i] == tree(vs[i]),
    decreases vs.len(),
{
    reveal_with_fuel(trees, 2);
    if vs.len() > 1 {
        if i < vs.len() - 1 {
            trees_index(vs.drop_last(), i);
        } else {
            trees_index(vs.drop_last(), 0);
        }
    }
}

/// A sequence of values has as many meanings
pub proof fn trees_len(vs: Seq<Value>)
    ensures
        trees(vs).len() == vs.len(),
{
    if vs.len() > 0 {
        trees_index(vs, 0);
    }
}

/// The meanings of a sequence of entries, one by one
pub proof fn entry_trees_index(es: Seq<(String, Value)>, i: int)
    requires
        0 <= i < es.len(),
    ensures
        entry_trees(es).len() == es.len(),
        entry_trees(es)[i] == (es[i].0@, tree(es[i].1)),
    decreases es.len(),
{
    reveal_with_fuel(entry_trees, 2);
    if es.len() > 1 {
        if i < es.len() - 1 {
            entry_trees_index(es.drop_last(), i);
        } else {
            entry_trees_index(es.drop_last(), 0);
        }
    }
}

impl Value {
    /// Returns the value of a named entry of a compound
    pub fn get(&self, key: &str) -> (r: Option<&Value>)
        ensures
            r is Some <==> self@.entry(key@) is Some,
            r matches Some(v) ==> Some(v@) == self@.entry(key@),
    {
        match self {
            Value::Compound(entries) => {
                let ghost all = entry_trees(entries@);
                let mut i: usize = 0;
                assert(all.skip(0) =~= all);
                proof {
                    if entries@.len() > 0 {
                        entry_trees_index(entries@, 0);
                    }
                }
                while i < entries.len()
                    invariant
                        i <= entries@.len(),
                        all == entry_trees(entries@),
                        all.len() == entries@.len(),
                        self@.entry(key@) == named(all.skip(i as int), key@),
                    decreases entries.len() - i,
                {
                    proof {
                        entry_trees_index(entries@, i as int);
                        assert(all.skip(i as int).skip(1) =~= all.skip(i + 1));
                    }
                    if crate::text::same(entries[i].0.as_str(), key) {
                        return Some(&entries[i].1);
                    }
                    i = i + 1;
                }
                None
            },
            _ => None,
        }
    }

    /// Returns the contained string, if the value is a [Value::String]
    pub fn as_str(&self) -> (r: Option<&str>)
        ensures
            r is Some <==> self@.text() is Some,
            r matches Some(s) ==> Some(s@) == self@.text(),
    {
        match self {
            Value::String(s) => Some(s.as_str()),
            _ => None,
        }
    }
}

/// An entry of a compound is found by its name, the first one where there are several
pub proof fn entry_found(entries: Seq<(Seq<char>, Nbt)>, key: Seq<char>, i: int)
    requires
        forall|j: int| 0 <= j < i && j < entries.len() ==> (#[trigger] entries[j]).0 != key,
    ensures
        0 <= i < entries.len() && entries[i].0 == key ==> Nbt::Compound(entries).entry(key) == Some(
            entries[i].1,
        ),
        i >= entries.len() ==> Nbt::Compound(entries).entry(key) is None,
    decreases entries.len(),
{
    if entries.len() > 0 && i > 0 {
        assert(entries[0].0 != key);
        let rest = entries.skip(1);
        assert forall|j: int| 0 <= j < i - 1 && j < rest.len() implies (#[trigger] rest[j]).0
            != key by {
            assert(entries[j + 1].0 != key);
        }
        entry_found(rest, key, i - 1);
        if i < entries.len() {
            assert(rest[i - 1] == entries[i]);
        }
    }
}

/// Only compounds have entries, and only strings have a text
pub proof fn kinds_told_apart(value: Nbt, key: Seq<char>, text: Seq<char>)
    ensures
        value !is Compound ==> value.entry(key) is None,
        Nbt::Text(text).text() == Some(text),
        value !is Text ==> value.text() is None,
{
}

/// The meaning of a value is of the same kind and holds the same
pub proof fn values_mean(value: Value)
    ensures
        value matches Value::Byte(n) ==> value@ == Nbt::Byte(n),
        value matches Value::Short(n) ==> value@ == Nbt::Short(n),
        value matches Value::Int(n) ==> value@ == Nbt::Int(n),
        value matches Value::Long(n) ==> value@ == Nbt::Long(n),
        value matches Value::Float(bits) ==> value@ == Nbt::Float(bits),
        value matches Value::Double(bits) ==> value@ == Nbt::Double(bits),
        value matches Value::ByteArray(b) ==> value@ == Nbt::ByteArray(b@),
        value matches Value::String(s) ==> value@ == Nbt::Text(s@),
        value matches Value::IntArray(a) ==> value@ == Nbt::IntArray(a@),
        value matches Value::LongArray(a) ==> value@ == Nbt::LongArray(a@),
        value matches Value::List(l) ==> value@ == Nbt::List(trees(l@)),
        value matches Value::Compound(c) ==> value@ == Nbt::Compound(entry_trees(c@)),
{
}

/// The number of bytes of a value with the given tag, where all such values have the same
pub open spec fn fixed_size(tag: u8) -> Option<int> {
    if 1 <= tag <= 6 {
        Some(seq![1int, 2int, 4int, 8int, 4int, 8int][tag - 1])
    } else {
        None
    }
}

/// Values are refused if the data end too early, if there is no such type, or if their length
/// is negative; a list of elements without a type is empty
#[verifier::spinoff_prover]
pub proof fn values_refused(data: Seq<u8>, pos: int, tag: u8)
    requires
        0 <= pos <= data.len(),
    ensures
        fixed_size(tag) matches Some(size) ==> if pos + size > data.len() {
            payload_at(data, pos, tag) matches Err((NbtError::UnexpectedEnd, _))
        } else {
            payload_at(data, pos, tag) matches Ok((_, end)) && end == pos + size
        },
        tag == 0 || tag > 12 ==> (payload_at(data, pos, tag) matches Err((e, _)) && e
            == NbtError::UnknownTag(tag)),
        pos + 4 > data.len() && (tag == 7 || tag == 11 || tag == 12) ==> payload_at(
            data,
            pos,
            tag,
        ) matches Err((NbtError::UnexpectedEnd, _)),
        pos + 2 > data.len() ==> payload_at(data, pos, 8) matches Err(
            (NbtError::UnexpectedEnd, _),
        ),
        pos == data.len() ==> payload_at(data, pos, 10) matches Err((NbtError::UnexpectedEnd, _)),
        pos + 4 <= data.len() && data[pos + 3] >= 0x80 ==> {
            &&& payload_at(data, pos, 7) matches Err((NbtError::NegativeByteArrayLength, _))
            &&& payload_at(data, pos, 11) matches Err((NbtError::NegativeIntArrayLength, _))
            &&& payload_at(data, pos, 12) matches Err((NbtError::NegativeLongArrayLength, _))
        },
        pos + 5 <= data.len() && data[pos + 4] >= 0x80 ==> payload_at(data, pos, 9) matches Err(
            (NbtError::NegativeListLength, _),
        ),
        pos + 5 <= data.len() && data[pos + 4] < 0x80 && data[pos] == 0 ==> {
            &&& payload_at(data, pos, 9) matches Ok((Nbt::List(list), end))
            &&& list.len() == 0
            &&& end == pos + 5
        },
        pos < data.len() && data[pos] == 0 ==> {
            &&& payload_at(data, pos, 10) matches Ok((Nbt::Compound(entries), end))
            &&& entries.len() == 0
            &&& end == pos + 1
        },
{
    bytes::least_byte_first(data, pos);
    bytes::least_byte_first(data, pos + 1);
    assert(data[pos + 1 + 3] == data[pos + 4]);
}

} // verus!
