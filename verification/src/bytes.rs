//! Little-endian integers.

use vstd::prelude::*;

verus! {

/// The unsigned number in two little-endian bytes of `s`
pub open spec fn le16(s: Seq<u8>, at: int) -> int {
    s[at] + 0x100 * s[at + 1]
}

/// The unsigned number in four little-endian bytes of `s`
pub open spec fn le32(s: Seq<u8>, at: int) -> int {
    le16(s, at) + 0x1_0000 * le16(s, at + 2)
}

/// The unsigned number in eight little-endian bytes of `s`
pub open spec fn le64(s: Seq<u8>, at: int) -> int {
    le32(s, at) + 0x1_0000_0000 * le32(s, at + 4)
}

/// The 8-bit two's complement reading of a number below 2^8
pub open spec fn signed8(n: int) -> i8 {
    (if n < 0x80 { n } else { n - 0x100 }) as i8
}

/// The 16-bit two's complement reading of a number below 2^16
pub open spec fn signed16(n: int) -> i16 {
    (if n < 0x8000 { n } else { n - 0x1_0000 }) as i16
}

/// The 32-bit two's complement reading of a number below 2^32
pub open spec fn signed32(n: int) -> i32 {
    (if n < 0x8000_0000 { n } else { n - 0x1_0000_0000 }) as i32
}

/// The 64-bit two's complement reading of a number below 2^64
pub open spec fn signed64(n: int) -> i64 {
    (if n < 0x8000_0000_0000_0000 { n } else { n - 0x1_0000_0000_0000_0000 }) as i64
}

/// The number below 2^16 whose two's complement reading is `i`
pub open spec fn unsigned16(i: i16) -> int {
    if i < 0 { i + 0x1_0000 } else { i as int }
}

/// The number below 2^32 whose two's complement reading is `i`
pub open spec fn unsigned32(i: i32) -> int {
    if i < 0 { i + 0x1_0000_0000 } else { i as int }
}

/// The number below 2^64 whose two's complement reading is `i`
pub open spec fn unsigned64(i: i64) -> int {
    if i < 0 { i + 0x1_0000_0000_0000_0000 } else { i as int }
}

/// The two little-endian bytes of a number below 2^16
pub open spec fn le16_bytes(n: int) -> Seq<u8> {
    seq![(n % 0x100) as u8, (n / 0x100) as u8]
}

/// The four little-endian bytes of a number below 2^32
pub open spec fn le32_bytes(n: int) -> Seq<u8> {
    le16_bytes(n % 0x1_0000) + le16_bytes(n / 0x1_0000)
}

/// The eight little-endian bytes of a number below 2^64
pub open spec fn le64_bytes(n: int) -> Seq<u8> {
    le32_bytes(n % 0x1_0000_0000) + le32_bytes(n / 0x1_0000_0000)
}

/// Reading the two bytes of a number gives it back
pub proof fn le16_roundtrip(n: int, s: Seq<u8>, at: int)
    requires
        0 <= n < 0x1_0000,
        0 <= at,
        at + 2 <= s.len(),
        s.subrange(at, at + 2) == le16_bytes(n),
    ensures
        le16(s, at) == n,
{
    let t = s.subrange(at, at + 2);
    assert(t[0] == s[at] && t[1] == s[at + 1]);
}

/// Reading the four bytes of a number gives it back
pub proof fn le32_roundtrip(n: int, s: Seq<u8>, at: int)
    requires
        0 <= n < 0x1_0000_0000,
        0 <= at,
        at + 4 <= s.len(),
        s.subrange(at, at + 4) == le32_bytes(n),
    ensures
        le32(s, at) == n,
{
    let t = s.subrange(at, at + 4);
    assert(s.subrange(at, at + 2) =~= t.subrange(0, 2));
    assert(s.subrange(at + 2, at + 4) =~= t.subrange(2, 4));
    assert(t.subrange(0, 2) =~= le16_bytes(n % 0x1_0000));
    assert(t.subrange(2, 4) =~= le16_bytes(n / 0x1_0000));
    le16_roundtrip(n % 0x1_0000, s, at);
    le16_roundtrip(n / 0x1_0000, s, at + 2);
}

/// Reading the eight bytes of a number gives it back
pub proof fn le64_roundtrip(n: int, s: Seq<u8>, at: int)
    requires
        0 <= n < 0x1_0000_0000_0000_0000,
        0 <= at,
        at + 8 <= s.len(),
        s.subrange(at, at + 8) == le64_bytes(n),
    ensures
        le64(s, at) == n,
{
    let t = s.subrange(at, at + 8);
    assert(s.subrange(at, at + 4) =~= t.subrange(0, 4));
    assert(s.subrange(at + 4, at + 8) =~= t.subrange(4, 8));
    assert(t.subrange(0, 4) =~= le32_bytes(n % 0x1_0000_0000));
    assert(t.subrange(4, 8) =~= le32_bytes(n / 0x1_0000_0000));
    le32_roundtrip(n % 0x1_0000_0000, s, at);
    le32_roundtrip(n / 0x1_0000_0000, s, at + 4);
}

/// Reads two bytes as a number
pub fn u16_at(s: &[u8], at: usize) -> (r: u16)
    requires
        at + 2 <= s.len(),
    ensures
        r == le16(s@, at as int),
{
    s[at] as u16 + 0x100 * (s[at + 1] as u16)
}

/// Reads four bytes as a number
pub fn u32_at(s: &[u8], at: usize) -> (r: u32)
    requires
        at + 4 <= s.len(),
    ensures
        r == le32(s@, at as int),
{
    u16_at(s, at) as u32 + 0x1_0000 * (u16_at(s, at + 2) as u32)
}

/// Reads eight bytes as a number
pub fn u64_at(s: &[u8], at: usize) -> (r: u64)
    requires
        at + 8 <= s.len(),
    ensures
        r == le64(s@, at as int),
{
    u32_at(s, at) as u64 + 0x1_0000_0000 * (u32_at(s, at + 4) as u64)
}

/// Reinterprets a byte as a signed number
pub fn as_signed8(n: u8) -> (r: i8)
    ensures
        r == signed8(n as int),
{
    if n < 0x80 {
        n as i8
    } else {
        (n as i16 - 0x100) as i8
    }
}

/// Reinterprets a number as a signed number
pub fn as_signed16(n: u16) -> (r: i16)
    ensures
        r == signed16(n as int),
{
    if n < 0x8000 {
        n as i16
    } else {
        (n as i32 - 0x1_0000) as i16
    }
}

/// Reinterprets a number as a signed number
pub fn as_signed32(n: u32) -> (r: i32)
    ensures
        r == signed32(n as int),
{
    if n < 0x8000_0000 {
        n as i32
    } else {
        (n as i64 - 0x1_0000_0000) as i32
    }
}

/// Reinterprets a number as a signed number
pub fn as_signed64(n: u64) -> (r: i64)
    ensures
        r == signed64(n as int),
{
    if n < 0x8000_0000_0000_0000 {
        n as i64
    } else {
        (n as i128 - 0x1_0000_0000_0000_0000) as i64
    }
}

/// The first of the bytes of a number counts least
pub proof fn least_byte_first(s: Seq<u8>, at: int)
    ensures
        le16(s, at) == s[at] + 256 * s[at + 1],
        le32(s, at) == s[at] + 256 * s[at + 1] + 65_536 * s[at + 2]
            + 16_777_216 * s[at + 3],
        le64(s, at) == le32(s, at) + 4_294_967_296 * le32(s, at + 4),
{
    assert(s[at + 2 + 1] == s[at + 3]);
}

/// Signed numbers are stored in two's complement, from -1 as the greatest number downwards
pub proof fn signs_kept(a: i16, b: i32, c: i64, d: i8)
    ensures
        signed16(unsigned16(a)) == a,
        signed32(unsigned32(b)) == b,
        signed64(unsigned64(c)) == c,
        a < 0 ==> unsigned16(a) == 0xffff + 1 + a,
        b < 0 ==> unsigned32(b) == 0xffff_ffff + 1 + b,
        c < 0 ==> unsigned64(c) == 0xffff_ffff_ffff_ffff + 1 + c,
        a >= 0 ==> unsigned16(a) == a,
        b >= 0 ==> unsigned32(b) == b,
        c >= 0 ==> unsigned64(c) == c,
        d >= 0 ==> signed8(d as int) == d,
        d < 0 ==> signed8(0xff + 1 + d) == d,
{
}

} // verus!
