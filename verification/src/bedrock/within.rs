//! Reading NBT values does not depend on what surrounds them
//!
//! A value that is read from some data is read in the same way where that data
//! stands within longer data. So values that are written back to back are read
//! one after the other, and what stands behind them does not matter.

use crate::bedrock::nbt;
use crate::bedrock::nbt::{Nbt, NbtError, Parse};
use crate::bytes;
use vstd::prelude::*;

verus! {

/// The bytes `part` stand within `whole`, behind `skipped` other bytes
pub open spec fn within(part: Seq<u8>, whole: Seq<u8>, skipped: int) -> bool {
    &&& 0 <= skipped
    &&& skipped + part.len() <= whole.len()
    &&& forall|i: int| 0 <= i < part.len() ==> #[trigger] part[i] == whole[skipped + i]
}

/// What was read from `part` is also read where `part` stands within `whole`
///
/// Where `part` ends together with `whole`, this holds of failures, too.
pub open spec fn same_parse<T>(
    small: Parse<T>,
    large: Parse<T>,
    skipped: int,
    same_end: bool,
) -> bool {
    match small {
        Ok((v, p)) => large == Ok::<(T, int), (NbtError, int)>((v, p + skipped)),
        Err((e, p)) => same_end ==> large == Err::<(T, int), (NbtError, int)>((e, p + skipped)),
    }
}

/// `part` ends together with `whole`
pub open spec fn same_end(part: Seq<u8>, whole: Seq<u8>, skipped: int) -> bool {
    skipped + part.len() == whole.len()
}

proof fn numbers_within(part: Seq<u8>, whole: Seq<u8>, skipped: int, pos: int)
    requires
        within(part, whole, skipped),
        0 <= pos,
    ensures
        pos + 1 <= part.len() ==> whole[skipped + pos] == part[pos],
        pos + 2 <= part.len() ==> bytes::le16(whole, skipped + pos) == bytes::le16(part, pos),
        pos + 4 <= part.len() ==> bytes::le32(whole, skipped + pos) == bytes::le32(part, pos),
        pos + 8 <= part.len() ==> bytes::le64(whole, skipped + pos) == bytes::le64(part, pos),
{
    assert forall|k: int| 0 <= k < 8 && pos + k < part.len() implies #[trigger] whole[skipped + pos
        + k] == part[pos + k] by {
        assert(part[pos + k] == whole[skipped + (pos + k)]);
    }
    assert(pos + 1 <= part.len() ==> whole[skipped + pos + 0] == part[pos + 0]);
}

proof fn text_within(part: Seq<u8>, whole: Seq<u8>, skipped: int, pos: int)
    requires
        within(part, whole, skipped),
        0 <= pos,
    ensures
        same_parse(
            nbt::text_at(part, pos),
            nbt::text_at(whole, skipped + pos),
            skipped,
            same_end(part, whole, skipped),
        ),
{
    numbers_within(part, whole, skipped, pos);
    if pos + 2 <= part.len() {
        let len = bytes::le16(part, pos);
        let start = pos + 2;
        if start + len <= part.len() {
            assert(whole.subrange(skipped + start, skipped + start + len) =~= part.subrange(
                start,
                start + len,
            ));
        }
    }
}

proof fn length_within(
    part: Seq<u8>,
    whole: Seq<u8>,
    skipped: int,
    pos: int,
    negative: NbtError,
)
    requires
        within(part, whole, skipped),
        0 <= pos,
    ensures
        same_parse(
            nbt::length_at(part, pos, negative),
            nbt::length_at(whole, skipped + pos, negative),
            skipped,
            same_end(part, whole, skipped),
        ),
{
    numbers_within(part, whole, skipped, pos);
}

proof fn arrays_within(part: Seq<u8>, whole: Seq<u8>, skipped: int, pos: int, count: int)
    requires
        within(part, whole, skipped),
        0 <= pos,
        0 <= count,
    ensures
        pos + count <= part.len() ==> whole.subrange(skipped + pos, skipped + pos + count)
            == part.subrange(pos, pos + count),
        pos + 4 * count <= part.len() ==> nbt::ints_at(whole, skipped + pos, count)
            == nbt::ints_at(part, pos, count),
        pos + 8 * count <= part.len() ==> nbt::longs_at(whole, skipped + pos, count)
            == nbt::longs_at(part, pos, count),
{
    if pos + count <= part.len() {
        assert(whole.subrange(skipped + pos, skipped + pos + count) =~= part.subrange(
            pos,
            pos + count,
        ));
    }
    if pos + 4 * count <= part.len() {
        assert forall|i: int| 0 <= i < count implies #[trigger] nbt::ints_at(
            whole,
            skipped + pos,
            count,
        )[i] == nbt::ints_at(part, pos, count)[i] by {
            numbers_within(part, whole, skipped, pos + 4 * i);
        }
        assert(nbt::ints_at(whole, skipped + pos, count) =~= nbt::ints_at(part, pos, count));
    }
    if pos + 8 * count <= part.len() {
        assert forall|i: int| 0 <= i < count implies #[trigger] nbt::longs_at(
            whole,
            skipped + pos,
            count,
        )[i] == nbt::longs_at(part, pos, count)[i] by {
            numbers_within(part, whole, skipped, pos + 8 * i);
        }
        assert(nbt::longs_at(whole, skipped + pos, count) =~= nbt::longs_at(part, pos, count));
    }
}

#[verifier::spinoff_prover]
proof fn plain_within(part: Seq<u8>, whole: Seq<u8>, skipped: int, pos: int, tag: u8)
    requires
        within(part, whole, skipped),
        0 <= pos <= part.len(),
        tag != 9 && tag != 10,
    ensures
        same_parse(
            nbt::payload_at(part, pos, tag),
            nbt::payload_at(whole, skipped + pos, tag),
            skipped,
            same_end(part, whole, skipped),
        ),
{
    numbers_within(part, whole, skipped, pos);
    if tag == 7 {
        length_within(part, whole, skipped, pos, NbtError::NegativeByteArrayLength);
        if let Ok((n, p)) = nbt::length_at(part, pos, NbtError::NegativeByteArrayLength) {
            arrays_within(part, whole, skipped, p, n);
        }
    } else if tag == 8 {
        text_within(part, whole, skipped, pos);
    } else if tag == 11 {
        length_within(part, whole, skipped, pos, NbtError::NegativeIntArrayLength);
        if let Ok((n, p)) = nbt::length_at(part, pos, NbtError::NegativeIntArrayLength) {
            arrays_within(part, whole, skipped, p, n);
        }
    } else if tag == 12 {
        length_within(part, whole, skipped, pos, NbtError::NegativeLongArrayLength);
        if let Ok((n, p)) = nbt::length_at(part, pos, NbtError::NegativeLongArrayLength) {
            arrays_within(part, whole, skipped, p, n);
        }
    }
}

/// A value is read in the same way where its data stands within longer data
#[verifier::spinoff_prover]
pub proof fn payload_within(part: Seq<u8>, whole: Seq<u8>, skipped: int, pos: int, tag: u8)
    requires
        within(part, whole, skipped),
        0 <= pos <= part.len(),
    ensures
        same_parse(
            nbt::payload_at(part, pos, tag),
            nbt::payload_at(whole, skipped + pos, tag),
            skipped,
            same_end(part, whole, skipped),
        ),
    decreases part.len() - pos, 1int,
{
    if tag == 9 {
        if pos + 1 <= part.len() {
            assert(whole[skipped + pos] == part[pos]);
            length_within(part, whole, skipped, pos + 1, NbtError::NegativeListLength);
            if let Ok((n, p)) = nbt::length_at(part, pos + 1, NbtError::NegativeListLength) {
                elements_within(part, whole, skipped, p, part[pos], n, Seq::empty());
            }
        }
    } else if tag == 10 {
        entries_within(part, whole, skipped, pos, Seq::empty());
    } else {
        plain_within(part, whole, skipped, pos, tag);
    }
}

proof fn elements_within(
    part: Seq<u8>,
    whole: Seq<u8>,
    skipped: int,
    pos: int,
    tag: u8,
    count: int,
    done: Seq<Nbt>,
)
    requires
        within(part, whole, skipped),
        0 <= pos <= part.len(),
    ensures
        same_parse(
            nbt::elements_at(part, pos, tag, count, done),
            nbt::elements_at(whole, skipped + pos, tag, count, done),
            skipped,
            same_end(part, whole, skipped),
        ),
    decreases part.len() - pos, 2int,
{
    if count > 0 && tag != 0 {
        payload_within(part, whole, skipped, pos, tag);
        nbt::payload_advances(part, pos, tag);
        if let Ok((v, p)) = nbt::payload_at(part, pos, tag) {
            elements_within(part, whole, skipped, p, tag, count - 1, done.push(v));
        }
    }
}

#[verifier::spinoff_prover]
proof fn entries_within(
    part: Seq<u8>,
    whole: Seq<u8>,
    skipped: int,
    pos: int,
    done: Seq<(Seq<char>, Nbt)>,
)
    requires
        within(part, whole, skipped),
        0 <= pos <= part.len(),
    ensures
        same_parse(
            nbt::entries_at(part, pos, done),
            nbt::entries_at(whole, skipped + pos, done),
            skipped,
            same_end(part, whole, skipped),
        ),
    decreases part.len() - pos, 0int,
{
    if pos + 1 <= part.len() {
        let tag = part[pos];
        assert(whole[skipped + pos] == tag);
        if tag != 0 {
            text_within(part, whole, skipped, pos + 1);
            if let Ok((name, p)) = nbt::text_at(part, pos + 1) {
                payload_within(part, whole, skipped, p, tag);
                nbt::payload_advances(part, p, tag);
                if let Ok((v, q)) = nbt::payload_at(part, p, tag) {
                    entries_within(part, whole, skipped, q, done.push((name, v)));
                }
            }
        }
    }
}

/// A root value is read in the same way where its data stands within longer data
///
/// That there is none is known only where the data ends with the longer data, or where an
/// end tag stands.
pub proof fn root_within(part: Seq<u8>, whole: Seq<u8>, skipped: int, pos: int)
    requires
        within(part, whole, skipped),
        0 <= pos <= part.len(),
        pos < part.len() || same_end(part, whole, skipped),
    ensures
        same_parse(
            nbt::root_at(part, pos),
            nbt::root_at(whole, skipped + pos),
            skipped,
            same_end(part, whole, skipped),
        ),
{
    numbers_within(part, whole, skipped, pos);
    if pos < part.len() && part[pos] != 0 {
        text_within(part, whole, skipped, pos + 1);
        if let Ok((_name, p)) = nbt::text_at(part, pos + 1) {
            payload_within(part, whole, skipped, p, part[pos]);
        }
    }
}

/// From `pos` on, the data holds nothing but complete root values
pub open spec fn complete_roots(data: Seq<u8>, pos: int) -> bool
    decreases data.len() - pos,
{
    pos == data.len() || match nbt::root_at(data, pos) {
        Ok((Some(_), p)) => pos < p <= data.len() && complete_roots(data, p),
        _ => false,
    }
}

proof fn roots_prepended(data: Seq<u8>, pos: int, done: Seq<Nbt>)
    ensures
        nbt::roots_at(data, pos, done) == match nbt::roots_at(data, pos, Seq::empty()) {
            Ok(values) => Ok::<Seq<Nbt>, NbtError>(done + values),
            Err(e) => Err(e),
        },
    decreases data.len() - pos,
{
    assert(done + Seq::<Nbt>::empty() =~= done);
    if let Ok((Some(v), p)) = nbt::root_at(data, pos) {
        if pos < p <= data.len() {
            roots_prepended(data, p, done.push(v));
            roots_prepended(data, p, Seq::empty().push(v));
            if let Ok(values) = nbt::roots_at(data, p, Seq::empty()) {
                assert(done.push(v) + values =~= done + (Seq::empty().push(v) + values));
            }
        }
    }
}

proof fn roots_behind(a: Seq<u8>, b: Seq<u8>, pos: int, done: Seq<Nbt>)
    requires
        0 <= pos <= b.len(),
    ensures
        nbt::roots_at(a + b, a.len() + pos, done) == nbt::roots_at(b, pos, done),
    decreases b.len() - pos,
{
    root_within(b, a + b, a.len() as int, pos);
    if let Ok((Some(v), p)) = nbt::root_at(b, pos) {
        if pos < p <= b.len() {
            roots_behind(a, b, p, done.push(v));
        }
    }
}

proof fn roots_before(a: Seq<u8>, b: Seq<u8>, pos: int, done: Seq<Nbt>)
    requires
        0 <= pos <= a.len(),
        complete_roots(a, pos),
    ensures
        nbt::roots_at(a, pos, done) matches Ok(values) && nbt::roots_at(a + b, pos, done)
            == nbt::roots_at(a + b, a.len() as int, values),
    decreases a.len() - pos,
{
    if pos < a.len() {
        root_within(a, a + b, 0, pos);
        if let Ok((Some(v), p)) = nbt::root_at(a, pos) {
            roots_before(a, b, p, done.push(v));
        }
    }
}

/// Root values that are written back to back are read one after the other: behind complete
/// root values, whatever follows is read as it would be on its own, and fails as it would
pub proof fn roots_concatenated(a: Seq<u8>, b: Seq<u8>)
    requires
        complete_roots(a, 0),
    ensures
        nbt::roots_at(a, 0, Seq::empty()) is Ok,
        nbt::roots_at(a + b, 0, Seq::empty()) == match nbt::roots_at(b, 0, Seq::empty()) {
            Ok(values) => Ok::<Seq<Nbt>, NbtError>(
                nbt::roots_at(a, 0, Seq::empty())->Ok_0 + values,
            ),
            Err(e) => Err(e),
        },
{
    roots_before(a, b, 0, Seq::empty());
    let first = nbt::roots_at(a, 0, Seq::empty())->Ok_0;
    roots_behind(a, b, 0, first);
    roots_prepended(b, 0, first);
}

/// Nothing is read from no data
pub proof fn no_roots()
    ensures
        nbt::roots_at(Seq::empty(), 0, Seq::empty()) == Ok::<Seq<Nbt>, NbtError>(Seq::empty()),
{
}

/// A zero in place of the tag of a root value is padding: it ends the list of values, whatever
/// follows
pub proof fn padding_ends_roots(a: Seq<u8>, rest: Seq<u8>)
    requires
        complete_roots(a, 0),
    ensures
        nbt::roots_at(a + seq![0u8] + rest, 0, Seq::empty()) == nbt::roots_at(a, 0, Seq::empty()),
{
    let tail = seq![0u8] + rest;
    assert(a + seq![0u8] + rest =~= a + tail);
    assert(tail[0] == 0);
    roots_concatenated(a, tail);
    let first = nbt::roots_at(a, 0, Seq::empty())->Ok_0;
    assert(first + Seq::<Nbt>::empty() =~= first);
}

} // verus!
