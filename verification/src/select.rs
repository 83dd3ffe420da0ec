//! Selections from lists

use vstd::prelude::*;

verus! {

/// What a function gives for the items of a list, in their order, without those that it
/// gives nothing for
pub open spec fn picked<T, U>(s: Seq<T>, f: spec_fn(T) -> Option<U>) -> Seq<U>
    decreases s.len(),
{
    if s.len() == 0 {
        Seq::empty()
    } else {
        match f(s.last()) {
            Some(u) => picked(s.drop_last(), f).push(u),
            None => picked(s.drop_last(), f),
        }
    }
}

/// A selection leaves out what the function gives nothing for, and maps everything else
pub proof fn picked_filters<T, U>(s: Seq<T>, f: spec_fn(T) -> Option<U>)
    ensures
        picked(s, f) == s.filter_map(f),
    decreases s.len(),
{
    if s.len() > 0 {
        picked_filters(s.drop_last(), f);
        if let Some(u) = f(s.last()) {
            assert(picked(s.drop_last(), f).push(u) =~= picked(s.drop_last(), f) + seq![u]);
        }
    }
}

/// A function that maps the items of a kind selects the items of that kind and maps them
pub proof fn picked_of_kind<T, U>(
    s: Seq<T>,
    f: spec_fn(T) -> Option<U>,
    kind: spec_fn(T) -> bool,
    map: spec_fn(T) -> U,
)
    requires
        forall|x: T| #[trigger] f(x) == (if kind(x) { Some(map(x)) } else { None }),
    ensures
        picked(s, f) == s.filter(kind).map_values(map),
    decreases s.len(),
{
    reveal(Seq::filter);
    if s.len() > 0 {
        let rest = s.drop_last();
        picked_of_kind(rest, f, kind, map);
        assert(f(s.last()) == (if kind(s.last()) { Some(map(s.last())) } else { None }));
        if kind(s.last()) {
            assert(rest.filter(kind).push(s.last()).map_values(map) =~= rest.filter(
                kind,
            ).map_values(map).push(map(s.last())));
        }
    }
    assert(picked(s, f) =~= s.filter(kind).map_values(map));
}

/// A selection from a list with one more item
pub proof fn picked_pushed<T, U>(s: Seq<T>, x: T, f: spec_fn(T) -> Option<U>)
    ensures
        picked(s.push(x), f) == (match f(x) {
            Some(u) => picked(s, f).push(u),
            None => picked(s, f),
        }),
{
    assert(s.push(x).drop_last() =~= s);
}

/// Lists that a function gives the same for, item by item, have the same selection
pub proof fn picked_alike<T, U>(s: Seq<T>, t: Seq<T>, f: spec_fn(T) -> Option<U>)
    requires
        s.len() == t.len(),
        forall|i: int| 0 <= i < s.len() ==> #[trigger] f(s[i]) == f(t[i]),
    ensures
        picked(s, f) == picked(t, f),
    decreases s.len(),
{
    if s.len() > 0 {
        assert forall|i: int| 0 <= i < s.drop_last().len() implies #[trigger] f(s.drop_last()[i])
            == f(t.drop_last()[i]) by {
            assert(f(s[i]) == f(t[i]));
        }
        picked_alike(s.drop_last(), t.drop_last(), f);
        assert(f(s[s.len() - 1]) == f(t[s.len() - 1]));
    }
}

proof fn picked_joined<T, U>(a: Seq<T>, b: Seq<T>, f: spec_fn(T) -> Option<U>)
    ensures
        picked(a + b, f) == picked(a, f) + picked(b, f),
    decreases b.len(),
{
    if b.len() == 0 {
        assert(a + b =~= a);
        assert(picked(a, f) + picked(b, f) =~= picked(a, f));
    } else {
        assert((a + b).drop_last() =~= a + b.drop_last());
        picked_joined(a, b.drop_last(), f);
        match f(b.last()) {
            Some(u) => {
                assert(picked(a, f) + picked(b.drop_last(), f).push(u) =~= (picked(a, f) + picked(
                    b.drop_last(),
                    f,
                )).push(u));
            },
            None => {},
        }
    }
}

proof fn picked_without<T, U>(s: Seq<T>, i: int, f: spec_fn(T) -> Option<U>)
    requires
        0 <= i < s.len(),
    ensures
        picked(s, f).to_multiset() == (match f(s[i]) {
            Some(u) => picked(s.remove(i), f).to_multiset().insert(u),
            None => picked(s.remove(i), f).to_multiset(),
        }),
{
    let a = s.take(i);
    let b = s.skip(i + 1);
    assert(s =~= a.push(s[i]) + b);
    assert(s.remove(i) =~= a + b);
    picked_joined(a.push(s[i]), b, f);
    picked_joined(a, b, f);
    picked_pushed(a, s[i], f);
    vstd::seq_lib::lemma_multiset_commutative(picked(a, f), picked(b, f));
    match f(s[i]) {
        Some(u) => {
            vstd::seq_lib::lemma_multiset_commutative(picked(a, f).push(u), picked(b, f));
            picked(a, f).to_multiset_ensures();
            assert(picked(a, f).to_multiset().insert(u).add(picked(b, f).to_multiset())
                =~= picked(a, f).to_multiset().add(picked(b, f).to_multiset()).insert(u));
        },
        None => {},
    }
}

/// The values that are selected do not depend on the order of the list
pub proof fn picked_in_any_order<T, U>(a: Seq<T>, b: Seq<T>, f: spec_fn(T) -> Option<U>)
    requires
        a.to_multiset() == b.to_multiset(),
    ensures
        picked(a, f).to_multiset() == picked(b, f).to_multiset(),
    decreases a.len(),
{
    broadcast use vstd::seq_lib::group_to_multiset_ensures;

    assert(a.to_multiset().len() == a.len());
    assert(b.to_multiset().len() == b.len());
    if a.len() > 0 {
        let last = a.len() - 1;
        assert(a.contains(a[last]));
        assert(b.to_multiset().count(a[last]) > 0);
        let i = choose|i: int| 0 <= i < b.len() && b[i] == a[last];
        vstd::seq_lib::to_multiset_remove(a, last);
        vstd::seq_lib::to_multiset_remove(b, i);
        picked_in_any_order(a.remove(last), b.remove(i), f);
        picked_without(a, last, f);
        picked_without(b, i, f);
    } else {
        assert(a =~= b);
    }
}

/// A list without repetitions of neighbouring items
pub open spec fn deduped<T>(s: Seq<T>) -> Seq<T>
    decreases s.len(),
{
    if s.len() <= 1 {
        s
    } else if s[s.len() - 2] == s.last() {
        deduped(s.drop_last())
    } else {
        deduped(s.drop_last()).push(s.last())
    }
}

/// Leaving out repetitions of neighbouring items keeps one of each, and no two neighbouring
/// items are equal then
pub proof fn deduped_properties<T>(s: Seq<T>)
    ensures
        forall|x: T| deduped(s).contains(x) <==> #[trigger] s.contains(x),
        forall|i: int| 0 < i < deduped(s).len() ==> #[trigger] deduped(s)[i] != deduped(s)[i - 1],
        s.len() > 0 ==> deduped(s).len() > 0 && deduped(s).last() == s.last(),
    decreases s.len(),
{
    if s.len() > 1 {
        let t = s.drop_last();
        deduped_properties(t);
        assert forall|x: T| deduped(s).contains(x) <==> #[trigger] s.contains(x) by {
            assert(t.contains(x) <==> deduped(t).contains(x));
            if s.contains(x) && !t.contains(x) {
                let i = choose|i: int| 0 <= i < s.len() && s[i] == x;
                if i < t.len() {
                    assert(t[i] == x);
                }
                assert(deduped(s).last() == x);
                assert(deduped(s)[deduped(s).len() - 1] == x);
            }
            if t.contains(x) {
                let i = choose|i: int| 0 <= i < t.len() && t[i] == x;
                assert(s[i] == x);
                let j = choose|j: int| 0 <= j < deduped(t).len() && deduped(t)[j] == x;
                assert(deduped(s)[j] == x);
            }
            if deduped(s).contains(x) {
                let j = choose|j: int| 0 <= j < deduped(s).len() && deduped(s)[j] == x;
                if j < deduped(t).len() {
                    assert(deduped(t)[j] == x);
                    assert(deduped(t).contains(x));
                } else {
                    assert(s[s.len() - 1] == x);
                }
            }
        }
    }
}

/// Leaves out repetitions of neighbouring coordinate pairs
pub fn dedup(v: &mut Vec<(i32, i32)>)
    ensures
        final(v)@ == deduped(old(v)@),
{
    let mut out: Vec<(i32, i32)> = Vec::new();
    let mut i: usize = 0;
    while i < v.len()
        invariant
            i <= v.len(),
            v@ == old(v)@,
            out@ == deduped(v@.take(i as int)),
        decreases v.len() - i,
    {
        let item = v[i];
        let ghost before = v@.take(i as int);
        assert(v@.take(i + 1).drop_last() =~= before);
        if i == 0 || v[i - 1].0 != item.0 || v[i - 1].1 != item.1 {
            out.push(item);
        }
        assert(out@ =~= deduped(v@.take(i + 1)));
        i = i + 1;
    }
    assert(v@.take(i as int) =~= v@);
    core::mem::swap(&mut out, v);
}

} // verus!
