//! Stable sorting by a total order.

use vstd::prelude::*;

verus! {

/// A type whose values are ordered
///
/// Values that precede each other need not be equal: a type may be ordered by a
/// part of its fields only.
pub trait Ordered: Sized {
    /// `a` precedes `b`, or has the same place in the order
    spec fn precedes(a: Self, b: Self) -> bool;

    /// Any two values are ordered
    proof fn total(a: Self, b: Self)
        ensures
            Self::precedes(a, b) || Self::precedes(b, a),
    ;

    /// The order is transitive
    proof fn transitive(a: Self, b: Self, c: Self)
        requires
            Self::precedes(a, b),
            Self::precedes(b, c),
        ensures
            Self::precedes(a, c),
    ;

    /// Returns whether `self` precedes `other`, or has the same place
    fn at_most(&self, other: &Self) -> (r: bool)
        ensures
            r == Self::precedes(*self, *other),
    ;
}

/// No value comes after one that it precedes
pub open spec fn is_sorted<T: Ordered>(s: Seq<T>) -> bool {
    forall|i: int, j: int| 0 <= i <= j < s.len() ==> T::precedes(#[trigger] s[i], #[trigger] s[j])
}

/// `s` with `x` put in before the first value that does not precede it
pub open spec fn inserted<T: Ordered>(s: Seq<T>, x: T) -> Seq<T>
    decreases s.len(),
{
    if s.len() == 0 || !T::precedes(s[0], x) {
        seq![x] + s
    } else {
        seq![s[0]] + inserted(s.skip(1), x)
    }
}

/// The values of `s` in order, those with the same place in the order of `s`
pub open spec fn sorted<T: Ordered>(s: Seq<T>) -> Seq<T>
    decreases s.len(),
{
    if s.len() == 0 {
        s
    } else {
        inserted(sorted(s.drop_last()), s.last())
    }
}

/// Two sequences merged, values of `a` first where both have the same place
pub open spec fn merged<T: Ordered>(a: Seq<T>, b: Seq<T>) -> Seq<T>
    decreases a.len() + b.len(),
{
    if a.len() == 0 {
        b
    } else if b.len() == 0 {
        a
    } else if T::precedes(a[0], b[0]) {
        seq![a[0]] + merged(a.skip(1), b)
    } else {
        seq![b[0]] + merged(a, b.skip(1))
    }
}

/// Inserting into a merge is inserting into its second part
proof fn inserted_merged<T: Ordered>(a: Seq<T>, b: Seq<T>, x: T)
    ensures
        inserted(merged(a, b), x) == merged(a, inserted(b, x)),
    decreases a.len() + b.len(),
{
    if a.len() == 0 {
    } else if b.len() == 0 {
        assert(inserted(b, x) =~= seq![x]);
        assert(seq![x].skip(1) =~= b);
        if T::precedes(a[0], x) {
            inserted_merged(a.skip(1), b, x);
            assert(merged(a.skip(1), b) =~= a.skip(1));
        } else {
            assert(merged(a, b) =~= a);
        }
    } else if T::precedes(a[0], b[0]) {
        let rest = merged(a.skip(1), b);
        let whole = merged(a, b);
        assert(whole[0] == a[0]);
        assert(whole.skip(1) =~= rest);
        if T::precedes(a[0], x) {
            inserted_merged(a.skip(1), b, x);
            assert(inserted(b, x)[0] == x || inserted(b, x)[0] == b[0]);
        } else {
            if T::precedes(b[0], x) {
                T::transitive(a[0], b[0], x);
            }
            assert(inserted(b, x)[0] == x);
            assert(inserted(b, x).skip(1) =~= b);
        }
    } else {
        let rest = merged(a, b.skip(1));
        let whole = merged(a, b);
        assert(whole[0] == b[0]);
        assert(whole.skip(1) =~= rest);
        if T::precedes(b[0], x) {
            inserted_merged(a, b.skip(1), x);
            assert(inserted(b, x)[0] == b[0]);
            assert(inserted(b, x).skip(1) =~= inserted(b.skip(1), x));
        } else {
            assert(inserted(b, x)[0] == x);
            assert(inserted(b, x).skip(1) =~= b);
            if T::precedes(a[0], x) {
                T::total(x, b[0]);
                T::transitive(a[0], x, b[0]);
            }
        }
    }
}

/// Sorting both halves and merging them sorts the whole
proof fn merged_sorted<T: Ordered>(a: Seq<T>, b: Seq<T>)
    ensures
        merged(sorted(a), sorted(b)) == sorted(a + b),
    decreases b.len(),
{
    if b.len() == 0 {
        assert(a + b =~= a);
        assert(merged(sorted(a), sorted(b)) =~= sorted(a));
    } else {
        merged_sorted(a, b.drop_last());
        inserted_merged(sorted(a), sorted(b.drop_last()), b.last());
        assert((a + b).drop_last() =~= a + b.drop_last());
        assert((a + b).last() == b.last());
    }
}

/// Inserting adds one value and keeps the order
proof fn inserted_properties<T: Ordered>(s: Seq<T>, x: T)
    requires
        is_sorted(s),
    ensures
        is_sorted(inserted(s, x)),
        inserted(s, x).to_multiset() == s.to_multiset().insert(x),
        inserted(s, x).len() == s.len() + 1,
        inserted(s, x).len() > 0,
        inserted(s, x)[0] == x || s.len() > 0 && inserted(s, x)[0] == s[0],
    decreases s.len(),
{
    broadcast use vstd::seq_lib::group_to_multiset_ensures;

    let r = inserted(s, x);
    if s.len() == 0 || !T::precedes(s[0], x) {
        assert(r =~= seq![x] + s);
        vstd::seq_lib::lemma_multiset_commutative(seq![x], s);
        assert(seq![x] =~= Seq::<T>::empty().push(x));
        assert(r.to_multiset() =~= s.to_multiset().insert(x));
        assert forall|i: int, j: int| 0 <= i <= j < r.len() implies T::precedes(
            #[trigger] r[i],
            #[trigger] r[j],
        ) by {
            T::total(x, x);
            if i == 0 && j > 0 {
                T::total(x, s[0]);
                assert(r[j] == s[j - 1]);
                assert(T::precedes(s[0], s[j - 1]));
                T::transitive(x, s[0], s[j - 1]);
            } else if i > 0 {
                assert(r[i] == s[i - 1] && r[j] == s[j - 1]);
            }
        }
    } else {
        let t = s.skip(1);
        assert forall|i: int, j: int| 0 <= i <= j < t.len() implies T::precedes(
            #[trigger] t[i],
            #[trigger] t[j],
        ) by {
            assert(t[i] == s[i + 1] && t[j] == s[j + 1]);
        }
        inserted_properties(t, x);
        let q = inserted(t, x);
        assert(r =~= seq![s[0]] + q);
        vstd::seq_lib::lemma_multiset_commutative(seq![s[0]], q);
        vstd::seq_lib::lemma_multiset_commutative(seq![s[0]], t);
        assert(s =~= seq![s[0]] + t);
        assert(r.to_multiset() =~= s.to_multiset().insert(x));
        assert forall|i: int, j: int| 0 <= i <= j < r.len() implies T::precedes(
            #[trigger] r[i],
            #[trigger] r[j],
        ) by {
            T::total(s[0], s[0]);
            if i == 0 && j > 0 {
                assert(r[j] == q[j - 1]);
                assert(T::precedes(q[0], q[j - 1]));
                if t.len() > 0 {
                    assert(T::precedes(s[0], s[1]));
                    assert(t[0] == s[1]);
                }
                T::transitive(s[0], q[0], q[j - 1]);
            } else if i > 0 {
                assert(r[i] == q[i - 1] && r[j] == q[j - 1]);
            }
        }
    }
}

/// Sorting keeps every value, as often as it occurs, and puts them in order
pub proof fn sorted_properties<T: Ordered>(s: Seq<T>)
    ensures
        is_sorted(sorted(s)),
        sorted(s).to_multiset() == s.to_multiset(),
        sorted(s).len() == s.len(),
    decreases s.len(),
{
    broadcast use vstd::seq_lib::group_to_multiset_ensures;

    if s.len() > 0 {
        sorted_properties(s.drop_last());
        inserted_properties(sorted(s.drop_last()), s.last());
        assert(s.drop_last().push(s.last()) =~= s);
    }
}

/// Puts the values of a list in the opposite order
pub(crate) fn reversed<T>(v: Vec<T>) -> (r: Vec<T>)
    ensures
        r@ == v@.reverse(),
{
    let mut rest = v;
    let mut out: Vec<T> = Vec::new();
    while rest.len() > 0
        invariant
            out@ + rest@.reverse() == v@.reverse(),
        decreases rest.len(),
    {
        let ghost before = rest@;
        let ghost so_far = out@;
        let x = rest.pop();
        match x {
            Some(x) => {
                out.push(x);
                assert(out@ + rest@.reverse() =~= so_far + before.reverse());
            },
            None => {},
        }
    }
    assert(out@ + rest@.reverse() =~= out@);
    out
}

/// Merges two lists, each given with its first value at the end
fn merge_stacks<T: Ordered>(a: Vec<T>, b: Vec<T>) -> (r: Vec<T>)
    ensures
        r@ == merged(a@.reverse(), b@.reverse()),
{
    let mut a = a;
    let mut b = b;
    let mut out: Vec<T> = Vec::new();
    let ghost whole = merged(a@.reverse(), b@.reverse());
    assert(out@ + merged(a@.reverse(), b@.reverse()) =~= whole);
    while a.len() > 0 || b.len() > 0
        invariant
            out@ + merged(a@.reverse(), b@.reverse()) == whole,
        decreases a.len() + b.len(),
    {
        let ghost ra = a@.reverse();
        let ghost rb = b@.reverse();
        let ghost so_far = out@;
        let from_a: bool = if a.len() == 0 {
            false
        } else if b.len() == 0 {
            true
        } else {
            a[a.len() - 1].at_most(&b[b.len() - 1])
        };
        if from_a {
            let x = a.pop();
            match x {
                Some(x) => {
                    out.push(x);
                    assert(a@.reverse() =~= ra.skip(1));
                    assert(ra =~= seq![x] + ra.skip(1));
                    assert(merged(ra, rb) =~= seq![x] + merged(ra.skip(1), rb));
                    assert(out@ + merged(a@.reverse(), rb) =~= so_far + merged(ra, rb));
                },
                None => {},
            }
        } else {
            let x = b.pop();
            match x {
                Some(x) => {
                    out.push(x);
                    assert(b@.reverse() =~= rb.skip(1));
                    assert(rb =~= seq![x] + rb.skip(1));
                    assert(merged(ra, rb) =~= seq![x] + merged(ra, rb.skip(1)));
                    assert(out@ + merged(ra, b@.reverse()) =~= so_far + merged(ra, rb));
                },
                None => {},
            }
        }
    }
    assert(a@.reverse() =~= Seq::<T>::empty());
    assert(b@.reverse() =~= Seq::<T>::empty());
    assert(out@ =~= whole);
    out
}

/// Sorts a list; values with the same place keep their order
pub fn sort<T: Ordered>(v: Vec<T>) -> (r: Vec<T>)
    ensures
        r@ == sorted(v@),
    decreases v.len(),
{
    let n: usize = v.len();
    if n <= 1 {
        proof {
            reveal_with_fuel(sorted, 2);
            assert(sorted(v@) =~= v@);
        }
        return v;
    }
    let mut front = v;
    let ghost all = v@;
    let back = front.split_off(n / 2);
    let ghost first = front@;
    let ghost second = back@;
    assert(all =~= first + second);
    let a = sort(front);
    let b = sort(back);
    proof {
        merged_sorted(first, second);
    }
    let ra = reversed(a);
    let rb = reversed(b);
    assert(ra@.reverse() =~= sorted(first));
    assert(rb@.reverse() =~= sorted(second));
    merge_stacks(ra, rb)
}

/// Values of a list with the same place in the order are equal
pub open spec fn strict<T: Ordered>(s: Seq<T>) -> bool {
    forall|i: int, j: int|
        0 <= i < s.len() && 0 <= j < s.len() && T::precedes(#[trigger] s[i], #[trigger] s[j])
            && T::precedes(s[j], s[i]) ==> s[i] == s[j]
}

proof fn sorted_unique<T: Ordered>(a: Seq<T>, b: Seq<T>)
    requires
        strict(a),
        is_sorted(a),
        is_sorted(b),
        a.to_multiset() == b.to_multiset(),
    ensures
        a == b,
    decreases a.len(),
{
    broadcast use vstd::seq_lib::group_to_multiset_ensures;

    if a.len() == 0 {
        assert(b.len() == 0) by {
            assert(a.to_multiset().len() == a.len());
            assert(b.to_multiset().len() == b.len());
        }
        assert(a =~= b);
    } else {
        assert(a.to_multiset().len() == a.len());
        assert(b.to_multiset().len() == b.len());
        assert(b.contains(a[0])) by {
            assert(a.contains(a[0]));
            assert(a.to_multiset().count(a[0]) > 0);
        }
        assert(a.contains(b[0])) by {
            assert(b.contains(b[0]));
            assert(b.to_multiset().count(b[0]) > 0);
        }
        let i = choose|i: int| 0 <= i < b.len() && b[i] == a[0];
        let j = choose|j: int| 0 <= j < a.len() && a[j] == b[0];
        assert(T::precedes(b[0], b[i]));
        assert(T::precedes(a[0], a[j]));
        T::total(a[0], a[0]);
        assert(T::precedes(a[j], a[0]));
        assert(a[0] == b[0]);
        let ra = a.remove(0);
        let rb = b.remove(0);
        assert(ra =~= a.skip(1));
        assert(rb =~= b.skip(1));
        vstd::seq_lib::to_multiset_remove(a, 0);
        vstd::seq_lib::to_multiset_remove(b, 0);
        assert forall|p: int, q: int| 0 <= p <= q < ra.len() implies T::precedes(
            #[trigger] ra[p],
            #[trigger] ra[q],
        ) by {
            assert(ra[p] == a[p + 1] && ra[q] == a[q + 1]);
        }
        assert forall|p: int, q: int| 0 <= p <= q < rb.len() implies T::precedes(
            #[trigger] rb[p],
            #[trigger] rb[q],
        ) by {
            assert(rb[p] == b[p + 1] && rb[q] == b[q + 1]);
        }
        assert forall|p: int, q: int|
            0 <= p < ra.len() && 0 <= q < ra.len() && T::precedes(
                #[trigger] ra[p],
                #[trigger] ra[q],
            ) && T::precedes(ra[q], ra[p]) implies ra[p] == ra[q] by {
            assert(ra[p] == a[p + 1] && ra[q] == a[q + 1]);
        }
        sorted_unique(ra, rb);
        assert(a =~= seq![a[0]] + ra);
        assert(b =~= seq![b[0]] + rb);
    }
}

/// Where values with the same place in the order are equal, the result of sorting does not
/// depend on the order in which the values came
pub proof fn sorted_deterministic<T: Ordered>(a: Seq<T>, b: Seq<T>)
    requires
        strict(a),
        a.to_multiset() == b.to_multiset(),
    ensures
        sorted(a) == sorted(b),
{
    broadcast use vstd::seq_lib::group_to_multiset_ensures;

    sorted_properties(a);
    sorted_properties(b);
    let s = sorted(a);
    assert forall|p: int, q: int|
        0 <= p < s.len() && 0 <= q < s.len() && T::precedes(#[trigger] s[p], #[trigger] s[q])
            && T::precedes(s[q], s[p]) implies s[p] == s[q] by {
        assert(s.contains(s[p]) && s.contains(s[q]));
        assert(a.to_multiset().count(s[p]) > 0 && a.to_multiset().count(s[q]) > 0);
        let i = choose|i: int| 0 <= i < a.len() && a[i] == s[p];
        let j = choose|j: int| 0 <= j < a.len() && a[j] == s[q];
        assert(T::precedes(a[i], a[j]));
    }
    sorted_unique(sorted(a), sorted(b));
}

/// Two lists have the same values in both orders in which they can be joined
pub proof fn joined_either_way<T>(a: Seq<T>, b: Seq<T>)
    ensures
        (a + b).to_multiset() == (b + a).to_multiset(),
{
    vstd::seq_lib::lemma_multiset_commutative(a, b);
    vstd::seq_lib::lemma_multiset_commutative(b, a);
    assert(a.to_multiset().add(b.to_multiset()) =~= b.to_multiset().add(a.to_multiset()));
}

/// Sorts a list in place
pub fn sort_in_place<T: Ordered>(v: &mut Vec<T>)
    ensures
        final(v)@ == sorted(old(v)@),
{
    let mut taken: Vec<T> = Vec::new();
    core::mem::swap(&mut taken, v);
    let mut out = sort(taken);
    core::mem::swap(&mut out, v);
}

/// Coordinate pairs are ordered by X, then by Z
impl Ordered for (i32, i32) {
    open spec fn precedes(a: Self, b: Self) -> bool {
        a.0 < b.0 || (a.0 == b.0 && a.1 <= b.1)
    }

    proof fn total(a: Self, b: Self) {
    }

    proof fn transitive(a: Self, b: Self, c: Self) {
    }

    fn at_most(&self, other: &Self) -> (r: bool) {
        self.0 < other.0 || (self.0 == other.0 && self.1 <= other.1)
    }
}

/// Values at coordinate pairs are ordered by the coordinates
impl Ordered for (i32, i32, i64) {
    open spec fn precedes(a: Self, b: Self) -> bool {
        a.0 < b.0 || (a.0 == b.0 && a.1 <= b.1)
    }

    proof fn total(a: Self, b: Self) {
    }

    proof fn transitive(a: Self, b: Self, c: Self) {
    }

    fn at_most(&self, other: &Self) -> (r: bool) {
        self.0 < other.0 || (self.0 == other.0 && self.1 <= other.1)
    }
}

/// Values at coordinate pairs are ordered by the coordinates
impl Ordered for (i32, i32, u32) {
    open spec fn precedes(a: Self, b: Self) -> bool {
        a.0 < b.0 || (a.0 == b.0 && a.1 <= b.1)
    }

    proof fn total(a: Self, b: Self) {
    }

    proof fn transitive(a: Self, b: Self, c: Self) {
    }

    fn at_most(&self, other: &Self) -> (r: bool) {
        self.0 < other.0 || (self.0 == other.0 && self.1 <= other.1)
    }
}

/// Sorted coordinate pairs rise: first by X, and where X is the same, by Z
pub proof fn pairs_rise(s: Seq<(i32, i32)>, i: int, j: int)
    requires
        is_sorted(s),
        0 <= i <= j < s.len(),
    ensures
        s[i].0 <= s[j].0,
        s[i].0 == s[j].0 ==> s[i].1 <= s[j].1,
{
    assert(<(i32, i32)>::precedes(s[i], s[j]));
}

/// Sorted times at coordinate pairs rise by their coordinates
pub proof fn timed_pairs_rise(s: Seq<(i32, i32, i64)>, i: int, j: int)
    requires
        is_sorted(s),
        0 <= i <= j < s.len(),
    ensures
        s[i].0 <= s[j].0,
        s[i].0 == s[j].0 ==> s[i].1 <= s[j].1,
{
    assert(<(i32, i32, i64)>::precedes(s[i], s[j]));
}

/// Sorted scores at coordinate pairs rise by their coordinates
pub proof fn scored_pairs_rise(s: Seq<(i32, i32, u32)>, i: int, j: int)
    requires
        is_sorted(s),
        0 <= i <= j < s.len(),
    ensures
        s[i].0 <= s[j].0,
        s[i].0 == s[j].0 ==> s[i].1 <= s[j].1,
{
    assert(<(i32, i32, u32)>::precedes(s[i], s[j]));
}

} // verus!
