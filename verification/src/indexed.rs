//! Lists without repetitions that give each item an index

use indexmap::IndexSet;
use vstd::prelude::*;

verus! {

/// `indexmap::IndexSet`, a set that keeps its items in the order of their insertion
#[verifier::external_type_specification]
#[verifier::external_body]
#[verifier::reject_recursive_types(T)]
#[verifier::reject_recursive_types(S)]
pub struct ExIndexSet<T, S>(IndexSet<T, S>);

/// The biomes in a biome list, in the order of their indices
pub uninterp spec fn biome_ids(list: IndexSet<u32>) -> Seq<u32>;

/// The names in a block name list, in the order of their indices
pub uninterp spec fn block_names(list: IndexSet<String>) -> Seq<Seq<char>>;

/// The index that an item has once it is in the list: that of its first occurrence, or
/// else the next free one
pub open spec fn place<T>(list: Seq<T>, item: T) -> int
    decreases list.len(),
{
    if list.len() == 0 || list[0] == item {
        0
    } else {
        1 + place(list.skip(1), item)
    }
}

/// The list with an item added, unless it is there already
pub open spec fn with_item<T>(list: Seq<T>, item: T) -> Seq<T> {
    if list.contains(item) {
        list
    } else {
        list.push(item)
    }
}

/// An item stands at its place in the list, and items that were in the list before keep
/// their indices
pub proof fn placed<T>(list: Seq<T>, item: T)
    ensures
        0 <= place(list, item) < with_item(list, item).len(),
        with_item(list, item)[place(list, item)] == item,
        list.contains(item) <==> place(list, item) < list.len(),
        list.len() <= with_item(list, item).len() <= list.len() + 1,
        forall|i: int| 0 <= i < list.len() ==> #[trigger] with_item(list, item)[i] == list[i],
{
    place_found(list, item);
}

proof fn place_found<T>(list: Seq<T>, item: T)
    ensures
        0 <= place(list, item) <= list.len(),
        place(list, item) < list.len() ==> list[place(list, item)] == item,
        list.contains(item) ==> place(list, item) < list.len(),
    decreases list.len(),
{
    if list.len() > 0 && list[0] != item {
        let rest = list.skip(1);
        place_found(rest, item);
        if list.contains(item) {
            let i = choose|i: int| 0 <= i < list.len() && list[i] == item;
            assert(rest[i - 1] == item);
        }
    }
}

/// `IndexSet::insert_full` on a biome list: adds the biome unless it is in the list, and
/// returns its index and whether it was added
#[verifier::external_body]
pub(crate) fn insert_biome(list: &mut IndexSet<u32>, biome: u32) -> (r: (usize, bool))
    ensures
        biome_ids(*final(list)) == with_item(biome_ids(*old(list)), biome),
        r.0 == place(biome_ids(*old(list)), biome),
        r.1 == !biome_ids(*old(list)).contains(biome),
{
    list.insert_full(biome)
}

/// `IndexSet::insert_full` on a block name list: adds the name unless it is in the list,
/// and returns its index and whether it was added
#[verifier::external_body]
pub(crate) fn insert_name(list: &mut IndexSet<String>, name: String) -> (r: (usize, bool))
    ensures
        block_names(*final(list)) == with_item(block_names(*old(list)), name@),
        r.0 == place(block_names(*old(list)), name@),
        r.1 == !block_names(*old(list)).contains(name@),
{
    list.insert_full(name)
}

/// `IndexSet::get_index` on a biome list: the biome with the given index, or nothing if
/// the list ends before it
#[verifier::external_body]
pub(crate) fn biome_with_index(list: &IndexSet<u32>, index: usize) -> (r: Option<u32>)
    ensures
        r == (if index < biome_ids(*list).len() {
            Some(biome_ids(*list)[index as int])
        } else {
            None
        }),
{
    list.get_index(index).copied()
}

/// `IndexSet::get_index` on a block name list: the name with the given index, or nothing if
/// the list ends before it
#[verifier::external_body]
pub(crate) fn name_with_index(list: &IndexSet<String>, index: usize) -> (r: Option<&String>)
    ensures
        r is Some <==> index < block_names(*list).len(),
        r matches Some(name) ==> name@ == block_names(*list)[index as int],
{
    list.get_index(index)
}

/// `IndexSet::len` on a biome list: the number of biomes in the list
#[verifier::external_body]
pub(crate) fn biome_count(list: &IndexSet<u32>) -> (r: usize)
    ensures
        r == biome_ids(*list).len(),
{
    list.len()
}

/// The index of an item is that of its first occurrence, and a new item is added at the end
pub proof fn first_place<T>(list: Seq<T>, item: T, i: int)
    requires
        0 <= i <= list.len(),
        forall|j: int| 0 <= j < i ==> #[trigger] list[j] != item,
    ensures
        i < list.len() && list[i] == item ==> place(list, item) == i && with_item(list, item)
            == list,
        i == list.len() ==> place(list, item) == i && with_item(list, item) == list.push(item),
    decreases list.len(),
{
    if i > 0 {
        assert(list[0] != item);
        let rest = list.skip(1);
        assert forall|j: int| 0 <= j < i - 1 implies #[trigger] rest[j] != item by {
            assert(list[j + 1] != item);
        }
        first_place(rest, item, i - 1);
        if i < list.len() {
            assert(rest[i - 1] == list[i]);
        }
    }
    if i < list.len() && list[i] == item {
        assert(list.contains(item));
    }
}

} // verus!
