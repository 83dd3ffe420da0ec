//! Collection of mob (entity) markers for the viewer
//!
//! Java Edition 1.17+ stores entities in `entities/*.mca` files. The hostile and passive mob
//! positions of one dimension are collected as [MobData].

use crate::overlay;
use crate::region_cache::Mergeable;
use crate::select;
use crate::sorting;
use crate::text;
use vstd::prelude::*;

verus! {

/// A single entity record in an entity chunk
#[derive(Debug)]
pub struct EntityRecord {
    /// Entity type ID (for example `minecraft:zombie`)
    pub id: String,
    /// Block position of the entity (`[x, y, z]`)
    pub pos: Vec<i32>,
}

/// Hostile mob types
pub open spec fn hostile_name(name: Seq<char>) -> bool {
    ||| name == "zombie"@
    ||| name == "husk"@
    ||| name == "drowned"@
    ||| name == "zombie_villager"@
    ||| name == "skeleton"@
    ||| name == "stray"@
    ||| name == "bogged"@
    ||| name == "wither_skeleton"@
    ||| name == "creeper"@
    ||| name == "spider"@
    ||| name == "cave_spider"@
    ||| name == "enderman"@
    ||| name == "endermite"@
    ||| name == "silverfish"@
    ||| name == "witch"@
    ||| name == "slime"@
    ||| name == "magma_cube"@
    ||| name == "blaze"@
    ||| name == "ghast"@
    ||| name == "zombified_piglin"@
    ||| name == "piglin"@
    ||| name == "piglin_brute"@
    ||| name == "hoglin"@
    ||| name == "zoglin"@
    ||| name == "phantom"@
    ||| name == "guardian"@
    ||| name == "elder_guardian"@
    ||| name == "shulker"@
    ||| name == "vex"@
    ||| name == "evoker"@
    ||| name == "vindicator"@
    ||| name == "pillager"@
    ||| name == "ravager"@
    ||| name == "illusioner"@
    ||| name == "warden"@
    ||| name == "breeze"@
    ||| name == "creaking"@
}

/// Passive and neutral mob types
pub open spec fn passive_name(name: Seq<char>) -> bool {
    ||| name == "cow"@
    ||| name == "mooshroom"@
    ||| name == "pig"@
    ||| name == "sheep"@
    ||| name == "chicken"@
    ||| name == "rabbit"@
    ||| name == "horse"@
    ||| name == "donkey"@
    ||| name == "mule"@
    ||| name == "skeleton_horse"@
    ||| name == "zombie_horse"@
    ||| name == "llama"@
    ||| name == "trader_llama"@
    ||| name == "wolf"@
    ||| name == "cat"@
    ||| name == "ocelot"@
    ||| name == "parrot"@
    ||| name == "fox"@
    ||| name == "panda"@
    ||| name == "bee"@
    ||| name == "turtle"@
    ||| name == "dolphin"@
    ||| name == "cod"@
    ||| name == "salmon"@
    ||| name == "pufferfish"@
    ||| name == "tropical_fish"@
    ||| name == "squid"@
    ||| name == "glow_squid"@
    ||| name == "bat"@
    ||| name == "villager"@
    ||| name == "wandering_trader"@
    ||| name == "iron_golem"@
    ||| name == "snow_golem"@
    ||| name == "axolotl"@
    ||| name == "goat"@
    ||| name == "frog"@
    ||| name == "tadpole"@
    ||| name == "allay"@
    ||| name == "camel"@
    ||| name == "sniffer"@
    ||| name == "armadillo"@
    ||| name == "strider"@
    ||| name == "polar_bear"@
}

/// Returns whether a mob type is hostile
fn is_hostile(name: &str) -> (r: bool)
    ensures
        r == hostile_name(name@),
{
    text::same(name, "zombie")
        || text::same(name, "husk")
        || text::same(name, "drowned")
        || text::same(name, "zombie_villager")
        || text::same(name, "skeleton")
        || text::same(name, "stray")
        || text::same(name, "bogged")
        || text::same(name, "wither_skeleton")
        || text::same(name, "creeper")
        || text::same(name, "spider")
        || text::same(name, "cave_spider")
        || text::same(name, "enderman")
        || text::same(name, "endermite")
        || text::same(name, "silverfish")
        || text::same(name, "witch")
        || text::same(name, "slime")
        || text::same(name, "magma_cube")
        || text::same(name, "blaze")
        || text::same(name, "ghast")
        || text::same(name, "zombified_piglin")
        || text::same(name, "piglin")
        || text::same(name, "piglin_brute")
        || text::same(name, "hoglin")
        || text::same(name, "zoglin")
        || text::same(name, "phantom")
        || text::same(name, "guardian")
        || text::same(name, "elder_guardian")
        || text::same(name, "shulker")
        || text::same(name, "vex")
        || text::same(name, "evoker")
        || text::same(name, "vindicator")
        || text::same(name, "pillager")
        || text::same(name, "ravager")
        || text::same(name, "illusioner")
        || text::same(name, "warden")
        || text::same(name, "breeze")
        || text::same(name, "creaking")
}

/// Returns whether a mob type is passive or neutral
fn is_passive(name: &str) -> (r: bool)
    ensures
        r == passive_name(name@),
{
    text::same(name, "cow")
        || text::same(name, "mooshroom")
        || text::same(name, "pig")
        || text::same(name, "sheep")
        || text::same(name, "chicken")
        || text::same(name, "rabbit")
        || text::same(name, "horse")
        || text::same(name, "donkey")
        || text::same(name, "mule")
        || text::same(name, "skeleton_horse")
        || text::same(name, "zombie_horse")
        || text::same(name, "llama")
        || text::same(name, "trader_llama")
        || text::same(name, "wolf")
        || text::same(name, "cat")
        || text::same(name, "ocelot")
        || text::same(name, "parrot")
        || text::same(name, "fox")
        || text::same(name, "panda")
        || text::same(name, "bee")
        || text::same(name, "turtle")
        || text::same(name, "dolphin")
        || text::same(name, "cod")
        || text::same(name, "salmon")
        || text::same(name, "pufferfish")
        || text::same(name, "tropical_fish")
        || text::same(name, "squid")
        || text::same(name, "glow_squid")
        || text::same(name, "bat")
        || text::same(name, "villager")
        || text::same(name, "wandering_trader")
        || text::same(name, "iron_golem")
        || text::same(name, "snow_golem")
        || text::same(name, "axolotl")
        || text::same(name, "goat")
        || text::same(name, "frog")
        || text::same(name, "tadpole")
        || text::same(name, "allay")
        || text::same(name, "camel")
        || text::same(name, "sniffer")
        || text::same(name, "armadillo")
        || text::same(name, "strider")
        || text::same(name, "polar_bear")
}

/// The viewer marker category of an entity ID
pub open spec fn category_of(id: Seq<char>) -> Option<Seq<char>> {
    let name = overlay::local_name(id);
    if hostile_name(name) {
        Some("hostile"@)
    } else if passive_name(name) {
        Some("passive"@)
    } else {
        None
    }
}

/// Categorizes an entity ID into a viewer marker category, or `None` to skip it
pub fn category(id: &str) -> (r: Option<&'static str>)
    ensures
        match category_of(id@) {
            Some(c) => r matches Some(s) && s@ == c,
            None => r is None,
        },
{
    let name = overlay::strip_namespace(id);
    if is_hostile(name) {
        Some("hostile")
    } else if is_passive(name) {
        Some("passive")
    } else {
        None
    }
}

/// Collected mob marker positions by category (block coordinates)
#[derive(Debug)]
pub struct MobData {
    /// Hostile mobs
    pub hostile: Vec<(i32, i32)>,
    /// Passive and neutral mobs
    pub passive: Vec<(i32, i32)>,
}

/// What a [MobData] holds
#[verifier::ext_equal]
pub struct MobLists {
    /// Hostile mobs
    pub hostile: Seq<(i32, i32)>,
    /// Passive and neutral mobs
    pub passive: Seq<(i32, i32)>,
}

impl View for MobData {
    type V = MobLists;

    open spec fn view(&self) -> MobLists {
        MobLists { hostile: self.hostile@, passive: self.passive@ }
    }
}

impl MobLists {
    /// The lists with a mob added
    pub open spec fn with(self, category: Seq<char>, x: i32, z: i32) -> Self {
        if category == "hostile"@ {
            MobLists { hostile: self.hostile.push((x, z)), ..self }
        } else {
            MobLists { passive: self.passive.push((x, z)), ..self }
        }
    }

    /// The lists in order
    pub open spec fn finished(self) -> Self {
        MobLists {
            hostile: sorting::sorted(self.hostile),
            passive: sorting::sorted(self.passive),
        }
    }
}

impl Default for MobData {
    fn default() -> (r: Self)
        ensures
            r@ == Self::nothing(),
    {
        MobData { hostile: Vec::new(), passive: Vec::new() }
    }
}

impl MobData {
    /// Adds a mob of the given category at a block position
    pub fn push(&mut self, category: &str, x: i32, z: i32)
        ensures
            final(self)@ == old(self)@.with(category@, x, z),
    {
        if text::same(category, "hostile") {
            self.hostile.push((x, z));
        } else {
            self.passive.push((x, z));
        }
    }

    /// Sorts all categories for deterministic output
    pub fn finish(&mut self)
        ensures
            final(self)@ == old(self)@.finished(),
    {
        sorting::sort_in_place(&mut self.hostile);
        sorting::sort_in_place(&mut self.passive);
    }
}

impl Mergeable for MobData {
    type Contents = MobLists;

    open spec fn contents(&self) -> MobLists {
        self@
    }

    open spec fn nothing() -> MobLists {
        MobLists { hostile: Seq::empty(), passive: Seq::empty() }
    }

    open spec fn together(a: MobLists, b: MobLists) -> MobLists {
        MobLists { hostile: a.hostile + b.hostile, passive: a.passive + b.passive }
    }

    proof fn together_associative(a: MobLists, b: MobLists, c: MobLists) {
        assert(Self::together(Self::together(a, b), c) =~= Self::together(
            a,
            Self::together(b, c),
        ));
        assert(Self::together(Self::nothing(), a) =~= a);
        assert(Self::together(a, Self::nothing()) =~= a);
    }

    fn empty() -> (r: Self) {
        MobData::default()
    }

    fn merge(&mut self, other: MobData) {
        let mut other = other;
        self.hostile.append(&mut other.hostile);
        self.passive.append(&mut other.passive);
    }
}

/// The position of an entity, if it is a mob of the given kind and has a position
pub open spec fn mob_position(entity: EntityRecord, hostile: bool) -> Option<(i32, i32)> {
    let name = overlay::local_name(entity.id@);
    let kind = if hostile {
        hostile_name(name)
    } else {
        passive_name(name) && !hostile_name(name)
    };
    if kind && entity.pos@.len() >= 3 {
        Some((entity.pos@[0], entity.pos@[2]))
    } else {
        None
    }
}

/// The mobs among entities
pub open spec fn mobs_among(entities: Seq<EntityRecord>) -> MobLists {
    MobLists {
        hostile: select::picked(entities, |e: EntityRecord| mob_position(e, true)),
        passive: select::picked(entities, |e: EntityRecord| mob_position(e, false)),
    }
}

/// Reads the mobs among the entities of a single entity region file
pub fn collect_file(entities: &Vec<EntityRecord>) -> (r: MobData)
    ensures
        r@ == mobs_among(entities@),
{
    let mut data = MobData::default();
    let mut i: usize = 0;
    assert(entities@.take(0) =~= Seq::<EntityRecord>::empty());
    while i < entities.len()
        invariant
            i <= entities.len(),
            data@ == mobs_among(entities@.take(i as int)),
        decreases entities.len() - i,
    {
        let entity = &entities[i];
        proof {
            reveal_strlit("hostile");
            reveal_strlit("passive");
            let before = entities@.take(i as int);
            assert(entities@.take(i + 1) =~= before.push(*entity));
            select::picked_pushed(before, *entity, |e: EntityRecord| mob_position(e, true));
            select::picked_pushed(before, *entity, |e: EntityRecord| mob_position(e, false));
            assert("hostile"@[0] != "passive"@[0]);
        }
        if entity.pos.len() >= 3 {
            if let Some(category) = category(entity.id.as_str()) {
                data.push(category, entity.pos[0], entity.pos[2]);
            }
        }
        i = i + 1;
    }
    assert(entities@.take(i as int) =~= entities@);
    data
}

/// Merges the mobs of all entity region files of one dimension and brings them in order
pub fn collect(contributions: Vec<MobData>) -> (r: MobData)
    ensures
        r@ == crate::region_cache::all_together(contributions@).finished(),
{
    let mut data = crate::region_cache::merge_all(contributions);
    data.finish();
    data
}

/// The output does not depend on the order in which entities are met
pub proof fn mobs_deterministic(a: Seq<EntityRecord>, b: Seq<EntityRecord>)
    requires
        a.to_multiset() == b.to_multiset(),
    ensures
        mobs_among(a).finished() == mobs_among(b).finished(),
{
    select::picked_in_any_order(a, b, |e: EntityRecord| mob_position(e, true));
    select::picked_in_any_order(a, b, |e: EntityRecord| mob_position(e, false));
    sorting::sorted_deterministic(mobs_among(a).hostile, mobs_among(b).hostile);
    sorting::sorted_deterministic(mobs_among(a).passive, mobs_among(b).passive);
}

/// The output does not depend on the order in which contributions are merged
pub proof fn mob_merge_deterministic(a: MobLists, b: MobLists)
    ensures
        MobData::together(a, b).finished() == MobData::together(b, a).finished(),
{
    sorting::joined_either_way(a.hostile, b.hostile);
    sorting::joined_either_way(a.passive, b.passive);
    sorting::sorted_deterministic(a.hostile + b.hostile, b.hostile + a.hostile);
    sorting::sorted_deterministic(a.passive + b.passive, b.passive + a.passive);
}

/// The kinds of hostile mobs
pub open spec fn hostile_kinds() -> Seq<Seq<char>> {
    seq![
        "zombie"@,
        "husk"@,
        "drowned"@,
        "zombie_villager"@,
        "skeleton"@,
        "stray"@,
        "bogged"@,
        "wither_skeleton"@,
        "creeper"@,
        "spider"@,
        "cave_spider"@,
        "enderman"@,
        "endermite"@,
        "silverfish"@,
        "witch"@,
        "slime"@,
        "magma_cube"@,
        "blaze"@,
        "ghast"@,
        "zombified_piglin"@,
        "piglin"@,
        "piglin_brute"@,
        "hoglin"@,
        "zoglin"@,
        "phantom"@,
        "guardian"@,
        "elder_guardian"@,
        "shulker"@,
        "vex"@,
        "evoker"@,
        "vindicator"@,
        "pillager"@,
        "ravager"@,
        "illusioner"@,
        "warden"@,
        "breeze"@,
        "creaking"@,
    ]
}

proof fn hostile_kinds_listed(name: Seq<char>)
    ensures
        hostile_name(name) <==> hostile_kinds().contains(name),
{
    let kinds = hostile_kinds();
    assert(kinds[0] == "zombie"@);
    assert(kinds[1] == "husk"@);
    assert(kinds[2] == "drowned"@);
    assert(kinds[3] == "zombie_villager"@);
    assert(kinds[4] == "skeleton"@);
    assert(kinds[5] == "stray"@);
    assert(kinds[6] == "bogged"@);
    assert(kinds[7] == "wither_skeleton"@);
    assert(kinds[8] == "creeper"@);
    assert(kinds[9] == "spider"@);
    assert(kinds[10] == "cave_spider"@);
    assert(kinds[11] == "enderman"@);
    assert(kinds[12] == "endermite"@);
    assert(kinds[13] == "silverfish"@);
    assert(kinds[14] == "witch"@);
    assert(kinds[15] == "slime"@);
    assert(kinds[16] == "magma_cube"@);
    assert(kinds[17] == "blaze"@);
    assert(kinds[18] == "ghast"@);
    assert(kinds[19] == "zombified_piglin"@);
    assert(kinds[20] == "piglin"@);
    assert(kinds[21] == "piglin_brute"@);
    assert(kinds[22] == "hoglin"@);
    assert(kinds[23] == "zoglin"@);
    assert(kinds[24] == "phantom"@);
    assert(kinds[25] == "guardian"@);
    assert(kinds[26] == "elder_guardian"@);
    assert(kinds[27] == "shulker"@);
    assert(kinds[28] == "vex"@);
    assert(kinds[29] == "evoker"@);
    assert(kinds[30] == "vindicator"@);
    assert(kinds[31] == "pillager"@);
    assert(kinds[32] == "ravager"@);
    assert(kinds[33] == "illusioner"@);
    assert(kinds[34] == "warden"@);
    assert(kinds[35] == "breeze"@);
    assert(kinds[36] == "creaking"@);
    if hostile_name(name) {
        let i = choose|i: int| 0 <= i < 37 && kinds[i] == name;
        assert(kinds.contains(kinds[i]));
    }
}

/// The kinds of passive and neutral mobs
pub open spec fn passive_kinds() -> Seq<Seq<char>> {
    seq![
        "cow"@,
        "mooshroom"@,
        "pig"@,
        "sheep"@,
        "chicken"@,
        "rabbit"@,
        "horse"@,
        "donkey"@,
        "mule"@,
        "skeleton_horse"@,
        "zombie_horse"@,
        "llama"@,
        "trader_llama"@,
        "wolf"@,
        "cat"@,
        "ocelot"@,
        "parrot"@,
        "fox"@,
        "panda"@,
        "bee"@,
        "turtle"@,
        "dolphin"@,
        "cod"@,
        "salmon"@,
        "pufferfish"@,
        "tropical_fish"@,
        "squid"@,
        "glow_squid"@,
        "bat"@,
        "villager"@,
        "wandering_trader"@,
        "iron_golem"@,
        "snow_golem"@,
        "axolotl"@,
        "goat"@,
        "frog"@,
        "tadpole"@,
        "allay"@,
        "camel"@,
        "sniffer"@,
        "armadillo"@,
        "strider"@,
        "polar_bear"@,
    ]
}

proof fn passive_kinds_listed(name: Seq<char>)
    ensures
        passive_name(name) <==> passive_kinds().contains(name),
{
    let kinds = passive_kinds();
    assert(kinds[0] == "cow"@);
    assert(kinds[1] == "mooshroom"@);
    assert(kinds[2] == "pig"@);
    assert(kinds[3] == "sheep"@);
    assert(kinds[4] == "chicken"@);
    assert(kinds[5] == "rabbit"@);
    assert(kinds[6] == "horse"@);
    assert(kinds[7] == "donkey"@);
    assert(kinds[8] == "mule"@);
    assert(kinds[9] == "skeleton_horse"@);
    assert(kinds[10] == "zombie_horse"@);
    assert(kinds[11] == "llama"@);
    assert(kinds[12] == "trader_llama"@);
    assert(kinds[13] == "wolf"@);
    assert(kinds[14] == "cat"@);
    assert(kinds[15] == "ocelot"@);
    assert(kinds[16] == "parrot"@);
    assert(kinds[17] == "fox"@);
    assert(kinds[18] == "panda"@);
    assert(kinds[19] == "bee"@);
    assert(kinds[20] == "turtle"@);
    assert(kinds[21] == "dolphin"@);
    assert(kinds[22] == "cod"@);
    assert(kinds[23] == "salmon"@);
    assert(kinds[24] == "pufferfish"@);
    assert(kinds[25] == "tropical_fish"@);
    assert(kinds[26] == "squid"@);
    assert(kinds[27] == "glow_squid"@);
    assert(kinds[28] == "bat"@);
    assert(kinds[29] == "villager"@);
    assert(kinds[30] == "wandering_trader"@);
    assert(kinds[31] == "iron_golem"@);
    assert(kinds[32] == "snow_golem"@);
    assert(kinds[33] == "axolotl"@);
    assert(kinds[34] == "goat"@);
    assert(kinds[35] == "frog"@);
    assert(kinds[36] == "tadpole"@);
    assert(kinds[37] == "allay"@);
    assert(kinds[38] == "camel"@);
    assert(kinds[39] == "sniffer"@);
    assert(kinds[40] == "armadillo"@);
    assert(kinds[41] == "strider"@);
    assert(kinds[42] == "polar_bear"@);
    if passive_name(name) {
        let i = choose|i: int| 0 <= i < 43 && kinds[i] == name;
        assert(kinds.contains(kinds[i]));
    }
}

/// Entities are of a category if their ID, with or without namespace, is that of a mob of the
/// category
pub proof fn category_by_kind(id: Seq<char>)
    ensures
        category_of(id) == Some("hostile"@) <==> hostile_kinds().contains(
            text::without_prefix(id, "minecraft:"@),
        ),
        category_of(id) == Some("passive"@) <==> passive_kinds().contains(
            text::without_prefix(id, "minecraft:"@),
        ) && !hostile_kinds().contains(text::without_prefix(id, "minecraft:"@)),
        category_of(id) is None <==> !hostile_kinds().contains(
            text::without_prefix(id, "minecraft:"@),
        ) && !passive_kinds().contains(text::without_prefix(id, "minecraft:"@)),
{
    reveal_strlit("hostile");
    reveal_strlit("passive");
    assert("hostile"@[0] != "passive"@[0]);
    hostile_kinds_listed(overlay::local_name(id));
    passive_kinds_listed(overlay::local_name(id));
}

/// The X and Z coordinates of an entity
pub open spec fn ground_position(entity: EntityRecord) -> (i32, i32) {
    (entity.pos@[0], entity.pos@[2])
}

/// The mobs of a file are its entities of the kinds of mobs that have a position: each of them
/// with its X and Z coordinates, in the order of the file
pub proof fn mobs_by_kind(entities: Seq<EntityRecord>)
    ensures
        mobs_among(entities).hostile == entities.filter(
            |e: EntityRecord|
                e.pos@.len() >= 3 && hostile_kinds().contains(
                    text::without_prefix(e.id@, "minecraft:"@),
                ),
        ).map_values(|e: EntityRecord| ground_position(e)),
        mobs_among(entities).passive == entities.filter(
            |e: EntityRecord|
                e.pos@.len() >= 3 && passive_kinds().contains(
                    text::without_prefix(e.id@, "minecraft:"@),
                ) && !hostile_kinds().contains(text::without_prefix(e.id@, "minecraft:"@)),
        ).map_values(|e: EntityRecord| ground_position(e)),
{
    let f = |e: EntityRecord| mob_position(e, true);
    let g = |e: EntityRecord| mob_position(e, false);
    let hostile = |e: EntityRecord|
        e.pos@.len() >= 3 && hostile_kinds().contains(text::without_prefix(e.id@, "minecraft:"@));
    let passive = |e: EntityRecord|
        e.pos@.len() >= 3 && passive_kinds().contains(
            text::without_prefix(e.id@, "minecraft:"@),
        ) && !hostile_kinds().contains(text::without_prefix(e.id@, "minecraft:"@));
    let position = |e: EntityRecord| ground_position(e);
    assert forall|e: EntityRecord| #[trigger] f(e) == (if hostile(e) {
        Some(position(e))
    } else {
        None
    }) by {
        hostile_kinds_listed(overlay::local_name(e.id@));
    }
    assert forall|e: EntityRecord| #[trigger] g(e) == (if passive(e) {
        Some(position(e))
    } else {
        None
    }) by {
        hostile_kinds_listed(overlay::local_name(e.id@));
        passive_kinds_listed(overlay::local_name(e.id@));
    }
    select::picked_of_kind(entities, f, hostile, position);
    select::picked_of_kind(entities, g, passive, position);
}

/// Merging and ordering keep every mob in its list
pub proof fn merged_mobs_kept(a: MobLists, b: MobLists)
    ensures
        ({
            let all = MobData::together(a, b).finished();
            &&& all.hostile.to_multiset() == a.hostile.to_multiset().add(b.hostile.to_multiset())
            &&& all.passive.to_multiset() == a.passive.to_multiset().add(b.passive.to_multiset())
            &&& sorting::is_sorted(all.hostile)
            &&& sorting::is_sorted(all.passive)
        }),
{
    vstd::seq_lib::lemma_multiset_commutative(a.hostile, b.hostile);
    vstd::seq_lib::lemma_multiset_commutative(a.passive, b.passive);
    sorting::sorted_properties(a.hostile + b.hostile);
    sorting::sorted_properties(a.passive + b.passive);
}

/// A mob is added to the list of its category, and to no other
pub proof fn mob_added(lists: MobLists, x: i32, z: i32)
    ensures
        lists.with("hostile"@, x, z).hostile == lists.hostile + seq![(x, z)],
        lists.with("hostile"@, x, z).passive == lists.passive,
        lists.with("passive"@, x, z).passive == lists.passive + seq![(x, z)],
        lists.with("passive"@, x, z).hostile == lists.hostile,
{
    reveal_strlit("hostile");
    reveal_strlit("passive");
    assert("hostile"@[0] != "passive"@[0]);
    assert(lists.hostile.push((x, z)) =~= lists.hostile + seq![(x, z)]);
    assert(lists.passive.push((x, z)) =~= lists.passive + seq![(x, z)]);
}

} // verus!
