//! Collection of per-player data for the `--emit-player-data` output
//!
//! Java Edition stores each player's live state (position, inventory, XP, …) as
//! a gzip-compressed NBT file `playerdata/<uuid>.dat`, the accumulated
//! statistics as JSON in `stats/<uuid>.json`, and a UUID→name cache in
//! `usercache.json` / `usernamecache.json` (which live in the server directory,
//! i.e. the world directory or its parent).

use crate::bedrock::nbt;
use crate::bedrock::nbt::{Nbt, Value};
use crate::bytes;
use crate::java_nbt;
use crate::java_nbt::JavaNbt;
use crate::json;
use crate::json::Json;
use crate::paths;
use crate::select;
use crate::sorting;
use crate::sorting::Ordered;
use crate::text;
use serde_json::Value as JsonValue;
use vstd::prelude::*;
use vstd::string::*;

verus! {

/// A number as it is stored
#[derive(Debug, Clone, Copy, PartialEq, Eq, Structural)]
pub enum Number {
    /// The bits of an IEEE 754 single
    Float(u32),
    /// The bits of an IEEE 754 double
    Double(u64),
    /// An integer
    Int(i64),
}

/// A single inventory or ender-chest item
#[derive(Debug)]
pub struct Item {
    /// Inventory slot, if present
    pub slot: Option<i32>,
    /// Item identifier (for example `minecraft:diamond`)
    pub id: String,
    /// Item count
    pub count: i32,
}

/// What an [Item] holds
pub struct ItemView {
    /// Inventory slot, if present
    pub slot: Option<i32>,
    /// Item identifier
    pub id: Seq<char>,
    /// Item count
    pub count: i32,
}

impl View for Item {
    type V = ItemView;

    open spec fn view(&self) -> ItemView {
        ItemView { slot: self.slot, id: self.id@, count: self.count }
    }
}

/// What items hold
pub open spec fn items_view(items: Seq<Item>) -> Seq<ItemView> {
    items.map_values(|i: Item| i@)
}

/// Experience state of a player
#[derive(Debug, Clone, Copy, PartialEq, Eq, Structural)]
pub struct Xp {
    /// Experience level
    pub level: i32,
    /// Total collected experience points
    pub total: i32,
    /// Progress towards the next level (0.0 – 1.0)
    pub progress: Number,
}

/// Accumulated statistics of a player (from `stats/<uuid>.json`)
#[derive(Debug, Clone, Copy, PartialEq, Eq, Structural)]
pub struct Stats {
    /// Ticks played (`minecraft:play_time`)
    pub play_time: i64,
    /// Number of deaths
    pub deaths: i64,
    /// Number of mobs killed
    pub mob_kills: i64,
    /// Number of players killed
    pub player_kills: i64,
    /// Distance walked, in centimeters
    pub walk_cm: i64,
    /// Distance sprinted, in centimeters
    pub sprint_cm: i64,
    /// Distance swum, in centimeters
    pub swim_cm: i64,
    /// Distance flown with an elytra, in centimeters
    pub fly_cm: i64,
    /// Total number of blocks mined (sum of `minecraft:mined`)
    pub blocks_mined: i64,
    /// Total number of items used (sum of `minecraft:used`); approximates the
    /// number of blocks placed, as Minecraft has no dedicated placement counter
    pub blocks_placed: i64,
}

/// Collected data of a single player
#[derive(Debug)]
pub struct Player {
    /// Player UUID (from the `playerdata` file name)
    pub uuid: String,
    /// Player name, if it could be resolved from a name cache
    pub name: Option<String>,
    /// Position as `[x, y, z]`
    pub pos: [Number; 3],
    /// Dimension identifier (for example `minecraft:overworld`)
    pub dimension: String,
    /// Rotation as `[yaw, pitch]`
    pub rotation: [Number; 2],
    /// Respawn position as `[x, y, z]`, if set
    pub spawn: Option<[i32; 3]>,
    /// Experience state
    pub xp: Xp,
    /// Current health
    pub health: Number,
    /// Current food level
    pub food: Number,
    /// Accumulated statistics, if a stats file was present
    pub stats: Option<Stats>,
    /// Causes of death (`minecraft:killed_by`), by source entity id
    pub killed_by: Vec<(String, i64)>,
    /// Crafted items (`minecraft:crafted`), by item id
    pub crafted: Vec<(String, i64)>,
    /// Main inventory contents
    pub inventory: Vec<Item>,
    /// Ender chest contents
    pub ender_items: Vec<Item>,
}

/// Players are ordered by their UUIDs
impl Ordered for Player {
    open spec fn precedes(a: Self, b: Self) -> bool {
        text::lex_le(a.uuid@, b.uuid@)
    }

    proof fn total(a: Self, b: Self) {
        text::lex_le_total(a.uuid@, b.uuid@);
    }

    proof fn transitive(a: Self, b: Self, c: Self) {
        text::lex_le_transitive(a.uuid@, b.uuid@, c.uuid@);
    }

    fn at_most(&self, other: &Self) -> (r: bool) {
        text::at_most(self.uuid.as_str(), other.uuid.as_str())
    }
}

/// The integer of any NBT integer tag
pub open spec fn integer_in(value: Nbt) -> Option<i64> {
    match value {
        Nbt::Byte(n) => Some(n as i64),
        Nbt::Short(n) => Some(n as i64),
        Nbt::Int(n) => Some(n as i64),
        Nbt::Long(n) => Some(n),
        _ => None,
    }
}

/// The number of any NBT number tag
pub open spec fn number_in(value: Nbt) -> Option<Number> {
    match value {
        Nbt::Float(bits) => Some(Number::Float(bits)),
        Nbt::Double(bits) => Some(Number::Double(bits)),
        _ => match integer_in(value) {
            Some(n) => Some(Number::Int(n)),
            None => None,
        },
    }
}

/// The elements of a list tag
pub open spec fn list_in(value: Nbt) -> Option<Seq<Nbt>> {
    match value {
        Nbt::List(l) => Some(l),
        _ => None,
    }
}

/// An integer tag that may be missing
pub open spec fn integer_entry(root: Nbt, key: Seq<char>) -> Option<i64> {
    match root.entry(key) {
        Some(v) => integer_in(v),
        None => None,
    }
}

/// A number tag that may be missing
pub open spec fn number_entry(root: Nbt, key: Seq<char>) -> Option<Number> {
    match root.entry(key) {
        Some(v) => number_in(v),
        None => None,
    }
}

/// A string tag that may be missing
pub open spec fn text_entry(root: Nbt, key: Seq<char>) -> Option<Seq<char>> {
    match root.entry(key) {
        Some(v) => v.text(),
        None => None,
    }
}

/// What is left of a 64-bit number in 32 bits
pub open spec fn low32(n: i64) -> i32 {
    bytes::signed32(n as int % 0x1_0000_0000)
}

/// Keeps the low 32 bits of a number
fn to_i32(n: i64) -> (r: i32)
    ensures
        r == low32(n),
{
    let low: u32 = if n >= 0 {
        (n % 0x1_0000_0000) as u32
    } else {
        let m: u64 = (-(n + 1)) as u64;
        (0xFFFF_FFFF - m % 0x1_0000_0000) as u32
    };
    assert(low == n as int % 0x1_0000_0000);
    bytes::as_signed32(low)
}

/// Interprets any NBT integer tag as an `i64`
pub fn as_i64(value: &Value) -> (r: Option<i64>)
    ensures
        r == integer_in(value@),
{
    match value {
        Value::Byte(v) => Some(*v as i64),
        Value::Short(v) => Some(*v as i64),
        Value::Int(v) => Some(*v as i64),
        Value::Long(v) => Some(*v),
        _ => None,
    }
}

/// Interprets any NBT number tag as a [Number]
pub fn as_number(value: &Value) -> (r: Option<Number>)
    ensures
        r == number_in(value@),
{
    match value {
        Value::Float(bits) => Some(Number::Float(*bits)),
        Value::Double(bits) => Some(Number::Double(*bits)),
        _ => match as_i64(value) {
            Some(n) => Some(Number::Int(n)),
            None => None,
        },
    }
}

/// Returns the elements of a list tag, if it is a list
pub fn as_list(value: &Value) -> (r: Option<&Vec<Value>>)
    ensures
        match list_in(value@) {
            Some(l) => r matches Some(v) && nbt::trees(v@) == l,
            None => r is None,
        },
{
    match value {
        Value::List(list) => Some(list),
        _ => None,
    }
}

/// Returns an integer tag that may be missing
pub(crate) fn read_i64(root: &Value, key: &str) -> (r: Option<i64>)
    ensures
        r == integer_entry(root@, key@),
{
    match root.get(key) {
        Some(v) => as_i64(v),
        None => None,
    }
}

/// Returns a number tag that may be missing
pub(crate) fn read_number(root: &Value, key: &str) -> (r: Option<Number>)
    ensures
        r == number_entry(root@, key@),
{
    match root.get(key) {
        Some(v) => as_number(v),
        None => None,
    }
}

/// Returns a string tag that may be missing
pub(crate) fn read_str<'a>(root: &'a Value, key: &str) -> (r: Option<&'a str>)
    ensures
        match text_entry(root@, key@) {
            Some(t) => r matches Some(s) && s@ == t,
            None => r is None,
        },
{
    match root.get(key) {
        Some(v) => v.as_str(),
        None => None,
    }
}

/// An integer tag in 32 bits, or a default
pub open spec fn integer_or(root: Nbt, key: Seq<char>, default: i64) -> i32 {
    low32(match integer_entry(root, key) {
        Some(n) => n,
        None => default,
    })
}

/// Returns an integer tag in 32 bits, or a default
pub(crate) fn read_i32_or(root: &Value, key: &str, default: i64) -> (r: i32)
    ensures
        r == integer_or(root@, key@, default),
{
    to_i32(
        match read_i64(root, key) {
            Some(n) => n,
            None => default,
        },
    )
}

/// A number tag, or zero
pub open spec fn number_or_zero(n: Option<Number>) -> Number {
    match n {
        Some(n) => n,
        None => Number::Int(0),
    }
}

/// Returns a number, or zero
pub(crate) fn or_zero(n: Option<Number>) -> (r: Number)
    ensures
        r == number_or_zero(n),
{
    match n {
        Some(n) => n,
        None => Number::Int(0),
    }
}

/// The number at an index of a list tag; missing entries are zero
pub open spec fn number_at(value: Option<Nbt>, i: int) -> Number {
    match value {
        Some(v) => match list_in(v) {
            Some(l) => if 0 <= i < l.len() {
                number_or_zero(number_in(l[i]))
            } else {
                Number::Int(0)
            },
            None => Number::Int(0),
        },
        None => Number::Int(0),
    }
}

/// Returns the number at an index of a list tag; missing entries are zero
fn read_number_at(value: Option<&Value>, i: usize) -> (r: Number)
    ensures
        r == number_at(
            match value {
                Some(v) => Some(v@),
                None => None,
            },
            i as int,
        ),
{
    let value = match value {
        Some(value) => value,
        None => return Number::Int(0),
    };
    match as_list(value) {
        Some(list) => {
            proof {
                nbt::trees_len(list@);
            }
            if i < list.len() {
                proof {
                    nbt::trees_index(list@, i as int);
                }
                or_zero(as_number(&list[i]))
            } else {
                Number::Int(0)
            }
        },
        None => Number::Int(0),
    }
}

/// Reads a position-style list, defaulting missing entries to zero
pub fn read_f64_3(root: &Value, key: &str) -> (r: [Number; 3])
    ensures
        forall|i: int| 0 <= i < 3 ==> #[trigger] r[i] == number_at(root@.entry(key@), i),
{
    let value = root.get(key);
    [read_number_at(value, 0), read_number_at(value, 1), read_number_at(value, 2)]
}

/// Reads a rotation list, defaulting missing entries to zero
pub fn read_f32_2(root: &Value, key: &str) -> (r: [Number; 2])
    ensures
        forall|i: int| 0 <= i < 2 ==> #[trigger] r[i] == number_at(root@.entry(key@), i),
{
    let value = root.get(key);
    [read_number_at(value, 0), read_number_at(value, 1)]
}

/// An item compound; empty (`minecraft:air`) slots are no items
pub open spec fn item_in(value: Nbt) -> Option<ItemView> {
    match text_entry(value, "id"@) {
        None => None,
        Some(id) => if id == "minecraft:air"@ {
            None
        } else {
            // Item count was a byte `Count` before 1.20.5 and an int `count` after.
            let count = match value.entry("count"@) {
                Some(v) => integer_in(v),
                None => integer_entry(value, "Count"@),
            };
            Some(
                ItemView {
                    slot: match integer_entry(value, "Slot"@) {
                        Some(n) => Some(low32(n)),
                        None => None,
                    },
                    id,
                    count: low32(
                        match count {
                            Some(n) => n,
                            None => 1,
                        },
                    ),
                },
            )
        },
    }
}

/// Parses a single item compound, skipping empty (`minecraft:air`) slots
pub fn parse_item(value: &Value) -> (r: Option<Item>)
    ensures
        match item_in(value@) {
            Some(item) => r matches Some(i) && i@ == item,
            None => r is None,
        },
{
    let id = match read_str(value, "id") {
        Some(id) => id,
        None => return None,
    };
    if text::same(id, "minecraft:air") {
        return None;
    }
    let slot = match read_i64(value, "Slot") {
        Some(n) => Some(to_i32(n)),
        None => None,
    };
    // Item count was a byte `Count` before 1.20.5 and an int `count` after.
    let count = match value.get("count") {
        Some(v) => as_i64(v),
        None => read_i64(value, "Count"),
    };
    let count: i64 = match count {
        Some(n) => n,
        None => 1,
    };
    Some(Item { slot, id: id.to_owned(), count: to_i32(count) })
}

/// The items of an item list
pub open spec fn items_in(value: Option<Nbt>) -> Seq<ItemView> {
    match value {
        Some(v) => match list_in(v) {
            Some(l) => select::picked(l, |x: Nbt| item_in(x)),
            None => Seq::empty(),
        },
        None => Seq::empty(),
    }
}

/// Parses an item list (inventory or ender chest)
pub fn parse_items(root: &Value, key: &str) -> (r: Vec<Item>)
    ensures
        items_view(r@) == items_in(root@.entry(key@)),
{
    let mut items: Vec<Item> = Vec::new();
    assert(items_view(items@) =~= Seq::<ItemView>::empty());
    let value = match root.get(key) {
        Some(value) => value,
        None => return items,
    };
    let list = match as_list(value) {
        Some(list) => list,
        None => return items,
    };
    let ghost all = nbt::trees(list@);
    let ghost f = |x: Nbt| item_in(x);
    proof {
        nbt::trees_len(list@);
        assert(all.take(0) =~= Seq::<Nbt>::empty());
    }
    let mut i: usize = 0;
    while i < list.len()
        invariant
            i <= list.len(),
            all == nbt::trees(list@),
            all.len() == list@.len(),
            f == (|x: Nbt| item_in(x)),
            items_view(items@) == select::picked(all.take(i as int), f),
        decreases list.len() - i,
    {
        proof {
            nbt::trees_index(list@, i as int);
            assert(all.take(i + 1) =~= all.take(i as int).push(all[i as int]));
            select::picked_pushed(all.take(i as int), all[i as int], f);
        }
        if let Some(item) = parse_item(&list[i]) {
            let ghost before = items@;
            items.push(item);
            assert(items_view(items@) =~= items_view(before).push(item@));
        }
        i = i + 1;
    }
    assert(all.take(i as int) =~= all);
    items
}

/// The identifier of a dimension, which may be given by a legacy number
pub open spec fn dimension_in(value: Option<Nbt>) -> Seq<char> {
    match value {
        Some(Nbt::Text(s)) => s,
        Some(v) => match integer_in(v) {
            Some(n) => if n == -1 {
                "minecraft:the_nether"@
            } else if n == 1 {
                "minecraft:the_end"@
            } else {
                "minecraft:overworld"@
            },
            None => "minecraft:overworld"@,
        },
        None => "minecraft:overworld"@,
    }
}

/// Maps a legacy numeric dimension id to its modern identifier
pub fn dimension_name(root: &Value, key: &str) -> (r: String)
    ensures
        r@ == dimension_in(root@.entry(key@)),
{
    let value = match root.get(key) {
        Some(value) => value,
        None => return "minecraft:overworld".to_owned(),
    };
    if let Some(s) = value.as_str() {
        return s.to_owned();
    }
    match as_i64(value) {
        Some(n) => if n == -1 {
            "minecraft:the_nether".to_owned()
        } else if n == 1 {
            "minecraft:the_end".to_owned()
        } else {
            "minecraft:overworld".to_owned()
        },
        None => "minecraft:overworld".to_owned(),
    }
}

/// The respawn position; the height may be missing
pub open spec fn spawn_in(root: Nbt) -> Option<[i32; 3]> {
    match (integer_entry(root, "SpawnX"@), integer_entry(root, "SpawnZ"@)) {
        (Some(x), Some(z)) => Some([low32(x), integer_or(root, "SpawnY"@, 0), low32(z)]),
        _ => None,
    }
}

/// Reads the respawn position from `SpawnX`/`SpawnY`/`SpawnZ`, if present
pub fn read_spawn(root: &Value) -> (r: Option<[i32; 3]>)
    ensures
        r == spawn_in(root@),
{
    let y: i32 = read_i32_or(root, "SpawnY", 0);
    match (read_i64(root, "SpawnX"), read_i64(root, "SpawnZ")) {
        (Some(x), Some(z)) => Some([to_i32(x), y, to_i32(z)]),
        _ => None,
    }
}

/// The player data in a `playerdata/<uuid>.dat` file
pub open spec fn shows_player(player: Player, uuid: Seq<char>, root: Nbt) -> bool {
    &&& player.uuid@ == uuid
    &&& forall|i: int| 0 <= i < 3 ==> #[trigger] player.pos[i] == number_at(root.entry("Pos"@), i)
    &&& player.dimension@ == dimension_in(root.entry("Dimension"@))
    &&& forall|i: int|
        0 <= i < 2 ==> #[trigger] player.rotation[i] == number_at(root.entry("Rotation"@), i)
    &&& player.spawn == spawn_in(root)
    &&& player.xp == (Xp {
        level: integer_or(root, "XpLevel"@, 0),
        total: integer_or(root, "XpTotal"@, 0),
        progress: number_or_zero(number_entry(root, "XpP"@)),
    })
    &&& player.health == number_or_zero(number_entry(root, "Health"@))
    &&& player.food == Number::Int(integer_or(root, "foodLevel"@, 0) as i64)
    &&& items_view(player.inventory@) == items_in(root.entry("Inventory"@))
    &&& items_view(player.ender_items@) == items_in(root.entry("EnderItems"@))
}

/// Parses a `playerdata/<uuid>.dat` file into a [Player]
pub fn parse_player(uuid: String, root: &Value) -> (r: Player)
    ensures
        shows_player(r, uuid@, root@),
        r.name is None,
        r.stats is None,
        r.killed_by@.len() == 0,
        r.crafted@.len() == 0,
{
    Player {
        uuid,
        name: None,
        pos: read_f64_3(root, "Pos"),
        dimension: dimension_name(root, "Dimension"),
        rotation: read_f32_2(root, "Rotation"),
        spawn: read_spawn(root),
        xp: Xp {
            level: read_i32_or(root, "XpLevel", 0),
            total: read_i32_or(root, "XpTotal", 0),
            progress: or_zero(read_number(root, "XpP")),
        },
        health: or_zero(read_number(root, "Health")),
        food: Number::Int(read_i32_or(root, "foodLevel", 0) as i64),
        stats: None,
        killed_by: Vec::new(),
        crafted: Vec::new(),
        inventory: parse_items(root, "Inventory"),
        ender_items: parse_items(root, "EnderItems"),
    }
}

/// The UUID in a `<uuid>.dat` file name
pub open spec fn uuid_in(name: Seq<char>) -> Option<Seq<char>> {
    if text::finishes_with(name, ".dat"@) && name.len() > 4 {
        Some(name.take(name.len() - 4))
    } else {
        None
    }
}

/// Returns the UUID of a `<uuid>.dat` file name
///
/// A UUID is 36 characters with hyphens; anything non-empty is accepted to be
/// lenient towards offline-mode / unusual UUIDs.
pub fn dat_uuid(name: &str) -> (r: Option<String>)
    ensures
        match uuid_in(name@) {
            Some(u) => r matches Some(s) && s@ == u,
            None => r is None,
        },
{
    proof {
        reveal_strlit(".dat");
    }
    let stem = match text::strip_suffix(name, ".dat") {
        Some(stem) => stem,
        None => return None,
    };
    if text::to_chars(stem).len() == 0 {
        return None;
    }
    Some(stem.to_owned())
}

/// The integers of a JSON object (a stats category), by their names
pub open spec fn integers_in(stats: Json, category: Seq<char>) -> Seq<(Seq<char>, i64)> {
    match stats.member(category) {
        Some(Json::Object(members)) => select::picked(
            members,
            |m: (Seq<char>, Json)| integer_member(m),
        ),
        _ => Seq::empty(),
    }
}

/// A member of a stats category, if it is an integer
pub open spec fn integer_member(m: (Seq<char>, Json)) -> Option<(Seq<char>, i64)> {
    match m.1.integer() {
        Some(n) => Some((m.0, n)),
        None => None,
    }
}

/// The sum of the integers of a stats category, if it and the sums on the way to it fit
pub open spec fn sum_of(values: Seq<(Seq<char>, i64)>) -> Option<i64>
    decreases values.len(),
{
    if values.len() == 0 {
        Some(0)
    } else {
        match sum_of(values.drop_last()) {
            Some(n) => if i64::MIN <= n + values.last().1 <= i64::MAX {
                Some((n + values.last().1) as i64)
            } else {
                None
            },
            None => None,
        }
    }
}

/// Names and numbers
pub open spec fn counts_view(counts: Seq<(String, i64)>) -> Seq<(Seq<char>, i64)> {
    counts.map_values(|c: (String, i64)| (c.0@, c.1))
}

/// Each name occurs once
pub open spec fn distinct_names(counts: Seq<(String, i64)>) -> bool {
    forall|i: int, j: int|
        0 <= i < j < counts.len() ==> (#[trigger] counts[i]).0@ != (#[trigger] counts[j]).0@
}

/// Converts a JSON stats object into a list, in which each name occurs once
pub fn stat_map(stats: &JsonValue, category: &str) -> (r: Vec<(String, i64)>)
    ensures
        counts_view(r@) == integers_in(json::json_of(*stats), category@),
        distinct_names(r@),
{
    let mut out: Vec<(String, i64)> = Vec::new();
    assert(counts_view(out@) =~= Seq::<(Seq<char>, i64)>::empty());
    let object = match json::get(stats, category) {
        Some(object) => object,
        None => return out,
    };
    let members = match json::members(object) {
        Some(members) => members,
        None => return out,
    };
    let ghost all = match json::json_of(*object) {
        Json::Object(all) => all,
        _ => Seq::empty(),
    };
    let ghost f = |m: (Seq<char>, Json)| integer_member(m);
    assert(all.take(0) =~= Seq::<(Seq<char>, Json)>::empty());
    let mut i: usize = 0;
    while i < members.len()
        invariant
            i <= members.len(),
            members@.len() == all.len(),
            forall|j: int|
                0 <= j < all.len() ==> (#[trigger] members@[j]).0@ == all[j].0 && json::json_of(
                    *members@[j].1,
                ) == all[j].1,
            f == (|m: (Seq<char>, Json)| integer_member(m)),
            counts_view(out@) == select::picked(all.take(i as int), f),
            forall|j: int, k: int|
                0 <= j < k < members@.len() ==> (#[trigger] members@[j]).0@ != (
                #[trigger] members@[k]).0@,
            forall|k: int|
                0 <= k < out@.len() ==> exists|j: int|
                    0 <= j < i && (#[trigger] members@[j]).0@ == (#[trigger] out@[k]).0@,
            distinct_names(out@),
        decreases members.len() - i,
    {
        proof {
            assert(all.take(i + 1) =~= all.take(i as int).push(all[i as int]));
            select::picked_pushed(all.take(i as int), all[i as int], f);
        }
        let member = &members[i];
        assert(member.0@ == all[i as int].0 && json::json_of(*member.1) == all[i as int].1);
        if let Some(n) = json::as_i64(member.1) {
            let ghost before = out@;
            out.push((member.0.clone(), n));
            assert(counts_view(out@) =~= counts_view(before).push((member.0@, n)));
            assert forall|k: int| 0 <= k < out@.len() implies exists|j: int|
                0 <= j < i + 1 && (#[trigger] members@[j]).0@ == (#[trigger] out@[k]).0@ by {
                if k == before.len() {
                    assert(members@[i as int].0@ == out@[k].0@);
                } else {
                    assert(out@[k] == before[k]);
                    let j = choose|j: int|
                        0 <= j < i && (#[trigger] members@[j]).0@ == before[k].0@;
                    assert(members@[j].0@ == out@[k].0@ && j < i);
                }
            }
        }
        i = i + 1;
    }
    assert(all.take(i as int) =~= all);
    out
}

proof fn sum_of_failed(values: Seq<(Seq<char>, i64)>, n: int)
    requires
        0 <= n <= values.len(),
        sum_of(values.take(n)) is None,
    ensures
        sum_of(values) is None,
    decreases values.len() - n,
{
    if n < values.len() {
        assert(values.take(n + 1).drop_last() =~= values.take(n));
        sum_of_failed(values, n + 1);
    } else {
        assert(values.take(n) =~= values);
    }
}

/// Sums the integer values of a JSON object (a stats category), if the sum fits
pub fn sum_category(stats: &JsonValue, category: &str) -> (r: Option<i64>)
    ensures
        r == sum_of(integers_in(json::json_of(*stats), category@)),
{
    let values = stat_map(stats, category);
    let ghost all = counts_view(values@);
    let mut total: i64 = 0;
    let mut i: usize = 0;
    assert(all.take(0) =~= Seq::<(Seq<char>, i64)>::empty());
    while i < values.len()
        invariant
            i <= values.len(),
            all == counts_view(values@),
            all == integers_in(json::json_of(*stats), category@),
            all.len() == values@.len(),
            sum_of(all.take(i as int)) == Some(total),
        decreases values.len() - i,
    {
        assert(all.take(i + 1).drop_last() =~= all.take(i as int));
        assert(all.take(i + 1).last().1 == values@[i as int].1);
        total = match total.checked_add(values[i].1) {
            Some(sum) => sum,
            None => {
                proof {
                    sum_of_failed(all, i + 1);
                }
                return None;
            },
        };
        i = i + 1;
    }
    assert(all.take(i as int) =~= all);
    Some(total)
}

/// A single custom stat value; missing ones are zero
pub open spec fn custom_in(custom: Option<Json>, key: Seq<char>) -> i64 {
    match custom {
        Some(c) => match c.member(key) {
            Some(v) => match v.integer() {
                Some(n) => n,
                None => 0,
            },
            None => 0,
        },
        None => 0,
    }
}

/// Reads a single custom stat value
fn custom_stat(custom: Option<&JsonValue>, key: &str) -> (r: i64)
    ensures
        r == custom_in(
            match custom {
                Some(c) => Some(json::json_of(*c)),
                None => None,
            },
            key@,
        ),
{
    let custom = match custom {
        Some(custom) => custom,
        None => return 0,
    };
    match json::get(custom, key) {
        Some(value) => match json::as_i64(value) {
            Some(n) => n,
            None => 0,
        },
        None => 0,
    }
}

/// The `stats` member of a stats file
pub open spec fn stats_member(root: Json) -> Json {
    match root.member("stats"@) {
        Some(stats) => stats,
        None => Json::Null,
    }
}

/// The statistics of a stats file, if their sums fit
pub open spec fn stats_in(root: Json) -> Option<Stats> {
    let stats = stats_member(root);
    let custom = stats.member("minecraft:custom"@);
    // `play_time` replaced the older `play_one_minute` key in 1.17.
    let time = custom_in(custom, "minecraft:play_time"@);
    let minutes = custom_in(custom, "minecraft:play_one_minute"@);
    match (
        sum_of(integers_in(stats, "minecraft:mined"@)),
        sum_of(integers_in(stats, "minecraft:used"@)),
    ) {
        (Some(blocks_mined), Some(blocks_placed)) => Some(
            Stats {
                play_time: if time >= minutes {
                    time
                } else {
                    minutes
                },
                deaths: custom_in(custom, "minecraft:deaths"@),
                mob_kills: custom_in(custom, "minecraft:mob_kills"@),
                player_kills: custom_in(custom, "minecraft:player_kills"@),
                walk_cm: custom_in(custom, "minecraft:walk_one_cm"@),
                sprint_cm: custom_in(custom, "minecraft:sprint_one_cm"@),
                swim_cm: custom_in(custom, "minecraft:swim_one_cm"@),
                fly_cm: custom_in(custom, "minecraft:aviate_one_cm"@),
                blocks_mined,
                blocks_placed,
            },
        ),
        _ => None,
    }
}

/// The parts of a stats file that belong to a player
#[derive(Debug)]
pub struct StatsFile {
    /// Accumulated statistics
    pub stats: Stats,
    /// Causes of death, by source entity id
    pub killed_by: Vec<(String, i64)>,
    /// Crafted items, by item id
    pub crafted: Vec<(String, i64)>,
}

/// Reads the statistics in a stats file, if their sums fit
pub fn read_stats(root: &JsonValue) -> (r: Option<StatsFile>)
    ensures
        match stats_in(json::json_of(*root)) {
            Some(stats) => {
                &&& r matches Some(file)
                &&& file.stats == stats
                &&& counts_view(file.killed_by@) == integers_in(
                    stats_member(json::json_of(*root)),
                    "minecraft:killed_by"@,
                )
                &&& counts_view(file.crafted@) == integers_in(
                    stats_member(json::json_of(*root)),
                    "minecraft:crafted"@,
                )
                &&& distinct_names(file.killed_by@)
                &&& distinct_names(file.crafted@)
            },
            None => r is None,
        },
{
    let stats = match json::get(root, "stats") {
        Some(stats) => stats,
        // Without statistics, everything is zero
        None => {
            return Some(
                StatsFile {
                    stats: Stats {
                        play_time: 0,
                        deaths: 0,
                        mob_kills: 0,
                        player_kills: 0,
                        walk_cm: 0,
                        sprint_cm: 0,
                        swim_cm: 0,
                        fly_cm: 0,
                        blocks_mined: 0,
                        blocks_placed: 0,
                    },
                    killed_by: no_counts(),
                    crafted: no_counts(),
                },
            );
        },
    };
    let custom = json::get(stats, "minecraft:custom");
    // `play_time` replaced the older `play_one_minute` key in 1.17.
    let time: i64 = custom_stat(custom, "minecraft:play_time");
    let minutes: i64 = custom_stat(custom, "minecraft:play_one_minute");
    let blocks_mined: i64 = match sum_category(stats, "minecraft:mined") {
        Some(n) => n,
        None => return None,
    };
    let blocks_placed: i64 = match sum_category(stats, "minecraft:used") {
        Some(n) => n,
        None => return None,
    };
    Some(
        StatsFile {
            stats: Stats {
                play_time: if time >= minutes {
                    time
                } else {
                    minutes
                },
                deaths: custom_stat(custom, "minecraft:deaths"),
                mob_kills: custom_stat(custom, "minecraft:mob_kills"),
                player_kills: custom_stat(custom, "minecraft:player_kills"),
                walk_cm: custom_stat(custom, "minecraft:walk_one_cm"),
                sprint_cm: custom_stat(custom, "minecraft:sprint_one_cm"),
                swim_cm: custom_stat(custom, "minecraft:swim_one_cm"),
                fly_cm: custom_stat(custom, "minecraft:aviate_one_cm"),
                blocks_mined,
                blocks_placed,
            },
            killed_by: stat_map(stats, "minecraft:killed_by"),
            crafted: stat_map(stats, "minecraft:crafted"),
        },
    )
}

/// Returns a list without names and numbers
fn no_counts() -> (r: Vec<(String, i64)>)
    ensures
        counts_view(r@) == Seq::<(Seq<char>, i64)>::empty(),
        r@.len() == 0,
{
    let r: Vec<(String, i64)> = Vec::new();
    assert(counts_view(r@) =~= Seq::<(Seq<char>, i64)>::empty());
    r
}

/// What became of a stats file
#[derive(Debug, Clone, Copy, PartialEq, Eq, Structural)]
pub enum StatsOutcome {
    /// The statistics belong to the player now
    Applied,
    /// The file is not JSON
    Invalid,
    /// A sum of statistics does not fit
    TooLarge,
}

/// A player has the statistics of a stats file
pub open spec fn shows_stats(player: Player, root: Json) -> bool {
    &&& player.stats == stats_in(root)
    &&& counts_view(player.killed_by@) == integers_in(stats_member(root), "minecraft:killed_by"@)
    &&& counts_view(player.crafted@) == integers_in(stats_member(root), "minecraft:crafted"@)
    &&& distinct_names(player.killed_by@)
    &&& distinct_names(player.crafted@)
}

/// Two players agree in everything but their statistics
pub open spec fn same_but_stats(a: Player, b: Player) -> bool {
    a == (Player { stats: a.stats, killed_by: a.killed_by, crafted: a.crafted, ..b })
}

/// Applies the contents of `stats/<uuid>.json` to a player
pub fn apply_stats(player: &mut Player, data: &[u8]) -> (r: StatsOutcome)
    ensures
        same_but_stats(*final(player), *old(player)),
        match json::document(data@) {
            None => r == StatsOutcome::Invalid && *final(player) == *old(player),
            Some(root) => match stats_in(root) {
                None => r == StatsOutcome::TooLarge && *final(player) == *old(player),
                Some(_) => r == StatsOutcome::Applied && shows_stats(*final(player), root),
            },
        },
{
    let root = match json::parse(data) {
        Ok(root) => root,
        Err(_) => return StatsOutcome::Invalid,
    };
    match read_stats(&root) {
        Some(file) => {
            player.stats = Some(file.stats);
            player.killed_by = file.killed_by;
            player.crafted = file.crafted;
            StatsOutcome::Applied
        },
        None => StatsOutcome::TooLarge,
    }
}

/// The lower case form of a text
pub uninterp spec fn lowercased(s: Seq<char>) -> Seq<char>;

/// `str::to_lowercase`: the result depends on the text alone
#[verifier::external_body]
fn to_lowercase(s: &str) -> (r: String)
    ensures
        r@ == lowercased(s@),
{
    s.to_lowercase()
}

/// A UUID→name cache built from `usercache.json` / `usernamecache.json`
#[derive(Debug)]
pub struct NameCache {
    /// UUIDs in lower case, and names; each UUID occurs once
    entries: Vec<(String, String)>,
}

/// The name that belongs to a UUID
pub open spec fn name_of(entries: Seq<(Seq<char>, Seq<char>)>, uuid: Seq<char>) -> Option<Seq<char>>
    decreases entries.len(),
{
    if entries.len() == 0 {
        None
    } else if entries[0].0 == uuid {
        Some(entries[0].1)
    } else {
        name_of(entries.skip(1), uuid)
    }
}

/// A cache with a UUID and a name added, unless the UUID has a name already
pub open spec fn with_name(
    entries: Seq<(Seq<char>, Seq<char>)>,
    uuid: Seq<char>,
    name: Seq<char>,
) -> Seq<(Seq<char>, Seq<char>)> {
    if name_of(entries, lowercased(uuid)) is Some {
        entries
    } else {
        entries.push((lowercased(uuid), name))
    }
}

/// A cache with UUIDs and names added
pub open spec fn with_names(
    entries: Seq<(Seq<char>, Seq<char>)>,
    pairs: Seq<(String, String)>,
) -> Seq<(Seq<char>, Seq<char>)>
    decreases pairs.len(),
{
    if pairs.len() == 0 {
        entries
    } else {
        with_name(
            with_names(entries, pairs.drop_last()),
            pairs.last().0@,
            pairs.last().1@,
        )
    }
}

/// A cache made of several sources, the first of which count most
pub open spec fn with_sources(sources: Seq<Vec<(String, String)>>) -> Seq<(Seq<char>, Seq<char>)>
    decreases sources.len(),
{
    if sources.len() == 0 {
        Seq::empty()
    } else {
        with_names(with_sources(sources.drop_last()), sources.last()@)
    }
}

impl View for NameCache {
    type V = Seq<(Seq<char>, Seq<char>)>;

    closed spec fn view(&self) -> Seq<(Seq<char>, Seq<char>)> {
        pairs_view(self.entries@)
    }
}

/// Pairs of texts
pub open spec fn pairs_view(pairs: Seq<(String, String)>) -> Seq<(Seq<char>, Seq<char>)> {
    pairs.map_values(|p: (String, String)| (p.0@, p.1@))
}

impl NameCache {
    /// Creates an empty cache
    pub fn new() -> (r: Self)
        ensures
            r@ == Seq::<(Seq<char>, Seq<char>)>::empty(),
    {
        let r = NameCache { entries: Vec::new() };
        assert(r@ =~= Seq::<(Seq<char>, Seq<char>)>::empty());
        r
    }

    /// Looks up a key
    fn find(&self, key: &str) -> (r: Option<&String>)
        ensures
            match name_of(self@, key@) {
                Some(name) => r matches Some(n) && n@ == name,
                None => r is None,
            },
    {
        let ghost all = pairs_view(self.entries@);
        let mut i: usize = 0;
        assert(all.skip(0) =~= all);
        while i < self.entries.len()
            invariant
                i <= self.entries.len(),
                all == pairs_view(self.entries@),
                name_of(self@, key@) == name_of(all.skip(i as int), key@),
            decreases self.entries.len() - i,
        {
            assert(all.skip(i as int).skip(1) =~= all.skip(i + 1));
            if text::same(self.entries[i].0.as_str(), key) {
                return Some(&self.entries[i].1);
            }
            i = i + 1;
        }
        None
    }

    /// Adds a UUID and a name, unless the UUID has a name already
    pub fn add(&mut self, uuid: &str, name: &str)
        ensures
            final(self)@ == with_name(old(self)@, uuid@, name@),
    {
        let key = to_lowercase(uuid);
        if self.find(key.as_str()).is_none() {
            self.entries.push((key, name.to_owned()));
            assert(self@ =~= old(self)@.push((key@, name@)));
        }
    }

    /// Adds UUIDs and names
    pub fn add_all(&mut self, pairs: &Vec<(String, String)>)
        ensures
            final(self)@ == with_names(old(self)@, pairs@),
    {
        let mut i: usize = 0;
        assert(pairs@.take(0) =~= Seq::<(String, String)>::empty());
        while i < pairs.len()
            invariant
                i <= pairs.len(),
                self@ == with_names(old(self)@, pairs@.take(i as int)),
            decreases pairs.len() - i,
        {
            assert(pairs@.take(i + 1).drop_last() =~= pairs@.take(i as int));
            self.add(pairs[i].0.as_str(), pairs[i].1.as_str());
            i = i + 1;
        }
        assert(pairs@.take(i as int) =~= pairs@);
    }

    /// Returns the name that belongs to a UUID
    pub fn get(&self, uuid: &str) -> (r: Option<String>)
        ensures
            match name_of(self@, lowercased(uuid@)) {
                Some(name) => r matches Some(n) && n@ == name,
                None => r is None,
            },
    {
        match self.find(to_lowercase(uuid).as_str()) {
            Some(name) => Some(name.clone()),
            None => None,
        }
    }
}

/// Reads a Forge/NeoForge `usernamecache.json`: a plain {uuid: name} object
pub fn parse_usernamecache(data: &[u8]) -> (r: Option<Vec<(String, String)>>)
    ensures
        r is Some <==> json::string_map(data@) is Some,
        r matches Some(pairs) ==> json::lists_map(pairs@, json::string_map(data@)->0),
{
    json::parse_string_map(data)
}

/// The directories that may hold a name cache: the input directory and its parent
pub open spec fn cache_dirs(input_dir: Seq<char>) -> Seq<Seq<char>> {
    match paths::parent(input_dir) {
        Some(parent) => seq![input_dir, parent],
        None => seq![input_dir],
    }
}

/// Returns the directories that may hold a name cache: the input directory and its parent
///
/// On a dedicated server the world directory is a subdirectory of the server
/// directory, and `usercache.json` / `usernamecache.json` live next to the
/// world directory rather than inside it.
pub fn name_cache_dirs(input_dir: &str) -> (r: Vec<String>)
    ensures
        crate::patterns::texts(r@) == cache_dirs(input_dir@),
{
    let mut dirs: Vec<String> = Vec::new();
    dirs.push(input_dir.to_owned());
    if let Some(parent) = paths::parent_of(input_dir) {
        dirs.push(parent.to_owned());
    }
    assert(crate::patterns::texts(dirs@) =~= cache_dirs(input_dir@));
    dirs
}

/// Builds a name cache from its sources: of each directory the `usernamecache.json` and the
/// `usercache.json`, as far as they could be read
pub fn load_name_cache(sources: &Vec<Vec<(String, String)>>) -> (r: NameCache)
    ensures
        r@ == with_sources(sources@),
{
    let mut cache = NameCache::new();
    let mut i: usize = 0;
    assert(sources@.take(0) =~= Seq::<Vec<(String, String)>>::empty());
    while i < sources.len()
        invariant
            i <= sources.len(),
            cache@ == with_sources(sources@.take(i as int)),
        decreases sources.len() - i,
    {
        assert(sources@.take(i + 1).drop_last() =~= sources@.take(i as int));
        cache.add_all(&sources[i]);
        i = i + 1;
    }
    assert(sources@.take(i as int) =~= sources@);
    cache
}

proof fn name_of_pushed(
    entries: Seq<(Seq<char>, Seq<char>)>,
    entry: (Seq<char>, Seq<char>),
    uuid: Seq<char>,
)
    ensures
        name_of(entries.push(entry), uuid) == (match name_of(entries, uuid) {
            Some(name) => Some(name),
            None => if entry.0 == uuid {
                Some(entry.1)
            } else {
                None
            },
        }),
    decreases entries.len(),
{
    if entries.len() == 0 {
        reveal_with_fuel(name_of, 2);
        assert(entries.push(entry).skip(1) =~= entries);
    } else {
        assert(entries.push(entry).skip(1) =~= entries.skip(1).push(entry));
        name_of_pushed(entries.skip(1), entry, uuid);
    }
}

/// Names that are added later do not replace names that are known
pub proof fn known_names_kept(
    entries: Seq<(Seq<char>, Seq<char>)>,
    pairs: Seq<(String, String)>,
    uuid: Seq<char>,
)
    requires
        name_of(entries, uuid) is Some,
    ensures
        name_of(with_names(entries, pairs), uuid) == name_of(entries, uuid),
    decreases pairs.len(),
{
    if pairs.len() > 0 {
        known_names_kept(entries, pairs.drop_last(), uuid);
        let before = with_names(entries, pairs.drop_last());
        name_of_pushed(before, (lowercased(pairs.last().0@), pairs.last().1@), uuid);
    }
}

/// The name of a player is found whatever the case of the letters in its UUID
pub proof fn added_name_found(
    entries: Seq<(Seq<char>, Seq<char>)>,
    uuid: Seq<char>,
    name: Seq<char>,
    other: Seq<char>,
)
    requires
        name_of(entries, lowercased(uuid)) is None,
        lowercased(other) == lowercased(uuid),
    ensures
        name_of(with_name(entries, uuid, name), lowercased(other)) == Some(name),
{
    name_of_pushed(entries, (lowercased(uuid), name), lowercased(other));
}

proof fn numbers_agree(a: Nbt, b: Nbt, java: JavaNbt, key: Seq<char>)
    requires
        java_nbt::agrees(a, java),
        java_nbt::agrees(b, java),
    ensures
        a.entry(key) is Some <==> b.entry(key) is Some,
        integer_entry(a, key) == integer_entry(b, key),
        number_entry(a, key) == number_entry(b, key),
        text_entry(a, key) == text_entry(b, key),
        dimension_in(a.entry(key)) == dimension_in(b.entry(key)),
        forall|i: int| number_at(a.entry(key), i) == #[trigger] number_at(b.entry(key), i),
{
    java_nbt::entry_agrees(a, java, key);
    java_nbt::entry_agrees(b, java, key);
    assert forall|i: int| number_at(a.entry(key), i) == #[trigger] number_at(b.entry(key), i) by {
        if let (Some(Nbt::List(s)), Some(Nbt::List(t))) = (a.entry(key), b.entry(key)) {
            if 0 <= i < s.len() {
                let items = java.entry(key)->0->List_0;
                assert(java_nbt::agrees(s[i], items[i]) && java_nbt::agrees(t[i], items[i]));
            }
        }
    }
}

proof fn item_agrees(a: Nbt, b: Nbt, java: JavaNbt)
    requires
        java_nbt::agrees(a, java),
        java_nbt::agrees(b, java),
    ensures
        item_in(a) == item_in(b),
{
    numbers_agree(a, b, java, "id"@);
    numbers_agree(a, b, java, "count"@);
    numbers_agree(a, b, java, "Count"@);
    numbers_agree(a, b, java, "Slot"@);
}

proof fn items_agree(a: Nbt, b: Nbt, java: JavaNbt, key: Seq<char>)
    requires
        java_nbt::agrees(a, java),
        java_nbt::agrees(b, java),
    ensures
        items_in(a.entry(key)) == items_in(b.entry(key)),
{
    java_nbt::entry_agrees(a, java, key);
    java_nbt::entry_agrees(b, java, key);
    if let (Some(Nbt::List(s)), Some(Nbt::List(t))) = (a.entry(key), b.entry(key)) {
        let f = |x: Nbt| item_in(x);
        let items = java.entry(key)->0->List_0;
        assert forall|i: int| 0 <= i < s.len() implies #[trigger] f(s[i]) == f(t[i]) by {
            item_agrees(s[i], t[i], items[i]);
        }
        select::picked_alike(s, t, f);
    }
}

/// The data of a player do not depend on the order in which the entries of compounds are kept
pub proof fn entry_order_ignored(
    player: Player,
    uuid: Seq<char>,
    a: Nbt,
    b: Nbt,
    root: JavaNbt,
)
    requires
        java_nbt::agrees(a, root),
        java_nbt::agrees(b, root),
    ensures
        shows_player(player, uuid, a) == shows_player(player, uuid, b),
{
    numbers_agree(a, b, root, "Pos"@);
    numbers_agree(a, b, root, "Dimension"@);
    numbers_agree(a, b, root, "Rotation"@);
    numbers_agree(a, b, root, "SpawnX"@);
    numbers_agree(a, b, root, "SpawnY"@);
    numbers_agree(a, b, root, "SpawnZ"@);
    numbers_agree(a, b, root, "XpLevel"@);
    numbers_agree(a, b, root, "XpTotal"@);
    numbers_agree(a, b, root, "XpP"@);
    numbers_agree(a, b, root, "Health"@);
    numbers_agree(a, b, root, "foodLevel"@);
    items_agree(a, b, root, "Inventory"@);
    items_agree(a, b, root, "EnderItems"@);
}

/// A player's files
#[derive(Debug)]
pub struct PlayerFile {
    /// Player UUID
    pub uuid: String,
    /// Contents of `playerdata/<uuid>.dat`, if it could be read
    pub data: Option<Vec<u8>>,
    /// Contents of `stats/<uuid>.json`, if it could be read
    pub stats: Option<Vec<u8>>,
}

/// The NBT data of a player, if they could be read
pub open spec fn file_root(file: PlayerFile) -> Option<JavaNbt> {
    match file.data {
        Some(raw) => java_nbt::root_in(raw@),
        None => None,
    }
}

/// A player's stats file holds sums that do not fit
pub open spec fn stats_too_large(file: PlayerFile) -> bool {
    match (file_root(file), file.stats) {
        (Some(_), Some(data)) => match json::document(data@) {
            Some(root) => stats_in(root) is None,
            None => false,
        },
        _ => false,
    }
}

/// A player has the data of its files
pub open spec fn shows_file(
    player: Player,
    file: PlayerFile,
    names: Seq<(Seq<char>, Seq<char>)>,
) -> bool {
    &&& file_root(file) matches Some(root) && exists|tree: Nbt| #[trigger]
        java_nbt::agrees(tree, root) && shows_player(player, file.uuid@, tree)
    &&& match name_of(names, lowercased(file.uuid@)) {
        Some(name) => player.name matches Some(n) && n@ == name,
        None => player.name is None,
    }
    &&& match file.stats {
        Some(data) => match json::document(data@) {
            Some(root) => shows_stats(player, root),
            None => has_no_stats(player),
        },
        None => has_no_stats(player),
    }
}

/// A player has no statistics
pub open spec fn has_no_stats(player: Player) -> bool {
    player.stats is None && player.killed_by@.len() == 0 && player.crafted@.len() == 0
}

/// Players have the data of those files that could be read, in the order of the files
pub open spec fn shows_files(
    players: Seq<Player>,
    files: Seq<PlayerFile>,
    names: Seq<(Seq<char>, Seq<char>)>,
) -> bool
    decreases files.len(),
{
    if files.len() == 0 {
        players.len() == 0
    } else if file_root(files.last()) is None {
        shows_files(players, files.drop_last(), names)
    } else {
        &&& players.len() > 0
        &&& shows_files(players.drop_last(), files.drop_last(), names)
        &&& shows_file(players.last(), files.last(), names)
    }
}

/// Parses the files of a player, if the player file could be read and the sums of the
/// statistics fit
fn read_player(file: &PlayerFile, names: &NameCache) -> (r: Result<Option<Player>, StatsOutcome>)
    ensures
        match r {
            Ok(Some(player)) => !stats_too_large(*file) && shows_file(player, *file, names@),
            Ok(None) => file_root(*file) is None,
            Err(_) => stats_too_large(*file),
        },
{
    let root = match &file.data {
        Some(raw) => match java_nbt::parse_file(raw.clone()) {
            Some(root) => root,
            None => return Ok(None),
        },
        None => return Ok(None),
    };
    let mut player = parse_player(file.uuid.clone(), &root);
    assert(java_nbt::agrees(root@, file_root(*file)->0));
    player.name = names.get(file.uuid.as_str());
    if let Some(data) = &file.stats {
        let outcome = apply_stats(&mut player, data.as_slice());
        if outcome == StatsOutcome::TooLarge {
            return Err(outcome);
        }
    }
    Ok(Some(player))
}

/// Collects the player data of a Java Edition world, ordered by UUID
///
/// Returns `None` if a sum of statistics does not fit.
pub fn collect(files: &Vec<PlayerFile>, names: &NameCache) -> (r: Option<Vec<Player>>)
    ensures
        r is None <==> exists|i: int|
            0 <= i < files@.len() && stats_too_large(#[trigger] files@[i]),
        r matches Some(players) ==> exists|list: Seq<Player>| #[trigger]
            shows_files(list, files@, names@) && players@ == sorting::sorted(list),
        r matches Some(players) ==> sorting::is_sorted(players@),
{
    let mut players: Vec<Player> = Vec::new();
    let mut i: usize = 0;
    assert(files@.take(0) =~= Seq::<PlayerFile>::empty());
    while i < files.len()
        invariant
            i <= files.len(),
            forall|j: int| 0 <= j < i ==> !stats_too_large(#[trigger] files@[j]),
            shows_files(players@, files@.take(i as int), names@),
        decreases files.len() - i,
    {
        assert(files@.take(i + 1).drop_last() =~= files@.take(i as int));
        match read_player(&files[i], names) {
            Ok(Some(player)) => {
                let ghost before = players@;
                players.push(player);
                assert(players@.drop_last() =~= before);
            },
            Ok(None) => {},
            Err(_) => {
                assert(stats_too_large(files@[i as int]));
                return None;
            },
        }
        i = i + 1;
    }
    assert(files@.take(i as int) =~= files@);
    let ghost list = players@;
    assert(shows_files(list, files@, names@));
    proof {
        sorting::sorted_properties(list);
    }
    Some(sorting::sort(players))
}

/// Returns the directories of the player files and of the stats files
pub fn player_dirs(input_dir: &str) -> (r: (String, String))
    ensures
        r.0@ == paths::joined(input_dir@, "playerdata"@),
        r.1@ == paths::joined(input_dir@, "stats"@),
{
    (paths::join(input_dir, "playerdata"), paths::join(input_dir, "stats"))
}

/// Returns the path of a player's stats file
pub fn stats_path(stats_dir: &str, uuid: &str) -> (r: String)
    ensures
        r@ == paths::joined(stats_dir@, uuid@ + ".json"@),
{
    let mut name: String = uuid.to_owned();
    name.append(".json");
    paths::join(stats_dir, name.as_str())
}

/// An object counts `n` under a name
pub open spec fn counts(object: Json, name: Seq<char>, n: i64) -> bool {
    object.member(name) == Some(Json::Number(Some(n)))
}

/// An object counts nothing under a name
pub open spec fn uncounted(object: Json, name: Seq<char>) -> bool {
    !(object.member(name) matches Some(Json::Number(Some(_))))
}

/// Each statistic of a player is the number that stands under its name in the
/// `minecraft:custom` object of the stats file, whatever else the object holds; statistics
/// that are missing are zero
///
/// The time played stands under one of two names, depending on the version of the game; where
/// both are there, the larger number is taken.
pub proof fn statistics_by_name(
    player: Player,
    root: Json,
    categories: Json,
    custom: Json,
    stats: Stats,
    n: i64,
    m: i64,
)
    requires
        shows_stats(player, root),
        player.stats == Some(stats),
        root.member("stats"@) == Some(categories),
        categories.member("minecraft:custom"@) == Some(custom),
    ensures
        counts(custom, "minecraft:deaths"@, n) ==> stats.deaths == n,
        uncounted(custom, "minecraft:deaths"@) ==> stats.deaths == 0,
        counts(custom, "minecraft:mob_kills"@, n) ==> stats.mob_kills == n,
        uncounted(custom, "minecraft:mob_kills"@) ==> stats.mob_kills == 0,
        counts(custom, "minecraft:player_kills"@, n) ==> stats.player_kills == n,
        uncounted(custom, "minecraft:player_kills"@) ==> stats.player_kills == 0,
        counts(custom, "minecraft:walk_one_cm"@, n) ==> stats.walk_cm == n,
        uncounted(custom, "minecraft:walk_one_cm"@) ==> stats.walk_cm == 0,
        counts(custom, "minecraft:sprint_one_cm"@, n) ==> stats.sprint_cm == n,
        uncounted(custom, "minecraft:sprint_one_cm"@) ==> stats.sprint_cm == 0,
        counts(custom, "minecraft:swim_one_cm"@, n) ==> stats.swim_cm == n,
        uncounted(custom, "minecraft:swim_one_cm"@) ==> stats.swim_cm == 0,
        counts(custom, "minecraft:aviate_one_cm"@, n) ==> stats.fly_cm == n,
        uncounted(custom, "minecraft:aviate_one_cm"@) ==> stats.fly_cm == 0,
        counts(custom, "minecraft:play_time"@, n) && counts(
            custom,
            "minecraft:play_one_minute"@,
            m,
        ) ==> stats.play_time >= n && stats.play_time >= m && (stats.play_time == n
            || stats.play_time == m),
        counts(custom, "minecraft:play_time"@, n) && uncounted(
            custom,
            "minecraft:play_one_minute"@,
        ) && n >= 0 ==> stats.play_time == n,
        uncounted(custom, "minecraft:play_time"@) && counts(
            custom,
            "minecraft:play_one_minute"@,
            m,
        ) && m >= 0 ==> stats.play_time == m,
        uncounted(custom, "minecraft:play_time"@) && uncounted(
            custom,
            "minecraft:play_one_minute"@,
        ) ==> stats.play_time == 0,
{
}

/// Without a `minecraft:custom` object, the statistics it would hold are zero
pub proof fn statistics_missing(player: Player, root: Json, stats: Stats)
    requires
        shows_stats(player, root),
        player.stats == Some(stats),
        match root.member("stats"@) {
            Some(categories) => categories.member("minecraft:custom"@) is None,
            None => true,
        },
    ensures
        stats.play_time == 0 && stats.deaths == 0 && stats.mob_kills == 0 && stats.player_kills == 0 && stats.walk_cm == 0 && stats.sprint_cm == 0 && stats.swim_cm == 0 && stats.fly_cm == 0,
{
}

/// What a member of a stats category adds to its total
pub open spec fn amount(m: (Seq<char>, Json)) -> int {
    match m.1 {
        Json::Number(Some(n)) => n as int,
        _ => 0,
    }
}

/// The total of the integers of a stats category
pub open spec fn category_total(members: Seq<(Seq<char>, Json)>) -> int {
    members.fold_left(0int, |sum: int, m: (Seq<char>, Json)| sum + amount(m))
}

/// The integers of a stats category, by their names
pub open spec fn category_integers(members: Seq<(Seq<char>, Json)>) -> Seq<(Seq<char>, i64)> {
    members.filter_map(
        |m: (Seq<char>, Json)|
            match m.1 {
                Json::Number(Some(n)) => Some((m.0, n)),
                _ => None,
            },
    )
}

proof fn integers_listed(categories: Json, category: Seq<char>, members: Seq<(Seq<char>, Json)>)
    requires
        categories.member(category) == Some(Json::Object(members)),
    ensures
        integers_in(categories, category) == category_integers(members),
{
    let f = |m: (Seq<char>, Json)| integer_member(m);
    let g = |m: (Seq<char>, Json)|
        match m.1 {
            Json::Number(Some(n)) => Some((m.0, n)),
            _ => None::<(Seq<char>, i64)>,
        };
    select::picked_filters(members, f);
    assert forall|m: (Seq<char>, Json)| #[trigger] f(m) == g(m) by {}
    assert(f =~= g);
}

proof fn integers_summed(members: Seq<(Seq<char>, Json)>)
    ensures
        sum_of(select::picked(members, |m: (Seq<char>, Json)| integer_member(m))) matches Some(
            sum,
        ) ==> sum == category_total(members),
    decreases members.len(),
{
    let f = |m: (Seq<char>, Json)| integer_member(m);
    if members.len() > 0 {
        integers_summed(members.drop_last());
        let before = select::picked(members.drop_last(), f);
        if let Some(u) = f(members.last()) {
            assert(before.push(u).drop_last() =~= before);
        }
    }
}

/// The blocks mined and placed are the totals of the integers in their categories, and the
/// causes of death and crafted items are the integers in theirs, by their names
pub proof fn categories_by_name(
    player: Player,
    root: Json,
    categories: Json,
    stats: Stats,
    members: Seq<(Seq<char>, Json)>,
)
    requires
        shows_stats(player, root),
        player.stats == Some(stats),
        root.member("stats"@) == Some(categories),
    ensures
        categories.member("minecraft:mined"@) == Some(Json::Object(members))
            ==> stats.blocks_mined == category_total(members),
        categories.member("minecraft:used"@) == Some(Json::Object(members))
            ==> stats.blocks_placed == category_total(members),
        categories.member("minecraft:killed_by"@) == Some(Json::Object(members)) ==> counts_view(
            player.killed_by@,
        ) == category_integers(members),
        categories.member("minecraft:crafted"@) == Some(Json::Object(members)) ==> counts_view(
            player.crafted@,
        ) == category_integers(members),
        !(categories.member("minecraft:mined"@) matches Some(Json::Object(_)))
            ==> stats.blocks_mined == 0,
        !(categories.member("minecraft:used"@) matches Some(Json::Object(_)))
            ==> stats.blocks_placed == 0,
        !(categories.member("minecraft:killed_by"@) matches Some(Json::Object(_)))
            ==> player.killed_by@.len() == 0,
        !(categories.member("minecraft:crafted"@) matches Some(Json::Object(_)))
            ==> player.crafted@.len() == 0,
{
    if categories.member("minecraft:mined"@) == Some(Json::Object(members)) {
        integers_summed(members);
    }
    if categories.member("minecraft:used"@) == Some(Json::Object(members)) {
        integers_summed(members);
    }
    if categories.member("minecraft:killed_by"@) == Some(Json::Object(members)) {
        integers_listed(categories, "minecraft:killed_by"@, members);
    }
    if categories.member("minecraft:crafted"@) == Some(Json::Object(members)) {
        integers_listed(categories, "minecraft:crafted"@, members);
    }
    assert(counts_view(player.killed_by@).len() == player.killed_by@.len());
    assert(counts_view(player.crafted@).len() == player.crafted@.len());
}

proof fn total_fits(members: Seq<(Seq<char>, Json)>)
    requires
        forall|i: int| 0 <= i < members.len() ==> amount(#[trigger] members[i]) >= 0,
        category_total(members) <= i64::MAX,
    ensures
        sum_of(select::picked(members, |m: (Seq<char>, Json)| integer_member(m))) is Some,
        category_total(members) >= 0,
    decreases members.len(),
{
    let f = |m: (Seq<char>, Json)| integer_member(m);
    if members.len() > 0 {
        let rest = members.drop_last();
        assert(amount(members[members.len() - 1]) >= 0);
        assert forall|i: int| 0 <= i < rest.len() implies amount(#[trigger] rest[i]) >= 0 by {
            assert(rest[i] == members[i]);
        }
        total_fits(rest);
        integers_summed(rest);
        let before = select::picked(rest, f);
        if let Some(u) = f(members.last()) {
            assert(before.push(u).drop_last() =~= before);
        }
    }
}

/// A stats category of counts that are not negative has a total that fits
pub open spec fn fitting_category(categories: Json, category: Seq<char>) -> bool {
    categories.member(category) matches Some(Json::Object(members)) ==> {
        &&& forall|i: int| 0 <= i < members.len() ==> amount(#[trigger] members[i]) >= 0
        &&& category_total(members) <= i64::MAX
    }
}

/// Statistics are there whenever the totals of the blocks mined and placed fit
pub proof fn fitting_statistics(root: Json)
    requires
        root.member("stats"@) matches Some(categories) ==> fitting_category(
            categories,
            "minecraft:mined"@,
        ) && fitting_category(categories, "minecraft:used"@),
    ensures
        stats_in(root) is Some,
{
    let categories = stats_member(root);
    if let Some(Json::Object(members)) = categories.member("minecraft:mined"@) {
        total_fits(members);
    }
    if let Some(Json::Object(members)) = categories.member("minecraft:used"@) {
        total_fits(members);
    }
}

/// The data of a player are what stands under their names in the player file
pub proof fn player_data_by_name(player: Player, uuid: Seq<char>, root: Nbt, n: int, l: Seq<Nbt>, i: int)
    requires
        shows_player(player, uuid, root),
        i32::MIN <= n <= i32::MAX,
    ensures
        player.uuid@ == uuid,
        root.entry("Pos"@) == Some(Nbt::List(l)) && 0 <= i < 3 && i < l.len() ==> {
            &&& l[i] matches Nbt::Double(bits) ==> player.pos[i] == Number::Double(bits)
            &&& l[i] matches Nbt::Float(bits) ==> player.pos[i] == Number::Float(bits)
        },
        root.entry("Rotation"@) == Some(Nbt::List(l)) && 0 <= i < 2 && i < l.len() ==> {
            &&& l[i] matches Nbt::Double(bits) ==> player.rotation[i] == Number::Double(bits)
            &&& l[i] matches Nbt::Float(bits) ==> player.rotation[i] == Number::Float(bits)
        },
        root.entry("Pos"@) is None && 0 <= i < 3 ==> player.pos[i] == Number::Int(0),
        root.entry("Rotation"@) is None && 0 <= i < 2 ==> player.rotation[i] == Number::Int(0),
        root.entry("Dimension"@) matches Some(Nbt::Text(name)) ==> player.dimension@ == name,
        root.entry("Dimension"@) == Some(Nbt::Int((-1) as i32)) ==> player.dimension@
            == "minecraft:the_nether"@,
        root.entry("Dimension"@) == Some(Nbt::Int(1)) ==> player.dimension@ == "minecraft:the_end"@,
        root.entry("Dimension"@) == Some(Nbt::Int(0)) ==> player.dimension@
            == "minecraft:overworld"@,
        root.entry("Dimension"@) is None ==> player.dimension@ == "minecraft:overworld"@,
        root.entry("XpLevel"@) == Some(Nbt::Int(n as i32)) ==> player.xp.level == n,
        root.entry("XpLevel"@) is None ==> player.xp.level == 0,
        root.entry("XpTotal"@) == Some(Nbt::Int(n as i32)) ==> player.xp.total == n,
        root.entry("XpTotal"@) is None ==> player.xp.total == 0,
        root.entry("XpP"@) matches Some(Nbt::Float(bits)) ==> player.xp.progress == Number::Float(
            bits,
        ),
        root.entry("XpP"@) is None ==> player.xp.progress == Number::Int(0),
        root.entry("Health"@) matches Some(Nbt::Float(bits)) ==> player.health == Number::Float(
            bits,
        ),
        root.entry("Health"@) is None ==> player.health == Number::Int(0),
        root.entry("foodLevel"@) == Some(Nbt::Int(n as i32)) ==> player.food == Number::Int(
            n as i64,
        ),
        root.entry("foodLevel"@) is None ==> player.food == Number::Int(0),
        root.entry("Inventory"@) is None ==> player.inventory@.len() == 0,
        root.entry("EnderItems"@) is None ==> player.ender_items@.len() == 0,
{
    low32_kept(n);
    low32_kept(0);
    assert(items_view(player.inventory@).len() == player.inventory@.len());
    assert(items_view(player.ender_items@).len() == player.ender_items@.len());
    if 0 <= i < 3 {
        assert(player.pos[i] == number_at(root.entry("Pos"@), i));
    }
    if 0 <= i < 2 {
        assert(player.rotation[i] == number_at(root.entry("Rotation"@), i));
    }
}

/// Numbers of 32 bits are kept
pub proof fn low32_kept(n: int)
    requires
        i32::MIN <= n <= i32::MAX,
    ensures
        low32(n as i64) == n,
{
}

/// The respawn position of a player is that of the player file, where it has one
pub proof fn spawn_by_name(player: Player, uuid: Seq<char>, root: Nbt, x: int, y: int, z: int)
    requires
        shows_player(player, uuid, root),
        i32::MIN <= x <= i32::MAX,
        i32::MIN <= y <= i32::MAX,
        i32::MIN <= z <= i32::MAX,
    ensures
        root.entry("SpawnX"@) == Some(Nbt::Int(x as i32)) && root.entry("SpawnZ"@) == Some(
            Nbt::Int(z as i32),
        ) ==> {
            &&& player.spawn matches Some(spawn)
            &&& spawn[0] == x
            &&& spawn[2] == z
            &&& root.entry("SpawnY"@) == Some(Nbt::Int(y as i32)) ==> spawn[1] == y
            &&& root.entry("SpawnY"@) is None ==> spawn[1] == 0
        },
        root.entry("SpawnX"@) is None ==> player.spawn is None,
        root.entry("SpawnZ"@) is None ==> player.spawn is None,
{
    low32_kept(x);
    low32_kept(y);
    low32_kept(z);
    low32_kept(0);
}

/// An item compound is shown as an item
pub open spec fn shows_item(item: ItemView, value: Nbt) -> bool {
    &&& value.entry("id"@) == Some(Nbt::Text(item.id))
    &&& value.entry("Slot"@) matches Some(Nbt::Byte(n)) ==> item.slot == Some(n as i32)
    &&& value.entry("Slot"@) is None ==> item.slot is None
    &&& value.entry("count"@) matches Some(Nbt::Int(n)) ==> item.count == n
    &&& value.entry("count"@) is None ==> (value.entry("Count"@) matches Some(Nbt::Byte(n))
        ==> item.count == n)
    &&& value.entry("count"@) is None && value.entry("Count"@) is None ==> item.count == 1
}

/// A compound is an item: it has an ID, and not that of an empty slot
pub open spec fn is_item(value: Nbt) -> bool {
    value.entry("id"@) matches Some(Nbt::Text(id)) && id != "minecraft:air"@
}

proof fn item_shown(value: Nbt)
    ensures
        item_in(value) is Some <==> is_item(value),
        item_in(value) matches Some(item) ==> shows_item(item, value),
{
    if let Some(Nbt::Byte(n)) = value.entry("Slot"@) {
        low32_kept(n as int);
    }
    if let Some(Nbt::Int(n)) = value.entry("count"@) {
        low32_kept(n as int);
    }
    if let Some(Nbt::Byte(n)) = value.entry("Count"@) {
        low32_kept(n as int);
    }
    low32_kept(1);
}

proof fn items_shown(l: Seq<Nbt>)
    ensures
        ({
            let items = select::picked(l, |x: Nbt| item_in(x));
            let kept = l.filter(|x: Nbt| is_item(x));
            &&& items.len() == kept.len()
            &&& forall|i: int| 0 <= i < items.len() ==> shows_item(#[trigger] items[i], kept[i])
        }),
    decreases l.len(),
{
    reveal(Seq::filter);
    if l.len() > 0 {
        items_shown(l.drop_last());
        item_shown(l.last());
    }
}

/// The inventory and the ender chest of a player hold the items of the lists `Inventory` and
/// `EnderItems`, in their order and without empty slots
pub proof fn items_by_name(player: Player, uuid: Seq<char>, root: Nbt, l: Seq<Nbt>)
    requires
        shows_player(player, uuid, root),
    ensures
        ({
            let kept = l.filter(|x: Nbt| is_item(x));
            &&& root.entry("Inventory"@) == Some(Nbt::List(l)) ==> {
                &&& player.inventory@.len() == kept.len()
                &&& forall|i: int|
                    0 <= i < kept.len() ==> shows_item((#[trigger] player.inventory@[i])@, kept[i])
            }
            &&& root.entry("EnderItems"@) == Some(Nbt::List(l)) ==> {
                &&& player.ender_items@.len() == kept.len()
                &&& forall|i: int|
                    0 <= i < kept.len() ==> shows_item(
                        (#[trigger] player.ender_items@[i])@,
                        kept[i],
                    )
            }
        }),
{
    items_shown(l);
    let inventory = items_view(player.inventory@);
    let ender = items_view(player.ender_items@);
    assert(inventory.len() == player.inventory@.len());
    assert(ender.len() == player.ender_items@.len());
    let kept = l.filter(|x: Nbt| is_item(x));
    if root.entry("Inventory"@) == Some(Nbt::List(l)) {
        assert forall|i: int| 0 <= i < kept.len() implies shows_item(
            (#[trigger] player.inventory@[i])@,
            kept[i],
        ) by {
            assert(inventory[i] == player.inventory@[i]@);
        }
    }
    if root.entry("EnderItems"@) == Some(Nbt::List(l)) {
        assert forall|i: int| 0 <= i < kept.len() implies shows_item(
            (#[trigger] player.ender_items@[i])@,
            kept[i],
        ) by {
            assert(ender[i] == player.ender_items@[i]@);
        }
    }
}

/// Player files are named by the UUIDs of their players
pub proof fn player_file_named(uuid: Seq<char>, name: Seq<char>)
    ensures
        uuid.len() > 0 ==> uuid_in(uuid + ".dat"@) == Some(uuid),
        uuid_in(name) matches Some(u) ==> name == u + ".dat"@ && u.len() > 0,
{
    reveal_strlit(".dat");
    let full = uuid + ".dat"@;
    assert(full.skip(full.len() - 4) =~= ".dat"@);
    assert(full.take(full.len() - 4) =~= uuid);
    if uuid_in(name) is Some {
        assert(name =~= name.take(name.len() - 4) + name.skip(name.len() - 4));
    }
}

/// The name at place `j` of source `i` belongs to a UUID
pub open spec fn named_at(
    sources: Seq<Vec<(String, String)>>,
    uuid: Seq<char>,
    i: int,
    j: int,
) -> bool {
    &&& 0 <= i < sources.len()
    &&& 0 <= j < sources[i]@.len()
    &&& lowercased(sources[i]@[j].0@) == lowercased(uuid)
}

proof fn name_among(
    entries: Seq<(Seq<char>, Seq<char>)>,
    pairs: Seq<(String, String)>,
    uuid: Seq<char>,
    j: int,
)
    requires
        name_of(entries, lowercased(uuid)) is None,
        0 <= j <= pairs.len(),
        forall|k: int|
            0 <= k < j ==> lowercased((#[trigger] pairs[k]).0@) != lowercased(uuid),
        j < pairs.len() ==> lowercased(pairs[j].0@) == lowercased(uuid),
    ensures
        j == pairs.len() ==> name_of(with_names(entries, pairs), lowercased(uuid)) is None,
        j < pairs.len() ==> name_of(with_names(entries, pairs), lowercased(uuid)) == Some(
            pairs[j].1@,
        ),
    decreases pairs.len(),
{
    if pairs.len() > 0 {
        let rest = pairs.drop_last();
        let before = with_names(entries, rest);
        let last = pairs.last();
        assert forall|k: int| 0 <= k < j && k < rest.len() implies lowercased(
            (#[trigger] rest[k]).0@,
        ) != lowercased(uuid) by {
            assert(rest[k] == pairs[k]);
        }
        name_of_pushed(before, (lowercased(last.0@), last.1@), lowercased(uuid));
        if j == pairs.len() {
            name_among(entries, rest, uuid, j - 1);
            assert(lowercased(pairs[j - 1].0@) != lowercased(uuid));
        } else {
            if j < rest.len() {
                assert(rest[j] == pairs[j]);
            }
            name_among(entries, rest, uuid, j);
        }
    }
}

/// A UUID has the first name that a source gives it: the sources are asked in their order, and
/// the case of letters makes no difference; a UUID that no source knows has no name
pub proof fn first_name_counts(
    sources: Seq<Vec<(String, String)>>,
    uuid: Seq<char>,
    i: int,
    j: int,
)
    ensures
        named_at(sources, uuid, i, j) && (forall|i2: int, j2: int| #[trigger]
            named_at(sources, uuid, i2, j2) ==> i < i2 || (i == i2 && j <= j2)) ==> name_of(
            with_sources(sources),
            lowercased(uuid),
        ) == Some(sources[i]@[j].1@),
        (forall|i2: int, j2: int| !#[trigger] named_at(sources, uuid, i2, j2)) ==> name_of(
            with_sources(sources),
            lowercased(uuid),
        ) is None,
    decreases sources.len(),
{
    if sources.len() > 0 {
        let rest = sources.drop_last();
        let last = sources.len() - 1;
        let before = with_sources(rest);
        first_name_counts(rest, uuid, i, j);
        assert forall|i2: int, j2: int| #[trigger] named_at(rest, uuid, i2, j2) implies named_at(
            sources,
            uuid,
            i2,
            j2,
        ) by {}
        if forall|i2: int, j2: int| !#[trigger] named_at(sources, uuid, i2, j2) {
            assert forall|k: int| 0 <= k < sources[last]@.len() implies lowercased(
                (#[trigger] sources[last]@[k]).0@,
            ) != lowercased(uuid) by {
                assert(!named_at(sources, uuid, last, k));
            }
            name_among(before, sources.last()@, uuid, sources.last()@.len() as int);
        }
        if named_at(sources, uuid, i, j) && (forall|i2: int, j2: int| #[trigger]
            named_at(sources, uuid, i2, j2) ==> i < i2 || (i == i2 && j <= j2)) {
            if i == last {
                assert forall|i2: int, j2: int| !#[trigger] named_at(rest, uuid, i2, j2) by {
                    if named_at(rest, uuid, i2, j2) {
                        assert(named_at(sources, uuid, i2, j2));
                    }
                }
                assert forall|k: int| 0 <= k < j implies lowercased(
                    (#[trigger] sources[last]@[k]).0@,
                ) != lowercased(uuid) by {
                    if lowercased(sources[last]@[k].0@) == lowercased(uuid) {
                        assert(named_at(sources, uuid, last, k));
                    }
                }
                name_among(before, sources.last()@, uuid, j);
            } else {
                assert(rest[i] == sources[i]);
                assert(named_at(rest, uuid, i, j));
                known_names_kept(before, sources.last()@, lowercased(uuid));
            }
        }
    }
}

/// There are as many players as player files that can be read
pub proof fn readable_files_counted(
    players: Seq<Player>,
    files: Seq<PlayerFile>,
    names: Seq<(Seq<char>, Seq<char>)>,
)
    requires
        shows_files(players, files, names),
    ensures
        players.len() == files.filter(|file: PlayerFile| file_root(file) is Some).len(),
    decreases files.len(),
{
    reveal(Seq::filter);
    if files.len() > 0 {
        if file_root(files.last()) is None {
            readable_files_counted(players, files.drop_last(), names);
        } else {
            readable_files_counted(players.drop_last(), files.drop_last(), names);
        }
    }
}

/// Every player file that can be read has a player with its data
pub proof fn readable_file_shown(
    players: Seq<Player>,
    files: Seq<PlayerFile>,
    names: Seq<(Seq<char>, Seq<char>)>,
    i: int,
) -> (j: int)
    requires
        shows_files(players, files, names),
        0 <= i < files.len(),
        file_root(files[i]) is Some,
    ensures
        0 <= j < players.len(),
        shows_file(players[j], files[i], names),
    decreases files.len(),
{
    if i == files.len() - 1 {
        players.len() - 1
    } else {
        assert(files.drop_last()[i] == files[i]);
        if file_root(files.last()) is None {
            readable_file_shown(players, files.drop_last(), names, i)
        } else {
            let j = readable_file_shown(players.drop_last(), files.drop_last(), names, i);
            assert(players.drop_last()[j] == players[j]);
            j
        }
    }
}

/// Every player is that of a player file that can be read
pub proof fn player_has_file(
    players: Seq<Player>,
    files: Seq<PlayerFile>,
    names: Seq<(Seq<char>, Seq<char>)>,
    j: int,
) -> (i: int)
    requires
        shows_files(players, files, names),
        0 <= j < players.len(),
    ensures
        0 <= i < files.len(),
        file_root(files[i]) is Some,
        shows_file(players[j], files[i], names),
    decreases files.len(),
{
    if file_root(files.last()) is None {
        player_has_file(players, files.drop_last(), names, j)
    } else if j == players.len() - 1 {
        files.len() - 1
    } else {
        assert(players.drop_last()[j] == players[j]);
        player_has_file(players.drop_last(), files.drop_last(), names, j)
    }
}

/// A player has the name of the player's UUID, the statistics of the stats file that belongs to
/// it, and none without such a file
pub proof fn files_of_a_player(
    player: Player,
    file: PlayerFile,
    names: Seq<(Seq<char>, Seq<char>)>,
)
    requires
        shows_file(player, file, names),
    ensures
        player.uuid@ == file.uuid@,
        match player.name {
            Some(name) => name_of(names, lowercased(file.uuid@)) == Some(name@),
            None => name_of(names, lowercased(file.uuid@)) is None,
        },
        file.stats is None ==> player.stats is None && player.killed_by@.len() == 0
            && player.crafted@.len() == 0,
        file.stats matches Some(data) ==> (json::document(data@) matches Some(root)
            ==> shows_stats(player, root)),
        file.stats matches Some(data) ==> (json::document(data@) is None ==> player.stats is None),
{
}

/// Sorted players rise by their UUIDs
pub proof fn players_rise(s: Seq<Player>, i: int, j: int)
    requires
        sorting::is_sorted(s),
        0 <= i <= j < s.len(),
    ensures
        text::lex_le(s[i].uuid@, s[j].uuid@),
{
    assert(Player::precedes(s[i], s[j]));
}

/// Sums are too large only in the statistics of a readable player file, and they are where the
/// total of the blocks mined or placed does not fit
pub proof fn too_large_statistics(
    file: PlayerFile,
    data: Vec<u8>,
    root: Json,
    categories: Json,
    members: Seq<(Seq<char>, Json)>,
)
    ensures
        file_root(file) is None ==> !stats_too_large(file),
        file.stats is None ==> !stats_too_large(file),
        file.stats == Some(data) && json::document(data@) is None ==> !stats_too_large(file),
        file.stats == Some(data) && json::document(data@) == Some(root) && file_root(file) is Some
            && root.member("stats"@) == Some(categories) ==> {
            &&& categories.member("minecraft:mined"@) == Some(Json::Object(members))
                && category_total(members) > i64::MAX ==> stats_too_large(file)
            &&& categories.member("minecraft:used"@) == Some(Json::Object(members))
                && category_total(members) > i64::MAX ==> stats_too_large(file)
            &&& fitting_category(categories, "minecraft:mined"@) && fitting_category(
                categories,
                "minecraft:used"@,
            ) ==> !stats_too_large(file)
        },
{
    integers_summed(members);
    if root.member("stats"@) == Some(categories) && fitting_category(
        categories,
        "minecraft:mined"@,
    ) && fitting_category(categories, "minecraft:used"@) {
        fitting_statistics(root);
    }
}

/// Applying statistics leaves everything else of a player as it is
pub proof fn other_data_kept(a: Player, b: Player)
    requires
        same_but_stats(a, b),
    ensures
        a.uuid == b.uuid,
        a.name == b.name,
        a.pos == b.pos,
        a.dimension == b.dimension,
        a.rotation == b.rotation,
        a.spawn == b.spawn,
        a.xp == b.xp,
        a.health == b.health,
        a.food == b.food,
        a.inventory == b.inventory,
        a.ender_items == b.ender_items,
{
}

/// Missing coordinates are zero
pub proof fn missing_number_zero(l: Seq<Nbt>, i: int, text: Seq<char>)
    ensures
        number_at(None, i) == Number::Int(0),
        i >= l.len() ==> number_at(Some(Nbt::List(l)), i) == Number::Int(0),
        number_at(Some(Nbt::Text(text)), i) == Number::Int(0),
        0 <= i < l.len() && l[i] == Nbt::Text(text) ==> number_at(Some(Nbt::List(l)), i)
            == Number::Int(0),
{
}

} // verus!
