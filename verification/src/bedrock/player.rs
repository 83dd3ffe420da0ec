//! Collection of Bedrock Edition player data for `--emit-player-data`
//!
//! Bedrock stores each player as a little-endian NBT value in the LevelDB
//! database: the single-player local player under the `~local_player` key and
//! multiplayer players under `player_server_<id>` keys. The data is mapped into
//! the same [Player] shape as Java Edition, although Bedrock has no player
//! statistics or cached names, and stores health and food as entity attributes
//! rather than top-level fields.

use crate::bedrock::nbt;
use crate::bedrock::nbt::{Nbt, Value};
use crate::player;
use crate::player::{Item, ItemView, Number, Player, Xp};
use crate::select;
use crate::sorting;
use crate::text;
use vstd::prelude::*;
use vstd::string::*;

verus! {

/// LevelDB key of the single-player local player
pub open spec fn local_player_key() -> Seq<u8> {
    vstd::utf8::encode_utf8("~local_player"@)
}

/// LevelDB key prefix of server (multiplayer) players
pub open spec fn server_player_prefix() -> Seq<u8> {
    vstd::utf8::encode_utf8("player_server_"@)
}

/// The key of a server player
pub open spec fn server_player_key(key: Seq<u8>) -> bool {
    let prefix = server_player_prefix();
    key.len() >= prefix.len() && key.take(prefix.len() as int) == prefix
}

/// The key of a player
pub open spec fn player_key(key: Seq<u8>) -> bool {
    key == local_player_key() || server_player_key(key)
}

/// Returns whether bytes begin with other bytes
fn starts_with(key: &[u8], prefix: &[u8]) -> (r: bool)
    ensures
        r == (key@.len() >= prefix@.len() && key@.take(prefix@.len() as int) == prefix@),
{
    if key.len() < prefix.len() {
        return false;
    }
    let mut i: usize = 0;
    while i < prefix.len()
        invariant
            i <= prefix.len() <= key.len(),
            forall|j: int| 0 <= j < i ==> key@[j] == prefix@[j],
        decreases prefix.len() - i,
    {
        if key[i] != prefix[i] {
            assert(key@.take(prefix@.len() as int)[i as int] != prefix@[i as int]);
            return false;
        }
        i = i + 1;
    }
    assert(key@.take(prefix@.len() as int) =~= prefix@);
    true
}

/// Returns whether a key is that of the local player
fn is_local_player(key: &[u8]) -> (r: bool)
    ensures
        r == (key@ == local_player_key()),
{
    let local = "~local_player".as_bytes();
    if key.len() == local.len() && starts_with(key, local) {
        assert(key@.take(local@.len() as int) =~= key@);
        true
    } else {
        assert(key@ != local@) by {
            if key@ == local@ {
                assert(key@.take(local@.len() as int) =~= key@);
            }
        }
        false
    }
}

/// Returns whether a LevelDB key is that of a player
pub fn is_player_key(key: &[u8]) -> (r: bool)
    ensures
        r == player_key(key@),
{
    is_local_player(key) || starts_with(key, "player_server_".as_bytes())
}

/// The identifier of the player with the given key
pub open spec fn uuid_of(key: Seq<u8>) -> Seq<char> {
    if key == local_player_key() {
        "~local_player"@
    } else {
        nbt::text_of(key.skip(server_player_prefix().len() as int))
    }
}

/// Builds a player UUID/identifier from its LevelDB key
pub fn player_uuid(key: &[u8]) -> (r: String)
    requires
        key@ == local_player_key() || key@.len() >= server_player_prefix().len(),
    ensures
        r@ == uuid_of(key@),
{
    if is_local_player(key) {
        return "~local_player".to_owned();
    }
    let prefix = "player_server_".as_bytes();
    let rest = vstd::slice::slice_subrange(key, prefix.len(), key.len());
    assert(rest@ =~= key@.skip(prefix@.len() as int));
    nbt::text_lossy(rest)
}

/// The identifier of a server player is what follows the prefix in its key
pub proof fn server_uuid_read_back(id: Seq<char>)
    ensures
        ({
            let key = server_player_prefix() + vstd::utf8::encode_utf8(id);
            player_key(key) && (key != local_player_key() ==> uuid_of(key) == id)
        }),
{
    let prefix = server_player_prefix();
    let enc = vstd::utf8::encode_utf8(id);
    let key = prefix + enc;
    assert(key.take(prefix.len() as int) =~= prefix);
    assert(key.skip(prefix.len() as int) =~= enc);
    vstd::utf8::encode_utf8_decode_utf8(id);
    vstd::utf8::encode_utf8_valid_utf8(id);
}

/// The identifier of a dimension, given by its number
pub open spec fn dimension_in(number: Option<i64>) -> Seq<char> {
    match number {
        Some(n) => if n == 1 {
            "minecraft:the_nether"@
        } else if n == 2 {
            "minecraft:the_end"@
        } else {
            "minecraft:overworld"@
        },
        None => "minecraft:overworld"@,
    }
}

/// Maps a Bedrock numeric dimension id to its identifier
pub fn dimension_name(number: Option<i64>) -> (r: String)
    ensures
        r@ == dimension_in(number),
{
    match number {
        Some(n) => if n == 1 {
            "minecraft:the_nether".to_owned()
        } else if n == 2 {
            "minecraft:the_end".to_owned()
        } else {
            "minecraft:overworld".to_owned()
        },
        None => "minecraft:overworld".to_owned(),
    }
}

/// The first attribute with a name
pub open spec fn attribute_named(list: Seq<Nbt>, name: Seq<char>) -> Option<Nbt>
    decreases list.len(),
{
    if list.len() == 0 {
        None
    } else if player::text_entry(list[0], "Name"@) == Some(name) {
        Some(list[0])
    } else {
        attribute_named(list.skip(1), name)
    }
}

/// The current value of an entity attribute
pub open spec fn attribute_in(root: Nbt, name: Seq<char>) -> Option<Number> {
    match root.entry("Attributes"@) {
        Some(v) => match player::list_in(v) {
            Some(list) => match attribute_named(list, name) {
                Some(entry) => player::number_entry(entry, "Current"@),
                None => None,
            },
            None => None,
        },
        None => None,
    }
}

/// Reads a named entity attribute's `Current` value from the `Attributes` list
pub fn attribute(root: &Value, name: &str) -> (r: Option<Number>)
    ensures
        r == attribute_in(root@, name@),
{
    let value = match root.get("Attributes") {
        Some(value) => value,
        None => return None,
    };
    let list = match player::as_list(value) {
        Some(list) => list,
        None => return None,
    };
    let ghost all = nbt::trees(list@);
    proof {
        nbt::trees_len(list@);
        assert(all.skip(0) =~= all);
    }
    let mut i: usize = 0;
    while i < list.len()
        invariant
            i <= list.len(),
            all == nbt::trees(list@),
            all.len() == list@.len(),
            attribute_named(all, name@) == attribute_named(all.skip(i as int), name@),
            attribute_in(root@, name@) == (match attribute_named(all, name@) {
                Some(entry) => player::number_entry(entry, "Current"@),
                None => None,
            }),
        decreases list.len() - i,
    {
        let entry = &list[i];
        proof {
            nbt::trees_index(list@, i as int);
            assert(all.skip(i as int).skip(1) =~= all.skip(i + 1));
        }
        if let Some(found) = player::read_str(entry, "Name") {
            if text::same(found, name) {
                return player::read_number(entry, "Current");
            }
        }
        i = i + 1;
    }
    None
}

/// An item compound; empty slots are no items
pub open spec fn item_in(value: Nbt) -> Option<ItemView> {
    match player::text_entry(value, "Name"@) {
        None => None,
        Some(id) => if id.len() == 0 || id == "minecraft:air"@ {
            None
        } else {
            Some(
                ItemView {
                    slot: match player::integer_entry(value, "Slot"@) {
                        Some(n) => Some(player::low32(n)),
                        None => None,
                    },
                    id,
                    count: player::integer_or(value, "Count"@, 1),
                },
            )
        },
    }
}

/// Parses a single Bedrock item compound, skipping empty slots
pub fn parse_item(value: &Value) -> (r: Option<Item>)
    ensures
        match item_in(value@) {
            Some(item) => r matches Some(i) && i@ == item,
            None => r is None,
        },
{
    let id = match player::read_str(value, "Name") {
        Some(id) => id,
        None => return None,
    };
    if text::to_chars(id).len() == 0 || text::same(id, "minecraft:air") {
        return None;
    }
    let slot = match player::read_i64(value, "Slot") {
        Some(_) => Some(player::read_i32_or(value, "Slot", 0)),
        None => None,
    };
    let count: i32 = player::read_i32_or(value, "Count", 1);
    Some(Item { slot, id: id.to_owned(), count })
}

/// The items of an item list
pub open spec fn items_in(value: Option<Nbt>) -> Seq<ItemView> {
    match value {
        Some(v) => match player::list_in(v) {
            Some(l) => select::picked(l, |x: Nbt| item_in(x)),
            None => Seq::empty(),
        },
        None => Seq::empty(),
    }
}

/// Parses an item list (inventory or ender chest)
pub fn parse_items(root: &Value, key: &str) -> (r: Vec<Item>)
    ensures
        player::items_view(r@) == items_in(root@.entry(key@)),
{
    let mut items: Vec<Item> = Vec::new();
    assert(player::items_view(items@) =~= Seq::<ItemView>::empty());
    let value = match root.get(key) {
        Some(value) => value,
        None => return items,
    };
    let list = match player::as_list(value) {
        Some(list) => list,
        None => return items,
    };
    let ghost all = nbt::trees(list@);
    let ghost f = |x: Nbt| item_in(x);
    proof {
        nbt::trees_len(list@);
        assert(all.take(0) =~= Seq::<Nbt>::empty());
    }
    let mut i: usize = 0;
    while i < list.len()
        invariant
            i <= list.len(),
            all == nbt::trees(list@),
            all.len() == list@.len(),
            f == (|x: Nbt| item_in(x)),
            player::items_view(items@) == select::picked(all.take(i as int), f),
        decreases list.len() - i,
    {
        proof {
            nbt::trees_index(list@, i as int);
            assert(all.take(i + 1) =~= all.take(i as int).push(all[i as int]));
            select::picked_pushed(all.take(i as int), all[i as int], f);
        }
        if let Some(item) = parse_item(&list[i]) {
            let ghost before = items@;
            items.push(item);
            assert(player::items_view(items@) =~= player::items_view(before).push(item@));
        }
        i = i + 1;
    }
    assert(all.take(i as int) =~= all);
    items
}

/// The player data in a Bedrock player value
///
/// Bedrock does not store the cumulative XP total, and has no Java-style statistics.
pub open spec fn shows_player(p: Player, uuid: Seq<char>, root: Nbt) -> bool {
    &&& p.uuid@ == uuid
    &&& p.name is None
    &&& forall|i: int|
        0 <= i < 3 ==> #[trigger] p.pos[i] == player::number_at(root.entry("Pos"@), i)
    &&& p.dimension@ == dimension_in(player::integer_entry(root, "DimensionId"@))
    &&& forall|i: int|
        0 <= i < 2 ==> #[trigger] p.rotation[i] == player::number_at(root.entry("Rotation"@), i)
    &&& p.spawn == player::spawn_in(root)
    &&& p.xp == (Xp {
        level: player::integer_or(root, "PlayerLevel"@, 0),
        total: 0,
        progress: player::number_or_zero(player::number_entry(root, "PlayerLevelProgress"@)),
    })
    &&& p.health == player::number_or_zero(attribute_in(root, "minecraft:health"@))
    &&& p.food == player::number_or_zero(attribute_in(root, "minecraft:player.hunger"@))
    &&& player::has_no_stats(p)
    &&& player::items_view(p.inventory@) == items_in(root.entry("Inventory"@))
    &&& player::items_view(p.ender_items@) == items_in(root.entry("EnderChestInventory"@))
}

/// Maps a parsed Bedrock player NBT value into a [Player]
pub fn parse_player(uuid: String, root: &Value) -> (r: Player)
    ensures
        shows_player(r, uuid@, root@),
{
    Player {
        uuid,
        name: None,
        pos: player::read_f64_3(root, "Pos"),
        dimension: dimension_name(player::read_i64(root, "DimensionId")),
        rotation: player::read_f32_2(root, "Rotation"),
        spawn: player::read_spawn(root),
        xp: Xp {
            level: player::read_i32_or(root, "PlayerLevel", 0),
            // Bedrock does not store the cumulative XP total.
            total: 0,
            progress: player::or_zero(player::read_number(root, "PlayerLevelProgress")),
        },
        health: player::or_zero(attribute(root, "minecraft:health")),
        food: player::or_zero(attribute(root, "minecraft:player.hunger")),
        // Bedrock has no Java-style statistics.
        stats: None,
        killed_by: Vec::new(),
        crafted: Vec::new(),
        inventory: parse_items(root, "Inventory"),
        ender_items: parse_items(root, "EnderChestInventory"),
    }
}

/// The root value of a player's data, if there is one
pub open spec fn root_of(data: Option<Vec<u8>>) -> Option<Nbt> {
    match data {
        Some(d) => match nbt::roots_at(d@, 0, Seq::empty()) {
            Ok(values) => if values.len() > 0 {
                Some(values[0])
            } else {
                None
            },
            Err(_) => None,
        },
        None => None,
    }
}

/// A key and the data that the database has for it
#[derive(Debug)]
pub struct PlayerEntry {
    /// LevelDB key
    pub key: Vec<u8>,
    /// The data, if there is any
    pub data: Option<Vec<u8>>,
}

/// Players have the data of those entries that can be parsed, in the order of the entries
pub open spec fn shows_entries(players: Seq<Player>, entries: Seq<PlayerEntry>) -> bool
    decreases entries.len(),
{
    if entries.len() == 0 {
        players.len() == 0
    } else {
        let entry = entries.last();
        let found = if player_key(entry.key@) {
            root_of(entry.data)
        } else {
            None
        };
        match found {
            None => shows_entries(players, entries.drop_last()),
            Some(root) => {
                &&& players.len() > 0
                &&& shows_entries(players.drop_last(), entries.drop_last())
                &&& shows_player(players.last(), uuid_of(entry.key@), root)
            },
        }
    }
}

/// Parses the data of a player
fn read_player(entry: &PlayerEntry) -> (r: Option<Player>)
    requires
        player_key(entry.key@),
    ensures
        match root_of(entry.data) {
            Some(root) => r matches Some(p) && shows_player(p, uuid_of(entry.key@), root),
            None => r is None,
        },
{
    let data = match &entry.data {
        Some(data) => data,
        None => return None,
    };
    let values = match nbt::read_all(data.as_slice()) {
        Ok(values) => values,
        Err(_) => return None,
    };
    proof {
        nbt::trees_len(values@);
    }
    if values.len() == 0 {
        return None;
    }
    proof {
        nbt::trees_index(values@, 0);
    }
    Some(parse_player(player_uuid(entry.key.as_slice()), &values[0]))
}

/// Collects the player data of a Bedrock Edition world from entries of its LevelDB database,
/// ordered by UUID
///
/// Entries that are not those of players, and data that cannot be parsed, are skipped.
pub fn collect(entries: &Vec<PlayerEntry>) -> (r: Vec<Player>)
    ensures
        exists|list: Seq<Player>| #[trigger]
            shows_entries(list, entries@) && r@ == sorting::sorted(list),
        sorting::is_sorted(r@),
{
    let mut players: Vec<Player> = Vec::new();
    let mut i: usize = 0;
    assert(entries@.take(0) =~= Seq::<PlayerEntry>::empty());
    while i < entries.len()
        invariant
            i <= entries.len(),
            shows_entries(players@, entries@.take(i as int)),
        decreases entries.len() - i,
    {
        assert(entries@.take(i + 1).drop_last() =~= entries@.take(i as int));
        let entry = &entries[i];
        if is_player_key(entry.key.as_slice()) {
            if let Some(player) = read_player(entry) {
                let ghost before = players@;
                players.push(player);
                assert(players@.drop_last() =~= before);
            }
        }
        i = i + 1;
    }
    assert(entries@.take(i as int) =~= entries@);
    let ghost list = players@;
    assert(shows_entries(list, entries@));
    proof {
        sorting::sorted_properties(list);
    }
    sorting::sort(players)
}

/// The key of the local player, and all keys that begin with `player_server_`, are those of
/// players
pub proof fn player_keys(key: Seq<u8>, rest: Seq<u8>)
    ensures
        player_key(vstd::utf8::encode_utf8("~local_player"@)),
        uuid_of(vstd::utf8::encode_utf8("~local_player"@)) == "~local_player"@,
        player_key(vstd::utf8::encode_utf8("player_server_"@) + rest),
        player_key(key) ==> key == vstd::utf8::encode_utf8("~local_player"@) || (exists|tail: Seq<u8>|
            key == #[trigger] (vstd::utf8::encode_utf8("player_server_"@) + tail)),
{
    let prefix = vstd::utf8::encode_utf8("player_server_"@);
    assert((prefix + rest).take(prefix.len() as int) =~= prefix);
    if player_key(key) && key != vstd::utf8::encode_utf8("~local_player"@) {
        assert(key =~= prefix + key.skip(prefix.len() as int));
    }
}

/// Dimensions are given by their numbers
pub proof fn dimensions_numbered(n: i64)
    ensures
        dimension_in(Some(0)) == "minecraft:overworld"@,
        dimension_in(Some(1)) == "minecraft:the_nether"@,
        dimension_in(Some(2)) == "minecraft:the_end"@,
        dimension_in(None) == "minecraft:overworld"@,
        n != 1 && n != 2 ==> dimension_in(Some(n)) == "minecraft:overworld"@,
{
}

/// The attribute `i` of a list is the first that has the given name
pub open spec fn first_named(list: Seq<Nbt>, name: Seq<char>, i: int) -> bool {
    &&& 0 <= i < list.len()
    &&& list[i].entry("Name"@) == Some(Nbt::Text(name))
    &&& forall|j: int| 0 <= j < i ==> (#[trigger] list[j]).entry("Name"@) != Some(Nbt::Text(name))
}

proof fn attribute_found(list: Seq<Nbt>, name: Seq<char>, i: int)
    requires
        first_named(list, name, i),
    ensures
        attribute_named(list, name) == Some(list[i]),
    decreases list.len(),
{
    if i > 0 {
        let rest = list.skip(1);
        assert(list[0].entry("Name"@) != Some(Nbt::Text(name)));
        assert forall|j: int| 0 <= j < i - 1 implies (#[trigger] rest[j]).entry("Name"@) != Some(
            Nbt::Text(name),
        ) by {
            assert(list[j + 1].entry("Name"@) != Some(Nbt::Text(name)));
        }
        assert(rest[i - 1] == list[i]);
        attribute_found(rest, name, i - 1);
    }
}

proof fn attribute_not_found(list: Seq<Nbt>, name: Seq<char>)
    requires
        forall|j: int|
            0 <= j < list.len() ==> (#[trigger] list[j]).entry("Name"@) != Some(Nbt::Text(name)),
    ensures
        attribute_named(list, name) is None,
    decreases list.len(),
{
    if list.len() > 0 {
        let rest = list.skip(1);
        assert(list[0].entry("Name"@) != Some(Nbt::Text(name)));
        assert forall|j: int| 0 <= j < rest.len() implies (#[trigger] rest[j]).entry("Name"@)
            != Some(Nbt::Text(name)) by {
            assert(list[j + 1].entry("Name"@) != Some(Nbt::Text(name)));
        }
        attribute_not_found(rest, name);
    }
}

/// Health and food of a player are the current values of the first attributes with their names
#[verifier::spinoff_prover]
pub proof fn attributes_by_name(p: Player, uuid: Seq<char>, root: Nbt, list: Seq<Nbt>, i: int)
    requires
        shows_player(p, uuid, root),
    ensures
        root.entry("Attributes"@) == Some(Nbt::List(list)) && first_named(
            list,
            "minecraft:health"@,
            i,
        ) ==> {
            &&& list[i].entry("Current"@) matches Some(Nbt::Float(bits)) ==> p.health
                == Number::Float(bits)
            &&& list[i].entry("Current"@) is None ==> p.health == Number::Int(0)
        },
        root.entry("Attributes"@) == Some(Nbt::List(list)) && first_named(
            list,
            "minecraft:player.hunger"@,
            i,
        ) ==> {
            &&& list[i].entry("Current"@) matches Some(Nbt::Float(bits)) ==> p.food
                == Number::Float(bits)
            &&& list[i].entry("Current"@) is None ==> p.food == Number::Int(0)
        },
        root.entry("Attributes"@) == Some(Nbt::List(list)) && (forall|j: int|
            0 <= j < list.len() ==> (#[trigger] list[j]).entry("Name"@) != Some(
                Nbt::Text("minecraft:health"@),
            )) ==> p.health == Number::Int(0),
        root.entry("Attributes"@) == Some(Nbt::List(list)) && (forall|j: int|
            0 <= j < list.len() ==> (#[trigger] list[j]).entry("Name"@) != Some(
                Nbt::Text("minecraft:player.hunger"@),
            )) ==> p.food == Number::Int(0),
        root.entry("Attributes"@) is None ==> p.health == Number::Int(0) && p.food == Number::Int(
            0,
        ),
{
    if first_named(list, "minecraft:health"@, i) {
        attribute_found(list, "minecraft:health"@, i);
    }
    if first_named(list, "minecraft:player.hunger"@, i) {
        attribute_found(list, "minecraft:player.hunger"@, i);
    }
    if forall|j: int|
        0 <= j < list.len() ==> (#[trigger] list[j]).entry("Name"@) != Some(
            Nbt::Text("minecraft:health"@),
        ) {
        attribute_not_found(list, "minecraft:health"@);
    }
    if forall|j: int|
        0 <= j < list.len() ==> (#[trigger] list[j]).entry("Name"@) != Some(
            Nbt::Text("minecraft:player.hunger"@),
        ) {
        attribute_not_found(list, "minecraft:player.hunger"@);
    }
}

/// The other data of a player are what stands under their names in the player value
pub proof fn player_data_by_name(
    p: Player,
    uuid: Seq<char>,
    root: Nbt,
    n: int,
    l: Seq<Nbt>,
    i: int,
)
    requires
        shows_player(p, uuid, root),
        i32::MIN <= n <= i32::MAX,
    ensures
        p.uuid@ == uuid,
        p.name is None,
        p.stats is None,
        p.killed_by@.len() == 0,
        p.crafted@.len() == 0,
        root.entry("Pos"@) == Some(Nbt::List(l)) && 0 <= i < 3 && i < l.len() ==> (
        l[i] matches Nbt::Float(bits) ==> p.pos[i] == Number::Float(bits)),
        root.entry("Rotation"@) == Some(Nbt::List(l)) && 0 <= i < 2 && i < l.len() ==> (
        l[i] matches Nbt::Float(bits) ==> p.rotation[i] == Number::Float(bits)),
        root.entry("DimensionId"@) == Some(Nbt::Int(1)) ==> p.dimension@ == "minecraft:the_nether"@,
        root.entry("DimensionId"@) == Some(Nbt::Int(2)) ==> p.dimension@ == "minecraft:the_end"@,
        root.entry("DimensionId"@) == Some(Nbt::Int(0)) ==> p.dimension@ == "minecraft:overworld"@,
        root.entry("DimensionId"@) is None ==> p.dimension@ == "minecraft:overworld"@,
        root.entry("PlayerLevel"@) == Some(Nbt::Int(n as i32)) ==> p.xp.level == n,
        root.entry("PlayerLevel"@) is None ==> p.xp.level == 0,
        p.xp.total == 0,
        root.entry("PlayerLevelProgress"@) matches Some(Nbt::Float(bits)) ==> p.xp.progress
            == Number::Float(bits),
        root.entry("PlayerLevelProgress"@) is None ==> p.xp.progress == Number::Int(0),
        root.entry("Inventory"@) is None ==> p.inventory@.len() == 0,
        root.entry("EnderChestInventory"@) is None ==> p.ender_items@.len() == 0,
{
    player::low32_kept(n);
    player::low32_kept(0);
    assert(player::items_view(p.inventory@).len() == p.inventory@.len());
    assert(player::items_view(p.ender_items@).len() == p.ender_items@.len());
    if 0 <= i < 3 {
        assert(p.pos[i] == player::number_at(root.entry("Pos"@), i));
    }
    if 0 <= i < 2 {
        assert(p.rotation[i] == player::number_at(root.entry("Rotation"@), i));
    }
}

/// A compound is an item: it has a name that is neither empty nor that of air
pub open spec fn is_item(value: Nbt) -> bool {
    match value.entry("Name"@) {
        Some(Nbt::Text(id)) => id.len() > 0 && id != "minecraft:air"@,
        _ => false,
    }
}

/// An item is what a compound says
pub open spec fn shows_item(item: ItemView, value: Nbt) -> bool {
    &&& value.entry("Name"@) == Some(Nbt::Text(item.id))
    &&& match value.entry("Slot"@) {
        Some(Nbt::Byte(n)) => item.slot == Some(n as i32),
        None => item.slot is None,
        _ => true,
    }
    &&& match value.entry("Count"@) {
        Some(Nbt::Byte(n)) => item.count == n,
        None => item.count == 1,
        _ => true,
    }
}

proof fn items_shown(l: Seq<Nbt>)
    ensures
        ({
            let items = select::picked(l, |x: Nbt| item_in(x));
            let kept = l.filter(|x: Nbt| is_item(x));
            &&& items.len() == kept.len()
            &&& forall|i: int| 0 <= i < items.len() ==> shows_item(#[trigger] items[i], kept[i])
        }),
    decreases l.len(),
{
    reveal(Seq::filter);
    if l.len() > 0 {
        items_shown(l.drop_last());
        let value = l.last();
        if let Some(Nbt::Byte(n)) = value.entry("Slot"@) {
            player::low32_kept(n as int);
        }
        if let Some(Nbt::Byte(n)) = value.entry("Count"@) {
            player::low32_kept(n as int);
        }
        player::low32_kept(1);
        assert(is_item(value) == (item_in(value) is Some));
        if is_item(value) {
            assert(shows_item(item_in(value)->0, value));
        }
    }
}

/// The inventory and the ender chest of a player hold the items of the lists `Inventory` and
/// `EnderChestInventory`, in their order and without empty slots
pub proof fn items_by_name(p: Player, uuid: Seq<char>, root: Nbt, l: Seq<Nbt>)
    requires
        shows_player(p, uuid, root),
    ensures
        ({
            let kept = l.filter(|x: Nbt| is_item(x));
            &&& root.entry("Inventory"@) == Some(Nbt::List(l)) ==> {
                &&& p.inventory@.len() == kept.len()
                &&& forall|i: int|
                    0 <= i < kept.len() ==> shows_item((#[trigger] p.inventory@[i])@, kept[i])
            }
            &&& root.entry("EnderChestInventory"@) == Some(Nbt::List(l)) ==> {
                &&& p.ender_items@.len() == kept.len()
                &&& forall|i: int|
                    0 <= i < kept.len() ==> shows_item((#[trigger] p.ender_items@[i])@, kept[i])
            }
        }),
{
    items_shown(l);
    let inventory = player::items_view(p.inventory@);
    let ender = player::items_view(p.ender_items@);
    assert(inventory.len() == p.inventory@.len());
    assert(ender.len() == p.ender_items@.len());
    let kept = l.filter(|x: Nbt| is_item(x));
    if root.entry("Inventory"@) == Some(Nbt::List(l)) {
        assert forall|i: int| 0 <= i < kept.len() implies shows_item(
            (#[trigger] p.inventory@[i])@,
            kept[i],
        ) by {
            assert(inventory[i] == p.inventory@[i]@);
        }
    }
    if root.entry("EnderChestInventory"@) == Some(Nbt::List(l)) {
        assert forall|i: int| 0 <= i < kept.len() implies shows_item(
            (#[trigger] p.ender_items@[i])@,
            kept[i],
        ) by {
            assert(ender[i] == p.ender_items@[i]@);
        }
    }
}

/// The root value of a player's data is the first of its values
pub proof fn first_root(data: Vec<u8>, values: Seq<Nbt>)
    ensures
        root_of(None) is None,
        nbt::roots_at(data@, 0, Seq::empty()) is Err ==> root_of(Some(data)) is None,
        nbt::roots_at(data@, 0, Seq::empty()) == Ok::<Seq<Nbt>, nbt::NbtError>(values)
            && values.len() > 0 ==> root_of(Some(data)) == Some(values[0]),
        nbt::roots_at(data@, 0, Seq::empty()) == Ok::<Seq<Nbt>, nbt::NbtError>(values)
            && values.len() == 0 ==> root_of(Some(data)) is None,
{
}

/// There is a player for each entry with the key of a player and data that can be parsed, in
/// the order of the entries
pub proof fn players_by_entry(players: Seq<Player>, entries: Seq<PlayerEntry>)
    requires
        shows_entries(players, entries),
    ensures
        ({
            let kept = entries.filter(
                |e: PlayerEntry| player_key(e.key@) && root_of(e.data) is Some,
            );
            &&& players.len() == kept.len()
            &&& forall|i: int|
                0 <= i < players.len() ==> shows_player(
                    #[trigger] players[i],
                    uuid_of(kept[i].key@),
                    root_of(kept[i].data)->0,
                )
        }),
    decreases entries.len(),
{
    reveal(Seq::filter);
    if entries.len() > 0 {
        let entry = entries.last();
        if player_key(entry.key@) && root_of(entry.data) is Some {
            players_by_entry(players.drop_last(), entries.drop_last());
            let rest = players.drop_last();
            let before = entries.drop_last().filter(
                |e: PlayerEntry| player_key(e.key@) && root_of(e.data) is Some,
            );
            assert forall|i: int| 0 <= i < players.len() implies shows_player(
                #[trigger] players[i],
                uuid_of(before.push(entry)[i].key@),
                root_of(before.push(entry)[i].data)->0,
            ) by {
                if i < rest.len() {
                    assert(rest[i] == players[i]);
                }
            }
        } else {
            players_by_entry(players, entries.drop_last());
        }
    }
}

} // verus!
