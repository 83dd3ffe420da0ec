//! Collection of points of interest (POIs) for the viewer marker layers
//!
//! Java Edition stores POIs — village meeting points, villager beds and job
//! sites, nether portals, lodestones, … — in `poi/*.mca` files. The categorized POI
//! positions of one dimension are collected as [PoiData].

use crate::overlay;
use crate::region_cache;
use crate::region_cache::Mergeable;
use crate::select;
use crate::sorting;
use crate::text;
use vstd::prelude::*;

verus! {

/// A single POI record in a POI chunk section
#[derive(Debug)]
pub struct PoiRecord {
    /// Block position of the POI (`[x, y, z]`)
    pub pos: Vec<i32>,
    /// POI type, for example `minecraft:meeting`
    pub poi_type: String,
}

/// The villager professions that have a job site
pub open spec fn profession(name: Seq<char>) -> bool {
    ||| name == "armorer"@
    ||| name == "butcher"@
    ||| name == "cartographer"@
    ||| name == "cleric"@
    ||| name == "farmer"@
    ||| name == "fisherman"@
    ||| name == "fletcher"@
    ||| name == "leatherworker"@
    ||| name == "librarian"@
    ||| name == "mason"@
    ||| name == "shepherd"@
    ||| name == "toolsmith"@
    ||| name == "weaponsmith"@
}

/// The viewer marker category of a POI type
pub open spec fn category_of(poi_type: Seq<char>) -> Seq<char> {
    let name = overlay::local_name(poi_type);
    if name == "meeting"@ {
        "village"@
    } else if name == "home"@ {
        "home"@
    } else if name == "nether_portal"@ {
        "portal"@
    } else if name == "lodestone"@ {
        "lodestone"@
    } else if profession(name) {
        "jobsite"@
    } else {
        "other"@
    }
}

/// Categorizes a POI type into a viewer marker category
pub fn category(poi_type: &str) -> (r: &'static str)
    ensures
        r@ == category_of(poi_type@),
{
    let name = overlay::strip_namespace(poi_type);
    if text::same(name, "meeting") {
        "village"
    } else if text::same(name, "home") {
        "home"
    } else if text::same(name, "nether_portal") {
        "portal"
    } else if text::same(name, "lodestone") {
        "lodestone"
    } else if text::same(name, "armorer")
        || text::same(name, "butcher")
        || text::same(name, "cartographer")
        || text::same(name, "cleric")
        || text::same(name, "farmer")
        || text::same(name, "fisherman")
        || text::same(name, "fletcher")
        || text::same(name, "leatherworker")
        || text::same(name, "librarian")
        || text::same(name, "mason")
        || text::same(name, "shepherd")
        || text::same(name, "toolsmith")
        || text::same(name, "weaponsmith") {
        "jobsite"
    } else {
        "other"
    }
}

/// Collected POI marker positions by category (block coordinates)
#[derive(Debug)]
pub struct PoiData {
    /// Village meeting points
    pub village: Vec<(i32, i32)>,
    /// Villager beds
    pub home: Vec<(i32, i32)>,
    /// Villager job sites
    pub jobsite: Vec<(i32, i32)>,
    /// Nether portals
    pub portal: Vec<(i32, i32)>,
    /// Lodestones
    pub lodestone: Vec<(i32, i32)>,
    /// Other POIs
    pub other: Vec<(i32, i32)>,
}

/// What a [PoiData] holds
#[verifier::ext_equal]
pub struct PoiLists {
    /// Village meeting points
    pub village: Seq<(i32, i32)>,
    /// Villager beds
    pub home: Seq<(i32, i32)>,
    /// Villager job sites
    pub jobsite: Seq<(i32, i32)>,
    /// Nether portals
    pub portal: Seq<(i32, i32)>,
    /// Lodestones
    pub lodestone: Seq<(i32, i32)>,
    /// Other POIs
    pub other: Seq<(i32, i32)>,
}

impl View for PoiData {
    type V = PoiLists;

    open spec fn view(&self) -> PoiLists {
        PoiLists {
            village: self.village@,
            home: self.home@,
            jobsite: self.jobsite@,
            portal: self.portal@,
            lodestone: self.lodestone@,
            other: self.other@,
        }
    }
}

/// A list of positions in order and without repetitions
pub open spec fn ordered_once(list: Seq<(i32, i32)>) -> Seq<(i32, i32)> {
    select::deduped(sorting::sorted(list))
}

impl PoiLists {
    /// The lists with a POI added
    pub open spec fn with(self, category: Seq<char>, x: i32, z: i32) -> Self {
        if category == "village"@ {
            PoiLists { village: self.village.push((x, z)), ..self }
        } else if category == "home"@ {
            PoiLists { home: self.home.push((x, z)), ..self }
        } else if category == "jobsite"@ {
            PoiLists { jobsite: self.jobsite.push((x, z)), ..self }
        } else if category == "portal"@ {
            PoiLists { portal: self.portal.push((x, z)), ..self }
        } else if category == "lodestone"@ {
            PoiLists { lodestone: self.lodestone.push((x, z)), ..self }
        } else {
            PoiLists { other: self.other.push((x, z)), ..self }
        }
    }

    /// The lists in order and without repetitions
    pub open spec fn finished(self) -> Self {
        PoiLists {
            village: ordered_once(self.village),
            home: ordered_once(self.home),
            jobsite: ordered_once(self.jobsite),
            portal: ordered_once(self.portal),
            lodestone: ordered_once(self.lodestone),
            other: ordered_once(self.other),
        }
    }
}

impl Default for PoiData {
    fn default() -> (r: Self)
        ensures
            r@ == Self::nothing(),
    {
        PoiData {
            village: Vec::new(),
            home: Vec::new(),
            jobsite: Vec::new(),
            portal: Vec::new(),
            lodestone: Vec::new(),
            other: Vec::new(),
        }
    }
}

/// Brings a list of positions in order and leaves out repetitions
fn order_once(list: &mut Vec<(i32, i32)>)
    ensures
        final(list)@ == ordered_once(old(list)@),
{
    sorting::sort_in_place(list);
    select::dedup(list);
}

impl PoiData {
    /// Adds a POI of the given category at a block position
    pub fn push(&mut self, category: &str, x: i32, z: i32)
        ensures
            final(self)@ == old(self)@.with(category@, x, z),
    {
        if text::same(category, "village") {
            self.village.push((x, z));
        } else if text::same(category, "home") {
            self.home.push((x, z));
        } else if text::same(category, "jobsite") {
            self.jobsite.push((x, z));
        } else if text::same(category, "portal") {
            self.portal.push((x, z));
        } else if text::same(category, "lodestone") {
            self.lodestone.push((x, z));
        } else {
            self.other.push((x, z));
        }
    }

    /// Sorts and deduplicates all categories for deterministic output
    pub fn finish(&mut self)
        ensures
            final(self)@ == old(self)@.finished(),
    {
        order_once(&mut self.village);
        order_once(&mut self.home);
        order_once(&mut self.jobsite);
        order_once(&mut self.portal);
        order_once(&mut self.lodestone);
        order_once(&mut self.other);
    }
}

impl Mergeable for PoiData {
    type Contents = PoiLists;

    open spec fn contents(&self) -> PoiLists {
        self@
    }

    open spec fn nothing() -> PoiLists {
        PoiLists {
            village: Seq::empty(),
            home: Seq::empty(),
            jobsite: Seq::empty(),
            portal: Seq::empty(),
            lodestone: Seq::empty(),
            other: Seq::empty(),
        }
    }

    open spec fn together(a: PoiLists, b: PoiLists) -> PoiLists {
        PoiLists {
            village: a.village + b.village,
            home: a.home + b.home,
            jobsite: a.jobsite + b.jobsite,
            portal: a.portal + b.portal,
            lodestone: a.lodestone + b.lodestone,
            other: a.other + b.other,
        }
    }

    proof fn together_associative(a: PoiLists, b: PoiLists, c: PoiLists) {
        assert(Self::together(Self::together(a, b), c) =~= Self::together(
            a,
            Self::together(b, c),
        ));
        assert(Self::together(Self::nothing(), a) =~= a);
        assert(Self::together(a, Self::nothing()) =~= a);
    }

    fn empty() -> (r: Self) {
        PoiData::default()
    }

    fn merge(&mut self, other: PoiData) {
        let mut other = other;
        self.village.append(&mut other.village);
        self.home.append(&mut other.home);
        self.jobsite.append(&mut other.jobsite);
        self.portal.append(&mut other.portal);
        self.lodestone.append(&mut other.lodestone);
        self.other.append(&mut other.other);
    }
}

/// The position of a POI, if it is of the given category and has a position
pub open spec fn poi_position(record: PoiRecord, category: Seq<char>) -> Option<(i32, i32)> {
    if record.pos@.len() >= 3 && category_of(record.poi_type@) == category {
        Some((record.pos@[0], record.pos@[2]))
    } else {
        None
    }
}

/// The positions of the POIs of a category
pub open spec fn positions(records: Seq<PoiRecord>, category: Seq<char>) -> Seq<(i32, i32)> {
    select::picked(records, |r: PoiRecord| poi_position(r, category))
}

/// The POIs among records
pub open spec fn pois_among(records: Seq<PoiRecord>) -> PoiLists {
    PoiLists {
        village: positions(records, "village"@),
        home: positions(records, "home"@),
        jobsite: positions(records, "jobsite"@),
        portal: positions(records, "portal"@),
        lodestone: positions(records, "lodestone"@),
        other: positions(records, "other"@),
    }
}

proof fn positions_pushed(records: Seq<PoiRecord>, record: PoiRecord, category: Seq<char>)
    ensures
        positions(records.push(record), category) == (match poi_position(record, category) {
            Some(p) => positions(records, category).push(p),
            None => positions(records, category),
        }),
{
    select::picked_pushed(records, record, |r: PoiRecord| poi_position(r, category));
}

/// The category names are different
proof fn categories_distinct()
    ensures
        "village"@ != "home"@,
        "village"@ != "jobsite"@,
        "village"@ != "portal"@,
        "village"@ != "lodestone"@,
        "village"@ != "other"@,
        "home"@ != "jobsite"@,
        "home"@ != "portal"@,
        "home"@ != "lodestone"@,
        "home"@ != "other"@,
        "jobsite"@ != "portal"@,
        "jobsite"@ != "lodestone"@,
        "jobsite"@ != "other"@,
        "portal"@ != "lodestone"@,
        "portal"@ != "other"@,
        "lodestone"@ != "other"@,
{
    reveal_strlit("village");
    reveal_strlit("home");
    reveal_strlit("jobsite");
    reveal_strlit("portal");
    reveal_strlit("lodestone");
    reveal_strlit("other");
    assert("village"@.len() == 7 && "home"@.len() == 4 && "jobsite"@.len() == 7 && "portal"@.len()
        == 6 && "lodestone"@.len() == 9 && "other"@.len() == 5);
    assert("village"@[0] != "jobsite"@[0]);
}

proof fn record_added(records: Seq<PoiRecord>, record: PoiRecord)
    ensures
        pois_among(records.push(record)) == (if record.pos@.len() >= 3 {
            pois_among(records).with(
                category_of(record.poi_type@),
                record.pos@[0],
                record.pos@[2],
            )
        } else {
            pois_among(records)
        }),
{
    categories_distinct();
    positions_pushed(records, record, "village"@);
    positions_pushed(records, record, "home"@);
    positions_pushed(records, record, "jobsite"@);
    positions_pushed(records, record, "portal"@);
    positions_pushed(records, record, "lodestone"@);
    positions_pushed(records, record, "other"@);
    let after = pois_among(records.push(record));
    let expected = if record.pos@.len() >= 3 {
        pois_among(records).with(category_of(record.poi_type@), record.pos@[0], record.pos@[2])
    } else {
        pois_among(records)
    };
    assert(after =~= expected);
}

/// Reads the POIs among the records of a single POI region file
///
/// Records without a complete position are skipped.
pub fn collect_file(records: &Vec<PoiRecord>) -> (r: PoiData)
    ensures
        r@ == pois_among(records@),
{
    let mut data = PoiData::default();
    let mut i: usize = 0;
    assert(records@.take(0) =~= Seq::<PoiRecord>::empty());
    assert(data@ =~= pois_among(records@.take(0)));
    while i < records.len()
        invariant
            i <= records.len(),
            data@ == pois_among(records@.take(i as int)),
        decreases records.len() - i,
    {
        let record = &records[i];
        proof {
            assert(records@.take(i + 1) =~= records@.take(i as int).push(*record));
            record_added(records@.take(i as int), *record);
        }
        if record.pos.len() >= 3 {
            data.push(category(record.poi_type.as_str()), record.pos[0], record.pos[2]);
        }
        i = i + 1;
    }
    assert(records@.take(i as int) =~= records@);
    data
}

/// Merges the points of interest of all POI files of one dimension and brings them in order
pub fn collect(contributions: Vec<PoiData>) -> (r: PoiData)
    ensures
        r@ == region_cache::all_together(contributions@).finished(),
{
    let mut data = region_cache::merge_all(contributions);
    data.finish();
    data
}

/// Each position of a list in order occurs once, and positions are in order
pub proof fn ordered_once_properties(list: Seq<(i32, i32)>)
    ensures
        forall|p: (i32, i32)| ordered_once(list).contains(p) <==> #[trigger] list.contains(p),
        forall|i: int, j: int|
            0 <= i < j < ordered_once(list).len() ==> sorting::Ordered::precedes(
                #[trigger] ordered_once(list)[i],
                #[trigger] ordered_once(list)[j],
            ) && ordered_once(list)[i] != ordered_once(list)[j],
{
    broadcast use vstd::seq_lib::group_to_multiset_ensures;

    let s = sorting::sorted(list);
    sorting::sorted_properties(list);
    select::deduped_properties(s);
    assert forall|p: (i32, i32)| ordered_once(list).contains(p) <==> #[trigger] list.contains(
        p,
    ) by {
        assert(s.contains(p) <==> s.to_multiset().count(p) > 0);
        assert(list.contains(p) <==> list.to_multiset().count(p) > 0);
        assert(select::deduped(s).contains(p) <==> s.contains(p));
    }
    deduped_increasing(s);
}

proof fn deduped_increasing(s: Seq<(i32, i32)>)
    requires
        sorting::is_sorted(s),
    ensures
        forall|i: int, j: int|
            0 <= i < j < select::deduped(s).len() ==> sorting::Ordered::precedes(
                #[trigger] select::deduped(s)[i],
                #[trigger] select::deduped(s)[j],
            ) && select::deduped(s)[i] != select::deduped(s)[j],
    decreases s.len(),
{
    if s.len() > 1 {
        let t = s.drop_last();
        assert forall|i: int, j: int| 0 <= i <= j < t.len() implies sorting::Ordered::precedes(
            #[trigger] t[i],
            #[trigger] t[j],
        ) by {
            assert(t[i] == s[i] && t[j] == s[j]);
        }
        deduped_increasing(t);
        select::deduped_properties(t);
        let d = select::deduped(t);
        let n = s.len() as int;
        if s[n - 2] != s[n - 1] {
            assert(d.last() == s[n - 2]);
            assert(sorting::Ordered::precedes(s[n - 2], s[n - 1]));
        }
    }
}

/// The output does not depend on the order in which records are met
pub proof fn pois_deterministic(a: Seq<PoiRecord>, b: Seq<PoiRecord>)
    requires
        a.to_multiset() == b.to_multiset(),
    ensures
        pois_among(a).finished() == pois_among(b).finished(),
{
    positions_deterministic(a, b, "village"@);
    positions_deterministic(a, b, "home"@);
    positions_deterministic(a, b, "jobsite"@);
    positions_deterministic(a, b, "portal"@);
    positions_deterministic(a, b, "lodestone"@);
    positions_deterministic(a, b, "other"@);
}

proof fn positions_deterministic(a: Seq<PoiRecord>, b: Seq<PoiRecord>, category: Seq<char>)
    requires
        a.to_multiset() == b.to_multiset(),
    ensures
        sorting::sorted(positions(a, category)) == sorting::sorted(positions(b, category)),
{
    select::picked_in_any_order(a, b, |r: PoiRecord| poi_position(r, category));
    sorting::sorted_deterministic(positions(a, category), positions(b, category));
}

/// The output does not depend on the order in which files are merged
pub proof fn poi_merge_deterministic(a: PoiLists, b: PoiLists)
    ensures
        PoiData::together(a, b).finished() == PoiData::together(b, a).finished(),
{
    list_merge_deterministic(a.village, b.village);
    list_merge_deterministic(a.home, b.home);
    list_merge_deterministic(a.jobsite, b.jobsite);
    list_merge_deterministic(a.portal, b.portal);
    list_merge_deterministic(a.lodestone, b.lodestone);
    list_merge_deterministic(a.other, b.other);
}

proof fn list_merge_deterministic(a: Seq<(i32, i32)>, b: Seq<(i32, i32)>)
    ensures
        sorting::sorted(a + b) == sorting::sorted(b + a),
{
    sorting::joined_either_way(a, b);
    sorting::sorted_deterministic(a + b, b + a);
}

/// The villager professions that have job sites
pub open spec fn professions() -> Seq<Seq<char>> {
    seq![
        "armorer"@,
        "butcher"@,
        "cartographer"@,
        "cleric"@,
        "farmer"@,
        "fisherman"@,
        "fletcher"@,
        "leatherworker"@,
        "librarian"@,
        "mason"@,
        "shepherd"@,
        "toolsmith"@,
        "weaponsmith"@,
    ]
}

proof fn professions_listed(name: Seq<char>)
    ensures
        profession(name) <==> professions().contains(name),
{
    let kinds = professions();
    assert(kinds[0] == "armorer"@);
    assert(kinds[1] == "butcher"@);
    assert(kinds[2] == "cartographer"@);
    assert(kinds[3] == "cleric"@);
    assert(kinds[4] == "farmer"@);
    assert(kinds[5] == "fisherman"@);
    assert(kinds[6] == "fletcher"@);
    assert(kinds[7] == "leatherworker"@);
    assert(kinds[8] == "librarian"@);
    assert(kinds[9] == "mason"@);
    assert(kinds[10] == "shepherd"@);
    assert(kinds[11] == "toolsmith"@);
    assert(kinds[12] == "weaponsmith"@);
    if profession(name) {
        let i = choose|i: int| 0 <= i < 13 && kinds[i] == name;
        assert(kinds.contains(kinds[i]));
    }
}

/// A POI type is that of a name, with or without namespace
pub open spec fn is_type(record: PoiRecord, name: Seq<char>) -> bool {
    text::without_prefix(record.poi_type@, "minecraft:"@) == name
}

/// A POI is a job site of a villager
pub open spec fn is_jobsite(record: PoiRecord) -> bool {
    professions().contains(text::without_prefix(record.poi_type@, "minecraft:"@))
}

/// A POI is of a category
pub open spec fn is_of(record: PoiRecord, category: Seq<char>) -> bool {
    ||| category == "village"@ && is_type(record, "meeting"@)
    ||| category == "home"@ && is_type(record, "home"@)
    ||| category == "portal"@ && is_type(record, "nether_portal"@)
    ||| category == "lodestone"@ && is_type(record, "lodestone"@)
    ||| category == "jobsite"@ && is_jobsite(record)
    ||| category == "other"@ && !is_type(record, "meeting"@) && !is_type(record, "home"@)
        && !is_type(record, "nether_portal"@) && !is_type(record, "lodestone"@) && !is_jobsite(
        record,
    )
}

proof fn professions_distinct(name: Seq<char>)
    requires
        profession(name),
    ensures
        name != "meeting"@,
        name != "home"@,
        name != "nether_portal"@,
        name != "lodestone"@,
{
    reveal_strlit("armorer");
    reveal_strlit("butcher");
    reveal_strlit("cartographer");
    reveal_strlit("cleric");
    reveal_strlit("farmer");
    reveal_strlit("fisherman");
    reveal_strlit("fletcher");
    reveal_strlit("leatherworker");
    reveal_strlit("librarian");
    reveal_strlit("mason");
    reveal_strlit("shepherd");
    reveal_strlit("toolsmith");
    reveal_strlit("weaponsmith");
    reveal_strlit("meeting");
    reveal_strlit("home");
    reveal_strlit("nether_portal");
    reveal_strlit("lodestone");
    assert("armorer"@.len() == 7);
    assert("butcher"@.len() == 7);
    assert("cartographer"@.len() == 12);
    assert("cleric"@.len() == 6);
    assert("farmer"@.len() == 6);
    assert("fisherman"@.len() == 9);
    assert("fletcher"@.len() == 8);
    assert("leatherworker"@.len() == 13);
    assert("librarian"@.len() == 9);
    assert("mason"@.len() == 5);
    assert("shepherd"@.len() == 8);
    assert("toolsmith"@.len() == 9);
    assert("weaponsmith"@.len() == 11);
    assert("meeting"@.len() == 7);
    assert("home"@.len() == 4);
    assert("nether_portal"@.len() == 13);
    assert("lodestone"@.len() == 9);
    assert("armorer"@[0] == 'a' && "butcher"@[0] == 'b' && "meeting"@[0] == 'm');
    assert("librarian"@[1] == 'i' && "fisherman"@[1] == 'i' && "toolsmith"@[0] == 't');
    assert("lodestone"@[0] == 'l' && "lodestone"@[1] == 'o');
    assert("leatherworker"@[0] == 'l' && "nether_portal"@[0] == 'n');
    assert("shepherd"@[0] == 's');
}

/// The category of a POI follows from its type
pub proof fn category_by_type(record: PoiRecord, category: Seq<char>)
    ensures
        category_of(record.poi_type@) == category <==> is_of(record, category),
{
    categories_distinct();
    let name = overlay::local_name(record.poi_type@);
    professions_listed(name);
    if profession(name) {
        professions_distinct(name);
    }
    reveal_strlit("meeting");
    reveal_strlit("home");
    reveal_strlit("nether_portal");
    reveal_strlit("lodestone");
    assert("meeting"@.len() == 7 && "home"@.len() == 4 && "nether_portal"@.len() == 13
        && "lodestone"@.len() == 9);
}

/// The X and Z coordinates of a POI
pub open spec fn ground_position(record: PoiRecord) -> (i32, i32) {
    (record.pos@[0], record.pos@[2])
}

/// The positions of the POIs of a category in a file: those of its records that have one, in
/// the order of the file
pub open spec fn listed(records: Seq<PoiRecord>, category: Seq<char>) -> Seq<(i32, i32)> {
    records.filter(|r: PoiRecord| r.pos@.len() >= 3 && is_of(r, category)).map_values(
        |r: PoiRecord| ground_position(r),
    )
}

proof fn positions_listed(records: Seq<PoiRecord>, category: Seq<char>)
    ensures
        positions(records, category) == listed(records, category),
{
    let f = |r: PoiRecord| poi_position(r, category);
    let kind = |r: PoiRecord| r.pos@.len() >= 3 && is_of(r, category);
    let position = |r: PoiRecord| ground_position(r);
    assert forall|r: PoiRecord| #[trigger] f(r) == (if kind(r) {
        Some(position(r))
    } else {
        None
    }) by {
        category_by_type(r, category);
    }
    select::picked_of_kind(records, f, kind, position);
}

/// Each POI of a file that has a position is listed under its category, with its X and Z
/// coordinates
pub proof fn pois_by_category(records: Seq<PoiRecord>)
    ensures
        pois_among(records).village == listed(records, "village"@),
        pois_among(records).home == listed(records, "home"@),
        pois_among(records).jobsite == listed(records, "jobsite"@),
        pois_among(records).portal == listed(records, "portal"@),
        pois_among(records).lodestone == listed(records, "lodestone"@),
        pois_among(records).other == listed(records, "other"@),
{
    positions_listed(records, "village"@);
    positions_listed(records, "home"@);
    positions_listed(records, "jobsite"@);
    positions_listed(records, "portal"@);
    positions_listed(records, "lodestone"@);
    positions_listed(records, "other"@);
}

/// A POI is added to the list of its category, and to no other
pub proof fn poi_added(lists: PoiLists, x: i32, z: i32)
    ensures
        lists.with("village"@, x, z) == (PoiLists { village: lists.village + seq![(x, z)], ..lists }),
        lists.with("home"@, x, z) == (PoiLists { home: lists.home + seq![(x, z)], ..lists }),
        lists.with("jobsite"@, x, z) == (PoiLists { jobsite: lists.jobsite + seq![(x, z)], ..lists }),
        lists.with("portal"@, x, z) == (PoiLists { portal: lists.portal + seq![(x, z)], ..lists }),
        lists.with("lodestone"@, x, z) == (PoiLists { lodestone: lists.lodestone + seq![(x, z)], ..lists }),
        lists.with("other"@, x, z) == (PoiLists { other: lists.other + seq![(x, z)], ..lists }),
{
    categories_distinct();
    assert(lists.village.push((x, z)) =~= lists.village + seq![(x, z)]);
    assert(lists.home.push((x, z)) =~= lists.home + seq![(x, z)]);
    assert(lists.jobsite.push((x, z)) =~= lists.jobsite + seq![(x, z)]);
    assert(lists.portal.push((x, z)) =~= lists.portal + seq![(x, z)]);
    assert(lists.lodestone.push((x, z)) =~= lists.lodestone + seq![(x, z)]);
    assert(lists.other.push((x, z)) =~= lists.other + seq![(x, z)]);
}

/// Merging and ordering keep every position in its list: each position occurs once, and in order
pub proof fn merged_pois_kept(a: PoiLists, b: PoiLists, p: (i32, i32))
    ensures
        ({
            let all = PoiData::together(a, b).finished();
            &&& all.village.contains(p) <==> a.village.contains(p) || b.village.contains(p)
            &&& all.home.contains(p) <==> a.home.contains(p) || b.home.contains(p)
            &&& all.jobsite.contains(p) <==> a.jobsite.contains(p) || b.jobsite.contains(p)
            &&& all.portal.contains(p) <==> a.portal.contains(p) || b.portal.contains(p)
            &&& all.lodestone.contains(p) <==> a.lodestone.contains(p) || b.lodestone.contains(p)
            &&& all.other.contains(p) <==> a.other.contains(p) || b.other.contains(p)
        }),
{
    merged_list_kept(a.village, b.village, p);
    merged_list_kept(a.home, b.home, p);
    merged_list_kept(a.jobsite, b.jobsite, p);
    merged_list_kept(a.portal, b.portal, p);
    merged_list_kept(a.lodestone, b.lodestone, p);
    merged_list_kept(a.other, b.other, p);
}

proof fn merged_list_kept(a: Seq<(i32, i32)>, b: Seq<(i32, i32)>, p: (i32, i32))
    ensures
        ordered_once(a + b).contains(p) <==> a.contains(p) || b.contains(p),
{
    ordered_once_properties(a + b);
    assert((a + b).contains(p) <==> ordered_once(a + b).contains(p));
    if a.contains(p) {
        let i = choose|i: int| 0 <= i < a.len() && a[i] == p;
        assert((a + b)[i] == p);
    }
    if b.contains(p) {
        let i = choose|i: int| 0 <= i < b.len() && b[i] == p;
        assert((a + b)[a.len() + i] == p);
    }
}

} // verus!
