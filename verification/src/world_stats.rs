//! World-level statistics for the `--emit-world-stats` output
//!
//! A single `world.json` summarizes a world: its seed, per-dimension
//! region and inhabited-chunk counts, the total number of blocks the players
//! have mined and placed, and the on-disk size of the world.

use crate::common::Config;
use crate::overlay::{Dimension, OverlayData};
use crate::paths;
use crate::player::{Player, Stats};
use crate::region_cache;
use crate::region_cache::DirEntry;
use vstd::prelude::*;

verus! {

/// World-level statistics written to `world.json`
#[derive(Debug)]
pub struct WorldStats {
    /// World seed, if it could be determined
    pub seed: Option<i64>,
    /// Number of region files per dimension
    pub regions: Vec<(Dimension, usize)>,
    /// Number of chunks with a non-zero `InhabitedTime` per dimension
    pub inhabited_chunks: Vec<(Dimension, usize)>,
    /// Total number of blocks mined by all players
    pub blocks_mined: i64,
    /// Total number of blocks placed by all players (approximated by item use)
    pub blocks_placed: i64,
    /// Total on-disk size of the input world directory, in bytes
    pub size_bytes: u64,
}

/// The number of Anvil region files among directory entries
pub open spec fn region_count(entries: Seq<DirEntry>) -> nat
    decreases entries.len(),
{
    if entries.len() == 0 {
        0
    } else {
        region_count(entries.drop_last()) + if region_cache::region_entry(
            entries.last(),
        ) is Some {
            1nat
        } else {
            0
        }
    }
}

/// Counts the Anvil region files in a directory
pub fn count_region_files(entries: &Vec<DirEntry>) -> (r: usize)
    ensures
        r == region_count(entries@),
{
    let mut count: usize = 0;
    let mut i: usize = 0;
    assert(entries@.take(0) =~= Seq::<DirEntry>::empty());
    while i < entries.len()
        invariant
            count <= i <= entries.len(),
            count == region_count(entries@.take(i as int)),
        decreases entries.len() - i,
    {
        assert(entries@.take(i + 1).drop_last() =~= entries@.take(i as int));
        if entries[i].is_file {
            if let Some(name) = &entries[i].name {
                if region_cache::is_region_filename(name.as_str()) {
                    count = count + 1;
                }
            }
        }
        i = i + 1;
    }
    assert(entries@.take(i as int) =~= entries@);
    count
}

/// There are as many region files as are listed
pub proof fn region_count_listed(dir: Seq<char>, entries: Seq<DirEntry>)
    ensures
        region_cache::regions_in(dir, entries).len() == region_count(entries),
    decreases entries.len(),
{
    if entries.len() > 0 {
        region_count_listed(dir, entries.drop_last());
    }
}

/// Something that is found in a directory
#[derive(Debug)]
pub enum DirNode {
    /// A directory with what is found in it; nothing if it cannot be read
    Dir(Vec<DirNode>),
    /// A regular file with its size
    File(u64),
    /// Anything else, such as a symlink or a file of unknown size
    Other,
}

/// The size of all regular files of a directory entry
pub open spec fn node_size(node: DirNode) -> nat
    decreases node,
{
    match node {
        DirNode::Dir(nodes) => nodes_size(nodes@),
        DirNode::File(size) => size as nat,
        DirNode::Other => 0,
    }
}

/// The size of all regular files below a directory
pub open spec fn nodes_size(nodes: Seq<DirNode>) -> nat
    decreases nodes,
{
    if nodes.len() == 0 {
        0
    } else {
        nodes_size(nodes.drop_last()) + node_size(nodes.last())
    }
}

proof fn nodes_size_monotonic(nodes: Seq<DirNode>, n: int)
    requires
        0 <= n <= nodes.len(),
    ensures
        nodes_size(nodes.take(n)) <= nodes_size(nodes),
    decreases nodes.len() - n,
{
    if n < nodes.len() {
        assert(nodes.take(n + 1).drop_last() =~= nodes.take(n));
        nodes_size_monotonic(nodes, n + 1);
    } else {
        assert(nodes.take(n) =~= nodes);
    }
}

/// Recursively sums the size of all regular files below a directory
///
/// Returns `None` if the sum does not fit.
pub fn dir_size(nodes: &Vec<DirNode>) -> (r: Option<u64>)
    ensures
        r is Some <==> nodes_size(nodes@) <= u64::MAX,
        r matches Some(size) ==> size == nodes_size(nodes@),
    decreases nodes,
{
    let mut total: u64 = 0;
    let mut i: usize = 0;
    assert(nodes@.take(0) =~= Seq::<DirNode>::empty());
    while i < nodes.len()
        invariant
            i <= nodes.len(),
            total == nodes_size(nodes@.take(i as int)),
        decreases nodes.len() - i,
    {
        proof {
            assert(nodes@.take(i + 1).drop_last() =~= nodes@.take(i as int));
            assert(nodes@.take(i + 1).last() == nodes@[i as int]);
            nodes_size_monotonic(nodes@, i + 1);
            assert(nodes_size(nodes@.take(i + 1)) == total + node_size(nodes@[i as int]));
        }
        let size = match &nodes[i] {
            DirNode::Dir(inner) => {
                assert(decreases_to!(nodes => nodes@));
                assert(decreases_to!(nodes@ => nodes@[i as int]));
                assert(node_size(nodes@[i as int]) == nodes_size(inner@));
                match dir_size(inner) {
                    Some(size) => size,
                    None => return None,
                }
            },
            DirNode::File(size) => *size,
            DirNode::Other => 0,
        };
        total = match total.checked_add(size) {
            Some(sum) => sum,
            None => return None,
        };
        i = i + 1;
    }
    assert(nodes@.take(i as int) =~= nodes@);
    Some(total)
}

/// A total of player statistics, if it and the totals on the way to it fit
pub open spec fn stats_total(players: Seq<Player>, f: spec_fn(Stats) -> i64) -> Option<i64>
    decreases players.len(),
{
    if players.len() == 0 {
        Some(0)
    } else {
        match (stats_total(players.drop_last(), f), players.last().stats) {
            (Some(n), Some(stats)) => if i64::MIN <= n + f(stats) <= i64::MAX {
                Some((n + f(stats)) as i64)
            } else {
                None
            },
            (total, None) => total,
            (None, _) => None,
        }
    }
}

proof fn stats_total_failed(players: Seq<Player>, f: spec_fn(Stats) -> i64, n: int)
    requires
        0 <= n <= players.len(),
        stats_total(players.take(n), f) is None,
    ensures
        stats_total(players, f) is None,
    decreases players.len() - n,
{
    if n < players.len() {
        assert(players.take(n + 1).drop_last() =~= players.take(n));
        stats_total_failed(players, f, n + 1);
    } else {
        assert(players.take(n) =~= players);
    }
}

/// Sums the mined and placed block counts over all players, if the sums fit
pub fn player_block_totals(players: &Vec<Player>) -> (r: Option<(i64, i64)>)
    ensures
        ({
            let mined = stats_total(players@, |s: Stats| s.blocks_mined);
            let placed = stats_total(players@, |s: Stats| s.blocks_placed);
            match (mined, placed) {
                (Some(m), Some(p)) => r == Some((m, p)),
                _ => r is None,
            }
        }),
{
    let ghost fm = |s: Stats| s.blocks_mined;
    let ghost fp = |s: Stats| s.blocks_placed;
    let mut mined: i64 = 0;
    let mut placed: i64 = 0;
    let mut i: usize = 0;
    assert(players@.take(0) =~= Seq::<Player>::empty());
    while i < players.len()
        invariant
            i <= players.len(),
            fm == (|s: Stats| s.blocks_mined),
            fp == (|s: Stats| s.blocks_placed),
            stats_total(players@.take(i as int), fm) == Some(mined),
            stats_total(players@.take(i as int), fp) == Some(placed),
        decreases players.len() - i,
    {
        assert(players@.take(i + 1).drop_last() =~= players@.take(i as int));
        if let Some(stats) = players[i].stats {
            mined = match mined.checked_add(stats.blocks_mined) {
                Some(sum) => sum,
                None => {
                    proof {
                        stats_total_failed(players@, fm, i + 1);
                    }
                    return None;
                },
            };
            placed = match placed.checked_add(stats.blocks_placed) {
                Some(sum) => sum,
                None => {
                    proof {
                        stats_total_failed(players@, fp, i + 1);
                    }
                    return None;
                },
            };
        }
        i = i + 1;
    }
    assert(players@.take(i as int) =~= players@);
    Some((mined, placed))
}

/// Counts the region files of each rendered dimension
fn count_regions(dimensions: &Vec<(Dimension, Vec<DirEntry>)>) -> (r: Vec<(Dimension, usize)>)
    ensures
        r@.len() == dimensions@.len(),
        forall|i: int|
            0 <= i < r@.len() ==> (#[trigger] r@[i]).0 == dimensions@[i].0 && r@[i].1
                == region_count(dimensions@[i].1@),
{
    let mut out: Vec<(Dimension, usize)> = Vec::new();
    let mut i: usize = 0;
    while i < dimensions.len()
        invariant
            i <= dimensions.len(),
            out@.len() == i,
            forall|j: int|
                0 <= j < i ==> (#[trigger] out@[j]).0 == dimensions@[j].0 && out@[j].1
                    == region_count(dimensions@[j].1@),
        decreases dimensions.len() - i,
    {
        out.push((dimensions[i].0, count_region_files(&dimensions[i].1)));
        i = i + 1;
    }
    out
}

/// Counts the inhabited chunks of each dimension
fn count_inhabited(overlays: &OverlayData) -> (r: Vec<(Dimension, usize)>)
    ensures
        r@.len() == 3,
        forall|i: int|
            0 <= i < 3 ==> (#[trigger] r@[i]).0 == Dimension::spec_all()[i] && r@[i].1
                == overlays.spec_dimension(r@[i].0).inhabited@.len(),
{
    let mut out: Vec<(Dimension, usize)> = Vec::new();
    let all = Dimension::all();
    let mut i: usize = 0;
    while i < 3
        invariant
            i <= 3,
            all@ == Dimension::spec_all(),
            out@.len() == i,
            forall|j: int|
                0 <= j < i ==> (#[trigger] out@[j]).0 == Dimension::spec_all()[j] && out@[j].1
                    == overlays.spec_dimension(out@[j].0).inhabited@.len(),
        decreases 3 - i,
    {
        let dimension = all[i];
        out.push((dimension, overlays.dimension(dimension).inhabited.len()));
        i = i + 1;
    }
    out
}

/// Collects the world statistics of a Java Edition world
///
/// `dimensions` are the rendered dimensions with the entries of their region directories,
/// `overlays` provides the inhabited-chunk data already gathered during the
/// render pass, and `world` is what is found in the input directory. Returns `None` if a
/// total does not fit.
pub fn collect_java(
    config: &Config,
    dimensions: &Vec<(Dimension, Vec<DirEntry>)>,
    overlays: &OverlayData,
    players: &Vec<Player>,
    world: &Vec<DirNode>,
) -> (r: Option<WorldStats>)
    ensures
        ({
            let mined = stats_total(players@, |s: Stats| s.blocks_mined);
            let placed = stats_total(players@, |s: Stats| s.blocks_placed);
            match (mined, placed) {
                (Some(m), Some(p)) => if nodes_size(world@) <= u64::MAX {
                    &&& r matches Some(stats)
                    &&& stats.seed == config.world_seed
                    &&& stats.blocks_mined == m
                    &&& stats.blocks_placed == p
                    &&& stats.size_bytes == nodes_size(world@)
                    &&& stats.regions@.len() == dimensions@.len()
                    &&& forall|i: int|
                        0 <= i < dimensions@.len() ==> (#[trigger] stats.regions@[i]).0
                            == dimensions@[i].0 && stats.regions@[i].1 == region_count(
                            dimensions@[i].1@,
                        )
                    &&& stats.inhabited_chunks@.len() == 3
                    &&& forall|i: int|
                        0 <= i < 3 ==> (#[trigger] stats.inhabited_chunks@[i]).0
                            == Dimension::spec_all()[i] && stats.inhabited_chunks@[i].1
                            == overlays.spec_dimension(
                            stats.inhabited_chunks@[i].0,
                        ).inhabited@.len()
                } else {
                    r is None
                },
                _ => r is None,
            }
        }),
{
    let (blocks_mined, blocks_placed) = match player_block_totals(players) {
        Some(totals) => totals,
        None => return None,
    };
    let size_bytes: u64 = match dir_size(world) {
        Some(size) => size,
        None => return None,
    };
    Some(
        WorldStats {
            seed: config.world_seed,
            regions: count_regions(dimensions),
            inhabited_chunks: count_inhabited(overlays),
            blocks_mined,
            blocks_placed,
            size_bytes,
        },
    )
}

/// Returns the standard path of the `world.json` output file
pub fn output_path(dir: &str) -> (r: String)
    ensures
        r@ == paths::joined(dir@, "world.json"@),
{
    paths::join(dir, "world.json")
}

/// The region files of a directory are counted: regular files with the name of a region file
pub proof fn region_files_counted(entries: Seq<DirEntry>)
    ensures
        region_count(entries) == entries.filter(
            |e: DirEntry|
                e.is_file && match e.name {
                    Some(name) => region_cache::region_coords(name@) is Some,
                    None => false,
                },
        ).len(),
    decreases entries.len(),
{
    let f = |e: DirEntry|
        e.is_file && match e.name {
            Some(name) => region_cache::region_coords(name@) is Some,
            None => false,
        };
    reveal(Seq::filter);
    if entries.len() > 0 {
        region_files_counted(entries.drop_last());
        assert(f(entries.last()) == (region_cache::region_entry(entries.last()) is Some));
    }
}

/// The sizes of regular files add up, at any depth
pub proof fn sizes_add_up(a: Seq<DirNode>, b: Seq<DirNode>, size: u64, inner: Vec<DirNode>)
    ensures
        nodes_size(a + b) == nodes_size(a) + nodes_size(b),
        nodes_size(seq![DirNode::File(size)]) == size,
        nodes_size(seq![DirNode::Dir(inner)]) == nodes_size(inner@),
        nodes_size(seq![DirNode::Other]) == 0,
        nodes_size(Seq::empty()) == 0,
    decreases b.len(),
{
    let file = seq![DirNode::File(size)];
    let dir = seq![DirNode::Dir(inner)];
    let other = seq![DirNode::Other];
    assert(file.drop_last() =~= Seq::<DirNode>::empty());
    assert(dir.drop_last() =~= Seq::<DirNode>::empty());
    assert(other.drop_last() =~= Seq::<DirNode>::empty());
    assert(nodes_size(Seq::<DirNode>::empty()) == 0);
    assert(node_size(file.last()) == size && node_size(other.last()) == 0);
    assert(node_size(dir.last()) == nodes_size(inner@));
    if b.len() == 0 {
        assert(a + b =~= a);
    } else {
        assert((a + b).drop_last() =~= a + b.drop_last());
        assert((a + b).last() == b.last());
        sizes_add_up(a, b.drop_last(), size, inner);
    }
}

/// The sum of a statistic over players, where players without statistics do not count
pub open spec fn stats_sum(players: Seq<Player>, f: spec_fn(Stats) -> i64) -> int {
    players.fold_left(
        0int,
        |n: int, p: Player|
            match p.stats {
                Some(stats) => n + f(stats),
                None => n,
            },
    )
}

/// A total is the sum over all players, and there is one just if no sum on the way is out of
/// range
pub proof fn totals_add_up(players: Seq<Player>, f: spec_fn(Stats) -> i64)
    ensures
        match stats_total(players, f) {
            Some(total) => total == stats_sum(players, f),
            None => true,
        },
        stats_total(players, f) is Some <==> (forall|n: int|
            0 <= n <= players.len() ==> i64::MIN <= #[trigger] stats_sum(players.take(n), f)
                <= i64::MAX),
    decreases players.len(),
{
    let g = |n: int, p: Player|
        match p.stats {
            Some(stats) => n + f(stats),
            None => n,
        };
    reveal_with_fuel(Seq::fold_left, 2);
    assert(players.take(players.len() as int) =~= players);
    if players.len() == 0 {
        assert forall|n: int| 0 <= n <= players.len() implies i64::MIN <= #[trigger] stats_sum(
            players.take(n),
            f,
        ) <= i64::MAX by {
            assert(players.take(n) =~= players);
        }
    } else {
        let rest = players.drop_last();
        totals_add_up(rest, f);
        assert(stats_sum(players, f) == g(stats_sum(rest, f), players.last()));
        assert forall|n: int| 0 <= n <= rest.len() implies rest.take(n) == #[trigger] players.take(
            n,
        ) by {
            assert(rest.take(n) =~= players.take(n));
        }
        assert(rest =~= players.take(rest.len() as int));
        if stats_total(players, f) is Some {
            assert(stats_total(rest, f) is Some);
            assert forall|n: int| 0 <= n <= players.len() implies i64::MIN <= #[trigger] stats_sum(
                players.take(n),
                f,
            ) <= i64::MAX by {
                if n <= rest.len() {
                    assert(rest.take(n) == players.take(n));
                    assert(i64::MIN <= stats_sum(rest.take(n), f) <= i64::MAX);
                } else {
                    assert(players.take(n) =~= players);
                }
            }
        } else if stats_total(rest, f) is None {
            let n = choose|n: int|
                0 <= n <= rest.len() && !(i64::MIN <= #[trigger] stats_sum(rest.take(n), f)
                    <= i64::MAX);
            assert(rest.take(n) == players.take(n));
            assert(!(i64::MIN <= stats_sum(players.take(n), f) <= i64::MAX));
        } else {
            assert(!(i64::MIN <= stats_sum(players.take(players.len() as int), f) <= i64::MAX));
        }
    }
}

} // verus!
