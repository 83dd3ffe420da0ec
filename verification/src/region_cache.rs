//! Per-region caching of collected emit data for incremental `--since` runs
//!
//! The marker/overlay outputs are single files aggregated across every region
//! of a dimension. To make re-runs cheap, each region's contribution is
//! cached with the timestamp of the source file it was derived from. On a later
//! run a region is only re-read from source when it actually changed; otherwise
//! its cached contribution is reused. The per-region contributions are then
//! merged into the aggregated output.
//!
//! `--since <ts>` is an additional optimization: regions whose source file was
//! not modified after `<ts>` are taken from the cache without even checking the
//! cache timestamp. To avoid ever dropping data, a region with no cached
//! contribution is always recomputed regardless of `--since`.

use crate::common;
use crate::fs::Timestamp;
use crate::paths;
use crate::sorting;
use crate::text;
use vstd::prelude::*;

verus! {

/// A per-region contribution that can be merged into an aggregate
pub trait Mergeable: Sized {
    /// What a contribution holds
    type Contents;

    /// What the contribution holds
    spec fn contents(&self) -> Self::Contents;

    /// What an empty contribution holds
    spec fn nothing() -> Self::Contents;

    /// What two contributions hold together, one after the other
    spec fn together(a: Self::Contents, b: Self::Contents) -> Self::Contents;

    /// Contributions may be merged in groups, and empty contributions do not matter
    proof fn together_associative(a: Self::Contents, b: Self::Contents, c: Self::Contents)
        ensures
            Self::together(Self::together(a, b), c) == Self::together(a, Self::together(b, c)),
            Self::together(Self::nothing(), a) == a,
            Self::together(a, Self::nothing()) == a,
    ;

    /// Creates an empty contribution
    fn empty() -> (r: Self)
        ensures
            r.contents() == Self::nothing(),
    ;

    /// Merges another contribution into this one
    fn merge(&mut self, other: Self)
        ensures
            final(self).contents() == Self::together(old(self).contents(), other.contents()),
    ;
}

/// What contributions hold, one after the other
pub open spec fn all_together<T: Mergeable>(parts: Seq<T>) -> T::Contents
    decreases parts.len(),
{
    if parts.len() == 0 {
        T::nothing()
    } else {
        T::together(all_together(parts.drop_last()), parts.last().contents())
    }
}

/// Merges contributions
pub fn merge_all<T: Mergeable>(parts: Vec<T>) -> (r: T)
    ensures
        r.contents() == all_together(parts@),
{
    let ghost all = parts@;
    let mut rest = sorting::reversed(parts);
    let mut merged = T::empty();
    assert(all.take(0) =~= Seq::<T>::empty());
    while rest.len() > 0
        invariant
            rest@.len() <= all.len(),
            forall|i: int| 0 <= i < rest@.len() ==> #[trigger] rest@[i] == all[all.len() - 1 - i],
            merged.contents() == all_together(all.take(all.len() - rest@.len())),
        decreases rest.len(),
    {
        let ghost done = all.len() - rest@.len();
        if let Some(part) = rest.pop() {
            merged.merge(part);
            assert(all.take(done + 1).drop_last() =~= all.take(done));
        }
    }
    assert(all.take(all.len() as int) =~= all);
    merged
}

/// Merging two groups of contributions separately gives the same as merging all of them, so
/// that contributions may be merged in parallel
pub proof fn merged_in_groups<T: Mergeable>(a: Seq<T>, b: Seq<T>)
    ensures
        all_together(a + b) == T::together(all_together(a), all_together(b)),
    decreases b.len(),
{
    if b.len() == 0 {
        T::together_associative(all_together(a), T::nothing(), T::nothing());
        assert(a + b =~= a);
    } else {
        merged_in_groups(a, b.drop_last());
        assert((a + b).drop_last() =~= a + b.drop_last());
        T::together_associative(
            all_together(a),
            all_together(b.drop_last()),
            b.last().contents(),
        );
    }
}

/// The coordinates in an `r.X.Z.mca` region filename
pub open spec fn region_coords(name: Seq<char>) -> Option<(i32, i32)> {
    let parts = text::split(name, '.');
    if parts.len() == 4 && parts[0] == "r"@ && parts[3] == "mca"@ {
        match (text::parsed_i32(parts[1]), text::parsed_i32(parts[2])) {
            (Some(x), Some(z)) => Some((x, z)),
            _ => None,
        }
    } else {
        None
    }
}

/// Parses an `r.X.Z.mca` region filename into its coordinates
pub fn parse_region_filename(name: &str) -> (r: Option<(i32, i32)>)
    ensures
        r == region_coords(name@),
{
    let parts = text::split_at_each(name, '.');
    assert(parts@.len() == text::parts_view(parts@).len());
    if parts.len() != 4 {
        return None;
    }
    assert forall|i: int| 0 <= i < 4 implies parts@[i]@ == text::split(name@, '.')[i] by {
        assert(text::parts_view(parts@)[i] == parts@[i]@);
    }
    if !text::spells(&parts[0], "r") || !text::spells(&parts[3], "mca") {
        return None;
    }
    match (text::parse_i32(&parts[1]), text::parse_i32(&parts[2])) {
        (Some(x), Some(z)) => Some((x, z)),
        _ => None,
    }
}

/// Returns whether a file name matches the `r.X.Z.mca` region pattern
pub fn is_region_filename(name: &str) -> (r: bool)
    ensures
        r == (region_coords(name@) is Some),
{
    parse_region_filename(name).is_some()
}

/// The coordinates of a region are read back from the name of its region file
pub proof fn region_filename_read_back(coords: common::TileCoords)
    ensures
        region_coords(common::filename_of(coords, "mca"@)) == Some((coords.x, coords.z)),
{
    reveal_strlit("mca");
    let ext = "mca"@;
    filename_parts(coords, ext);
    assert(!ext.contains('.'));
    text::split_single(ext, '.');
    let parts = text::split(common::filename_of(coords, ext), '.');
    assert(parts[3] == parts.skip(3)[0]);
    text::decimal_parses(coords.x);
    text::decimal_parses(coords.z);
}

/// Different regions have different filenames
pub proof fn filenames_distinct(a: common::TileCoords, b: common::TileCoords, ext: Seq<char>)
    requires
        common::filename_of(a, ext) == common::filename_of(b, ext),
    ensures
        a == b,
{
    filename_parts(a, ext);
    filename_parts(b, ext);
    let parts = text::split(common::filename_of(a, ext), '.');
    text::decimal_parses(a.x);
    text::decimal_parses(a.z);
    text::decimal_parses(b.x);
    text::decimal_parses(b.z);
    assert(parts[1] == text::decimal(a.x as int) && parts[1] == text::decimal(b.x as int));
    assert(parts[2] == text::decimal(a.z as int) && parts[2] == text::decimal(b.z as int));
}

proof fn filename_parts(coords: common::TileCoords, ext: Seq<char>)
    ensures
        ({
            let parts = text::split(common::filename_of(coords, ext), '.');
            &&& parts.len() == 3 + text::split(ext, '.').len()
            &&& parts[0] == "r"@
            &&& parts[1] == text::decimal(coords.x as int)
            &&& parts[2] == text::decimal(coords.z as int)
            &&& parts.skip(3) == text::split(ext, '.')
        }),
{
    reveal_strlit("r.");
    reveal_strlit("r");
    reveal_strlit(".");
    let x = text::decimal(coords.x as int);
    let z = text::decimal(coords.z as int);
    let name = common::filename_of(coords, ext);
    text::decimal_without_dot(coords.x as int);
    text::decimal_without_dot(coords.z as int);
    let tail = z.push('.') + ext;
    let mid = x.push('.') + tail;
    assert(name =~= "r"@.push('.') + mid);
    text::split_joined("r"@, mid, '.');
    text::split_joined(x, tail, '.');
    text::split_joined(z, ext, '.');
    assert(!"r"@.contains('.'));
    text::split_single("r"@, '.');
    text::split_single(x, '.');
    text::split_single(z, '.');
    assert(text::split(name, '.') =~= seq!["r"@, x, z] + text::split(ext, '.'));
    assert(text::split(name, '.').skip(3) =~= text::split(ext, '.'));
}

/// An entry of a directory
#[derive(Debug)]
pub struct DirEntry {
    /// Name of the entry; `None` for names that are not text
    pub name: Option<String>,
    /// Whether the entry is a regular file
    pub is_file: bool,
}

/// The coordinates and the name of a region file
pub open spec fn region_entry(entry: DirEntry) -> Option<((i32, i32), Seq<char>)> {
    match entry.name {
        Some(name) => match region_coords(name@) {
            Some(coords) => if entry.is_file {
                Some((coords, name@))
            } else {
                None
            },
            None => None,
        },
        None => None,
    }
}

/// The coordinates and paths of the region files of a directory
pub open spec fn regions_in(dir: Seq<char>, entries: Seq<DirEntry>) -> Seq<((i32, i32), Seq<char>)>
    decreases entries.len(),
{
    if entries.len() == 0 {
        Seq::empty()
    } else {
        let before = regions_in(dir, entries.drop_last());
        match region_entry(entries.last()) {
            Some((coords, name)) => before.push((coords, paths::joined(dir, name))),
            None => before,
        }
    }
}

/// The coordinates and paths of a list of regions
pub open spec fn regions_view(regions: Seq<((i32, i32), String)>) -> Seq<((i32, i32), Seq<char>)> {
    regions.map_values(|r: ((i32, i32), String)| (r.0, r.1@))
}

/// Lists the region files of a source directory as `(coords, path)` pairs
pub fn list_regions(source_dir: &str, entries: &Vec<DirEntry>) -> (r: Vec<((i32, i32), String)>)
    ensures
        regions_view(r@) == regions_in(source_dir@, entries@),
{
    let mut regions: Vec<((i32, i32), String)> = Vec::new();
    let mut i: usize = 0;
    assert(entries@.take(0) =~= Seq::<DirEntry>::empty());
    assert(regions_view(regions@) =~= regions_in(source_dir@, entries@.take(0)));
    while i < entries.len()
        invariant
            i <= entries.len(),
            regions_view(regions@) == regions_in(source_dir@, entries@.take(i as int)),
        decreases entries.len() - i,
    {
        assert(entries@.take(i + 1).drop_last() =~= entries@.take(i as int));
        let entry = &entries[i];
        if entry.is_file {
            if let Some(name) = &entry.name {
                if let Some(coords) = parse_region_filename(name.as_str()) {
                    let ghost before = regions@;
                    let path = paths::join(source_dir, name.as_str());
                    regions.push((coords, path));
                    assert(regions_view(regions@) =~= regions_view(before).push(
                        (coords, paths::joined(source_dir@, name@)),
                    ));
                }
            }
        }
        i = i + 1;
    }
    assert(entries@.take(i as int) =~= entries@);
    regions
}

/// Directory entries that are not region files make no difference
pub proof fn other_entries_ignored(dir: Seq<char>, entries: Seq<DirEntry>, i: int)
    requires
        0 <= i < entries.len(),
        region_entry(entries[i]) is None,
    ensures
        regions_in(dir, entries.remove(i)) == regions_in(dir, entries),
    decreases entries.len(),
{
    if i == entries.len() - 1 {
        assert(entries.remove(i) =~= entries.drop_last());
    } else {
        other_entries_ignored(dir, entries.drop_last(), i);
        assert(entries.remove(i).drop_last() =~= entries.drop_last().remove(i));
        assert(entries.remove(i).last() == entries.last());
    }
}

/// A time lies after another one, where a missing time lies before all others
pub open spec fn later(a: Option<Timestamp>, b: Option<Timestamp>) -> bool {
    match (a, b) {
        (Some(x), Some(y)) => x > y,
        (Some(_), None) => true,
        (None, _) => false,
    }
}

/// A region is recomputed from source
pub open spec fn recomputed(
    source_mtime: Option<Timestamp>,
    cache_timestamp: Option<Timestamp>,
    since: Option<Timestamp>,
) -> bool {
    match since {
        Some(since) => cache_timestamp is None || source_mtime is None || source_mtime->0 > since,
        None => cache_timestamp is None || later(source_mtime, cache_timestamp),
    }
}

/// Determines whether a region must be recomputed from source
///
/// A region is recomputed when its source changed relative to the cache, or —
/// with `--since` — when it was modified after the given timestamp. A region
/// without a cached contribution is always recomputed so that data is never
/// dropped.
pub fn needs_recompute(
    source_mtime: Option<Timestamp>,
    cache_timestamp: Option<Timestamp>,
    since: Option<Timestamp>,
) -> (r: bool)
    ensures
        r == recomputed(source_mtime, cache_timestamp, since),
{
    match since {
        Some(since) => match (source_mtime, cache_timestamp) {
            (Some(source), Some(_)) => source > since,
            _ => true,
        },
        None => match (source_mtime, cache_timestamp) {
            (Some(source), Some(cache)) => source > cache,
            (_, None) => true,
            (None, Some(_)) => false,
        },
    }
}

/// A region without a cached contribution is always recomputed, so that data is never dropped
pub proof fn missing_cache_recomputed(source_mtime: Option<Timestamp>, since: Option<Timestamp>)
    ensures
        recomputed(source_mtime, None, since),
{
}

/// A region whose source has not changed since its contribution was cached is not
/// recomputed, nor is one that has not changed since the given time
pub proof fn unchanged_region_cached(
    source_mtime: Timestamp,
    cache_timestamp: Timestamp,
    since: Option<Timestamp>,
)
    requires
        match since {
            Some(since) => source_mtime <= since,
            None => source_mtime <= cache_timestamp,
        },
    ensures
        !recomputed(Some(source_mtime), Some(cache_timestamp), since),
{
}

/// What to do next to get the contribution of a region
#[derive(Debug, Clone, Copy, PartialEq, Eq, Structural)]
pub enum RegionStep {
    /// Read the cached contribution
    LoadCache,
    /// Compute the contribution from the source
    Compute,
    /// Write the computed contribution to the cache, with the given timestamp or else the
    /// current time
    WriteCache(Option<Timestamp>),
    /// Return an empty contribution
    ReturnEmpty,
    /// Return the contribution that was read from the cache
    ReturnCached,
    /// Return the contribution that was computed
    ReturnComputed,
}

/// What is known of a region before its contribution is determined
#[derive(Debug, Clone, Copy, PartialEq, Eq, Structural)]
pub struct RegionTimes {
    /// Time of last modification of the source, if it can be determined
    pub source_mtime: Option<Timestamp>,
    /// Timestamp of the cached contribution, if there is one
    pub cache_timestamp: Option<Timestamp>,
    /// Time given by `--since`
    pub since: Option<Timestamp>,
}

impl RegionTimes {
    /// What to do first
    pub open spec fn first_step(self) -> RegionStep {
        if recomputed(self.source_mtime, self.cache_timestamp, self.since) {
            RegionStep::Compute
        } else {
            self.fallback()
        }
    }

    /// Any cached contribution, rather than losing the region
    pub open spec fn fallback(self) -> RegionStep {
        if self.cache_timestamp is Some {
            RegionStep::LoadCache
        } else {
            RegionStep::ReturnEmpty
        }
    }

    /// What follows a step that has succeeded or failed
    pub open spec fn next_step(self, step: RegionStep, ok: bool) -> RegionStep {
        match step {
            RegionStep::LoadCache => if ok {
                RegionStep::ReturnCached
            } else {
                RegionStep::ReturnEmpty
            },
            RegionStep::Compute => if ok {
                RegionStep::WriteCache(self.source_mtime)
            } else {
                self.fallback()
            },
            RegionStep::WriteCache(_) => RegionStep::ReturnComputed,
            _ => step,
        }
    }

    /// Decides what to do first to get the contribution of a region
    pub fn start(&self) -> (r: RegionStep)
        ensures
            r == self.first_step(),
    {
        if needs_recompute(self.source_mtime, self.cache_timestamp, self.since) {
            RegionStep::Compute
        } else if self.cache_timestamp.is_some() {
            RegionStep::LoadCache
        } else {
            RegionStep::ReturnEmpty
        }
    }

    /// Decides what follows a step that has succeeded or failed
    pub fn region_contribution(&self, step: RegionStep, ok: bool) -> (r: RegionStep)
        ensures
            r == self.next_step(step, ok),
    {
        match step {
            RegionStep::LoadCache => if ok {
                RegionStep::ReturnCached
            } else {
                RegionStep::ReturnEmpty
            },
            RegionStep::Compute => if ok {
                RegionStep::WriteCache(self.source_mtime)
            } else if self.cache_timestamp.is_some() {
                RegionStep::LoadCache
            } else {
                RegionStep::ReturnEmpty
            },
            RegionStep::WriteCache(_) => RegionStep::ReturnComputed,
            _ => step,
        }
    }

    /// Where the steps lead, if computing and loading succeed or fail as given; a cache that
    /// cannot be written makes no difference
    pub open spec fn outcome(self, computes: bool, loads: bool, writes: bool) -> RegionStep {
        let first = self.first_step();
        let second = self.next_step(first, succeeds(first, computes, loads, writes));
        self.next_step(second, succeeds(second, computes, loads, writes))
    }
}

/// A step succeeds
pub open spec fn succeeds(step: RegionStep, computes: bool, loads: bool, writes: bool) -> bool {
    match step {
        RegionStep::Compute => computes,
        RegionStep::LoadCache => loads,
        _ => writes,
    }
}

/// A region is never lost: its contribution is empty only if it is neither computed nor
/// found in the cache
///
/// A contribution that is computed is returned, whether or not it can be cached. A cached
/// contribution is returned where the region need not be recomputed, or cannot be. A region
/// without a cached contribution is always computed first, so that it is empty only if that
/// fails.
pub proof fn region_never_lost(times: RegionTimes, computes: bool, loads: bool, writes: bool)
    ensures
        times.outcome(computes, loads, writes) == (if times.first_step() == RegionStep::Compute
            && computes {
            RegionStep::ReturnComputed
        } else if times.cache_timestamp is Some && loads {
            RegionStep::ReturnCached
        } else {
            RegionStep::ReturnEmpty
        }),
        times.cache_timestamp is None ==> times.first_step() == RegionStep::Compute,
        times.cache_timestamp is None && computes ==> times.outcome(computes, loads, writes)
            == RegionStep::ReturnComputed,
{
}

/// Once a region's contribution is cached with the time of its source, it is not computed
/// again until the source changes
pub proof fn cached_after_compute(times: RegionTimes)
    requires
        times.source_mtime is Some,
        times.since is None,
    ensures
        times.next_step(RegionStep::Compute, true) == RegionStep::WriteCache(times.source_mtime),
        (RegionTimes { cache_timestamp: times.source_mtime, ..times }).first_step()
            == RegionStep::LoadCache,
{
}

/// A region file, as a run over all regions of a directory finds it
pub struct SourceRegion<C> {
    /// Coordinates of the region
    pub coords: (i32, i32),
    /// Time of last modification, if it can be determined
    pub mtime: Option<Timestamp>,
    /// What the contribution that is computed from the file holds, if it can be computed
    pub computed: Option<C>,
}

/// A cached contribution
pub struct CachedRegion<C> {
    /// The timestamp that the contribution is cached with
    pub timestamp: Timestamp,
    /// What the contribution holds
    pub contents: C,
}

/// The cached contribution of a region, if there is one
pub open spec fn cached_in<C>(cache: Map<(i32, i32), CachedRegion<C>>, coords: (i32, i32)) -> Option<
    CachedRegion<C>,
> {
    if cache.contains_key(coords) {
        Some(cache[coords])
    } else {
        None
    }
}

/// What is known of a region before its contribution is determined
pub open spec fn times_of<C>(
    source: SourceRegion<C>,
    cached: Option<CachedRegion<C>>,
    since: Option<Timestamp>,
) -> RegionTimes {
    RegionTimes {
        source_mtime: source.mtime,
        cache_timestamp: match cached {
            Some(entry) => Some(entry.timestamp),
            None => None,
        },
        since,
    }
}

/// A region is computed from its source
pub open spec fn is_computed<C>(
    source: SourceRegion<C>,
    cached: Option<CachedRegion<C>>,
    since: Option<Timestamp>,
) -> bool {
    times_of(source, cached, since).first_step() == RegionStep::Compute
}

/// What the contribution of a region holds to which its steps lead, where cached contributions
/// can be read
pub open spec fn contributed<T: Mergeable>(
    source: SourceRegion<T::Contents>,
    cached: Option<CachedRegion<T::Contents>>,
    since: Option<Timestamp>,
) -> T::Contents {
    match times_of(source, cached, since).outcome(source.computed is Some, true, true) {
        RegionStep::ReturnComputed => source.computed->0,
        RegionStep::ReturnCached => cached->0.contents,
        _ => T::nothing(),
    }
}

/// What is cached of a region after its contribution has been determined at the time `now`,
/// where contributions can be written to the cache
pub open spec fn cached_after<C>(
    source: SourceRegion<C>,
    cached: Option<CachedRegion<C>>,
    since: Option<Timestamp>,
    now: Timestamp,
) -> Option<CachedRegion<C>> {
    if is_computed(source, cached, since) {
        match times_of(source, cached, since).next_step(
            RegionStep::Compute,
            source.computed is Some,
        ) {
            RegionStep::WriteCache(mtime) => Some(
                CachedRegion {
                    timestamp: match mtime {
                        Some(time) => time,
                        None => now,
                    },
                    contents: source.computed->0,
                },
            ),
            _ => cached,
        }
    } else {
        cached
    }
}

/// What comes of a run over regions
pub struct CollectedRun<C> {
    /// What the contributions of the regions hold
    pub contributions: Seq<C>,
    /// The regions that are computed from their sources
    pub computed: Seq<(i32, i32)>,
    /// What is cached after the run
    pub cache: Map<(i32, i32), CachedRegion<C>>,
}

/// A run over regions at the time `now`, where the cache can be read and written
pub open spec fn collected_run<T: Mergeable>(
    sources: Seq<SourceRegion<T::Contents>>,
    cache: Map<(i32, i32), CachedRegion<T::Contents>>,
    since: Option<Timestamp>,
    now: Timestamp,
) -> CollectedRun<T::Contents>
    decreases sources.len(),
{
    if sources.len() == 0 {
        CollectedRun { contributions: Seq::empty(), computed: Seq::empty(), cache }
    } else {
        let before = collected_run::<T>(sources.drop_last(), cache, since, now);
        let source = sources.last();
        let cached = cached_in(before.cache, source.coords);
        CollectedRun {
            contributions: before.contributions.push(contributed::<T>(source, cached, since)),
            computed: if is_computed(source, cached, since) {
                before.computed.push(source.coords)
            } else {
                before.computed
            },
            cache: match cached_after(source, cached, since, now) {
                Some(entry) => before.cache.insert(source.coords, entry),
                None => before.cache,
            },
        }
    }
}

/// No two regions have the same coordinates
pub open spec fn distinct_regions<C>(sources: Seq<SourceRegion<C>>) -> bool {
    forall|i: int, j: int|
        0 <= i < j < sources.len() ==> (#[trigger] sources[i]).coords != (
        #[trigger] sources[j]).coords
}

/// No region of a list has the given coordinates
pub open spec fn without_region<C>(sources: Seq<SourceRegion<C>>, coords: (i32, i32)) -> bool {
    forall|i: int| 0 <= i < sources.len() ==> (#[trigger] sources[i]).coords != coords
}

proof fn distinct_split<C>(sources: Seq<SourceRegion<C>>)
    requires
        distinct_regions(sources),
        sources.len() > 0,
    ensures
        distinct_regions(sources.drop_last()),
        without_region(sources.drop_last(), sources.last().coords),
{
    let rest = sources.drop_last();
    assert forall|i: int, j: int| 0 <= i < j < rest.len() implies (#[trigger] rest[i]).coords != (
    #[trigger] rest[j]).coords by {
        assert(sources[i].coords != sources[j].coords);
    }
    assert forall|i: int| 0 <= i < rest.len() implies (#[trigger] rest[i]).coords
        != sources.last().coords by {
        assert(sources[i].coords != sources[sources.len() - 1].coords);
    }
}

/// A run leaves the cached contributions of other regions as they are
pub proof fn other_regions_kept<T: Mergeable>(
    sources: Seq<SourceRegion<T::Contents>>,
    cache: Map<(i32, i32), CachedRegion<T::Contents>>,
    since: Option<Timestamp>,
    now: Timestamp,
    coords: (i32, i32),
)
    requires
        without_region(sources, coords),
    ensures
        cached_in(collected_run::<T>(sources, cache, since, now).cache, coords) == cached_in(
            cache,
            coords,
        ),
    decreases sources.len(),
{
    if sources.len() > 0 {
        let rest = sources.drop_last();
        assert forall|i: int| 0 <= i < rest.len() implies (#[trigger] rest[i]).coords != coords by {
            assert(sources[i].coords != coords);
        }
        other_regions_kept::<T>(rest, cache, since, now, coords);
        assert(sources[sources.len() - 1].coords != coords);
    }
}

/// In a run over different regions, each of them is handled on its own
pub proof fn region_on_its_own<T: Mergeable>(
    sources: Seq<SourceRegion<T::Contents>>,
    cache: Map<(i32, i32), CachedRegion<T::Contents>>,
    since: Option<Timestamp>,
    now: Timestamp,
    i: int,
)
    requires
        distinct_regions(sources),
        0 <= i < sources.len(),
    ensures
        ({
            let run = collected_run::<T>(sources, cache, since, now);
            let cached = cached_in(cache, sources[i].coords);
            &&& run.contributions.len() == sources.len()
            &&& run.contributions[i] == contributed::<T>(sources[i], cached, since)
            &&& cached_in(run.cache, sources[i].coords) == cached_after(
                sources[i],
                cached,
                since,
                now,
            )
        }),
    decreases sources.len(),
{
    let rest = sources.drop_last();
    distinct_split(sources);
    contribution_count::<T>(rest, cache, since, now);
    other_regions_kept::<T>(rest, cache, since, now, sources.last().coords);
    if i < rest.len() {
        region_on_its_own::<T>(rest, cache, since, now, i);
        assert(rest[i].coords != sources.last().coords);
    }
}

proof fn contribution_count<T: Mergeable>(
    sources: Seq<SourceRegion<T::Contents>>,
    cache: Map<(i32, i32), CachedRegion<T::Contents>>,
    since: Option<Timestamp>,
    now: Timestamp,
)
    ensures
        collected_run::<T>(sources, cache, since, now).contributions.len() == sources.len(),
    decreases sources.len(),
{
    if sources.len() > 0 {
        contribution_count::<T>(sources.drop_last(), cache, since, now);
    }
}

/// Without cached contributions, a run computes each region exactly once, in their order, and
/// gives what was computed
pub proof fn first_run_computes_all<T: Mergeable>(
    sources: Seq<SourceRegion<T::Contents>>,
    since: Option<Timestamp>,
    now: Timestamp,
)
    requires
        distinct_regions(sources),
    ensures
        ({
            let run = collected_run::<T>(sources, Map::empty(), since, now);
            &&& run.computed == sources.map_values(|s: SourceRegion<T::Contents>| s.coords)
            &&& run.contributions == sources.map_values(
                |s: SourceRegion<T::Contents>|
                    match s.computed {
                        Some(contents) => contents,
                        None => T::nothing(),
                    },
            )
        }),
    decreases sources.len(),
{
    let cache = Map::<(i32, i32), CachedRegion<T::Contents>>::empty();
    let run = collected_run::<T>(sources, cache, since, now);
    let coords = sources.map_values(|s: SourceRegion<T::Contents>| s.coords);
    if sources.len() > 0 {
        let rest = sources.drop_last();
        distinct_split(sources);
        first_run_computes_all::<T>(rest, since, now);
        other_regions_kept::<T>(rest, cache, since, now, sources.last().coords);
        assert(rest.map_values(|s: SourceRegion<T::Contents>| s.coords) =~= coords.drop_last());
    }
    assert(run.computed =~= coords);
    contribution_count::<T>(sources, cache, since, now);
    let f = |s: SourceRegion<T::Contents>|
        match s.computed {
            Some(contents) => contents,
            None => T::nothing(),
        };
    assert forall|i: int| 0 <= i < sources.len() implies #[trigger] run.contributions[i] == f(
        sources[i],
    ) by {
        region_on_its_own::<T>(sources, cache, since, now, i);
    }
    assert(run.contributions =~= sources.map_values(f));
}

proof fn loaded_afterwards<T: Mergeable>(
    source: SourceRegion<T::Contents>,
    cached: Option<CachedRegion<T::Contents>>,
    now: Timestamp,
)
    requires
        source.computed is Some,
    ensures
        ({
            let after = cached_after(source, cached, None, now);
            &&& times_of(source, after, None).first_step() == RegionStep::LoadCache
            &&& contributed::<T>(source, after, None) == contributed::<T>(source, cached, None)
        }),
{
}

/// A second run finds everything in the cache
///
/// Where all regions can be computed and nothing is touched between two runs without `--since`,
/// the second run starts by loading the cached contribution of each region. It computes none
/// of them, gives the same contributions as the first run and leaves the cache as it is. This
/// holds whatever was cached before the first run.
pub proof fn second_run_computes_none<T: Mergeable>(
    sources: Seq<SourceRegion<T::Contents>>,
    cache: Map<(i32, i32), CachedRegion<T::Contents>>,
    now: Timestamp,
    afterwards: Timestamp,
)
    requires
        distinct_regions(sources),
        forall|i: int| 0 <= i < sources.len() ==> (#[trigger] sources[i]).computed is Some,
    ensures
        ({
            let first = collected_run::<T>(sources, cache, None, now);
            let second = collected_run::<T>(sources, first.cache, None, afterwards);
            &&& forall|i: int|
                0 <= i < sources.len() ==> times_of(
                    #[trigger] sources[i],
                    cached_in(first.cache, sources[i].coords),
                    None,
                ).first_step() == RegionStep::LoadCache
            &&& second.computed == Seq::<(i32, i32)>::empty()
            &&& second.contributions == first.contributions
            &&& second.cache == first.cache
        }),
{
    let first = collected_run::<T>(sources, cache, None, now);
    let second = collected_run::<T>(sources, first.cache, None, afterwards);
    contribution_count::<T>(sources, cache, None, now);
    contribution_count::<T>(sources, first.cache, None, afterwards);
    assert forall|i: int| 0 <= i < sources.len() implies times_of(
        #[trigger] sources[i],
        cached_in(first.cache, sources[i].coords),
        None,
    ).first_step() == RegionStep::LoadCache && second.contributions[i]
        == first.contributions[i] by {
        assert(sources[i].computed is Some);
        region_on_its_own::<T>(sources, cache, None, now, i);
        region_on_its_own::<T>(sources, first.cache, None, afterwards, i);
        loaded_afterwards::<T>(sources[i], cached_in(cache, sources[i].coords), now);
    }
    assert(second.contributions =~= first.contributions) by {
        assert forall|i: int| 0 <= i < sources.len() implies second.contributions[i]
            == first.contributions[i] by {
            assert(sources[i].computed is Some);
        }
    }
    all_loaded::<T>(sources, first.cache, afterwards);
}

proof fn all_loaded<T: Mergeable>(
    sources: Seq<SourceRegion<T::Contents>>,
    cache: Map<(i32, i32), CachedRegion<T::Contents>>,
    now: Timestamp,
)
    requires
        forall|i: int|
            0 <= i < sources.len() ==> times_of(
                #[trigger] sources[i],
                cached_in(cache, sources[i].coords),
                None,
            ).first_step() == RegionStep::LoadCache,
    ensures
        collected_run::<T>(sources, cache, None, now).computed == Seq::<(i32, i32)>::empty(),
        collected_run::<T>(sources, cache, None, now).cache == cache,
    decreases sources.len(),
{
    if sources.len() > 0 {
        let rest = sources.drop_last();
        assert forall|i: int| 0 <= i < rest.len() implies times_of(
            #[trigger] rest[i],
            cached_in(cache, rest[i].coords),
            None,
        ).first_step() == RegionStep::LoadCache by {
            assert(rest[i] == sources[i]);
        }
        all_loaded::<T>(rest, cache, now);
        let source = sources[sources.len() - 1];
        assert(times_of(source, cached_in(cache, source.coords), None).first_step()
            == RegionStep::LoadCache);
        assert(cache.insert(source.coords, cache[source.coords]) =~= cache);
    }
}

/// Sources stand for the region files of a directory, one by one
pub open spec fn found_in<C>(
    sources: Seq<SourceRegion<C>>,
    dir: Seq<char>,
    entries: Seq<DirEntry>,
) -> bool {
    &&& sources.len() == regions_in(dir, entries).len()
    &&& forall|i: int|
        0 <= i < sources.len() ==> (#[trigger] sources[i]).coords == regions_in(dir, entries)[i].0
}

/// The contributions of a directory's regions are computed once
///
/// With an empty cache, the first run computes exactly the region files of the directory. A
/// second run computes nothing and gives the same contributions.
pub proof fn directory_collected_twice<T: Mergeable>(
    dir: Seq<char>,
    entries: Seq<DirEntry>,
    sources: Seq<SourceRegion<T::Contents>>,
    now: Timestamp,
    afterwards: Timestamp,
)
    requires
        found_in(sources, dir, entries),
        distinct_regions(sources),
        forall|i: int| 0 <= i < sources.len() ==> (#[trigger] sources[i]).computed is Some,
    ensures
        ({
            let first = collected_run::<T>(sources, Map::empty(), None, now);
            let second = collected_run::<T>(sources, first.cache, None, afterwards);
            &&& first.computed == regions_in(dir, entries).map_values(
                |r: ((i32, i32), Seq<char>)| r.0,
            )
            &&& first.contributions == sources.map_values(
                |s: SourceRegion<T::Contents>| s.computed->0,
            )
            &&& second.computed == Seq::<(i32, i32)>::empty()
            &&& second.contributions == first.contributions
        }),
{
    first_run_computes_all::<T>(sources, None, now);
    second_run_computes_none::<T>(sources, Map::empty(), now, afterwards);
    let first = collected_run::<T>(sources, Map::empty(), None, now);
    assert(first.computed =~= regions_in(dir, entries).map_values(
        |r: ((i32, i32), Seq<char>)| r.0,
    ));
    assert(first.contributions =~= sources.map_values(
        |s: SourceRegion<T::Contents>| s.computed->0,
    ));
}

/// Contributions that hold the same are merged to the same
pub proof fn merged_alike<T: Mergeable>(a: Seq<T>, b: Seq<T>)
    requires
        a.len() == b.len(),
        forall|i: int| 0 <= i < a.len() ==> (#[trigger] a[i]).contents() == b[i].contents(),
    ensures
        all_together(a) == all_together(b),
    decreases a.len(),
{
    if a.len() > 0 {
        assert forall|i: int| 0 <= i < a.drop_last().len() implies (
        #[trigger] a.drop_last()[i]).contents() == b.drop_last()[i].contents() by {
            assert(a[i].contents() == b[i].contents());
        }
        merged_alike(a.drop_last(), b.drop_last());
        assert(a[a.len() - 1].contents() == b[a.len() - 1].contents());
    }
}

/// Returns the path of the cached contribution of a region
pub fn cache_path(cache_dir: &str, coords: (i32, i32)) -> (r: String)
    ensures
        r@ == paths::joined(
            cache_dir@,
            common::filename_of(common::TileCoords { x: coords.0, z: coords.1 }, "bin"@),
        ),
{
    let name = common::coord_filename(common::TileCoords { x: coords.0, z: coords.1 }, "bin");
    paths::join(cache_dir, name.as_str())
}

/// The name of a region file begins with `r.` and ends with `.mca`, with its coordinates in
/// between
#[verifier::spinoff_prover]
pub proof fn region_filename_form(name: Seq<char>, x: Seq<char>, z: Seq<char>)
    ensures
        region_coords(name) is Some ==> text::begins_with(name, "r."@) && text::finishes_with(
            name,
            ".mca"@,
        ),
        !x.contains('.') && !z.contains('.') ==> region_coords("r."@ + x + "."@ + z + ".mca"@) == (
        match (text::parsed_i32(x), text::parsed_i32(z)) {
            (Some(x), Some(z)) => Some((x, z)),
            _ => None,
        }),
{
    reveal_strlit("r.");
    reveal_strlit("r");
    reveal_strlit(".");
    reveal_strlit("mca");
    reveal_strlit(".mca");
    if region_coords(name) is Some {
        let parts = text::split(name, '.');
        text::split_rejoined(name, '.');
        reveal_with_fuel(text::rejoined, 5);
        let three = parts.drop_last();
        let two = three.drop_last();
        assert(two.drop_last() =~= seq!["r"@]);
        assert(name.take(2) =~= "r."@);
        assert(name.skip(name.len() - 4) =~= ".mca"@);
    }
    if !x.contains('.') && !z.contains('.') {
        let full = "r."@ + x + "."@ + z + ".mca"@;
        let tail = z.push('.') + "mca"@;
        let mid = x.push('.') + tail;
        assert(full =~= "r"@.push('.') + mid);
        assert(!"r"@.contains('.') && !"mca"@.contains('.'));
        text::split_joined("r"@, mid, '.');
        text::split_joined(x, tail, '.');
        text::split_joined(z, "mca"@, '.');
        text::split_single("r"@, '.');
        text::split_single(x, '.');
        text::split_single(z, '.');
        text::split_single("mca"@, '.');
        assert(text::split(full, '.') =~= seq!["r"@, x, z, "mca"@]);
    }
}

/// The regions of a directory are its regular files with the name of a region file, in their
/// order
pub proof fn region_files_listed(dir: Seq<char>, entries: Seq<DirEntry>)
    ensures
        regions_in(dir, entries) == entries.filter_map(
            |e: DirEntry|
                match e.name {
                    Some(name) => match region_coords(name@) {
                        Some(coords) => if e.is_file {
                            Some((coords, paths::joined(dir, name@)))
                        } else {
                            None
                        },
                        None => None,
                    },
                    None => None,
                },
        ),
    decreases entries.len(),
{
    if entries.len() > 0 {
        region_files_listed(dir, entries.drop_last());
    }
    reveal_with_fuel(Seq::filter_map, 2);
}

/// Merging is done part by part, from the first to the last
pub proof fn merged_in_order<T: Mergeable>(parts: Seq<T>)
    ensures
        all_together(parts) == parts.fold_left(
            T::nothing(),
            |c: T::Contents, part: T| T::together(c, part.contents()),
        ),
    decreases parts.len(),
{
    reveal_with_fuel(Seq::fold_left, 2);
    if parts.len() > 0 {
        merged_in_order(parts.drop_last());
    }
}

/// A region whose source has changed since its contribution was cached is recomputed; with
/// `--since`, one that has changed since the given time, or whose time of change is unknown
pub proof fn changed_region_recomputed(
    source_mtime: Timestamp,
    cache_timestamp: Timestamp,
    since: Timestamp,
)
    ensures
        source_mtime > cache_timestamp ==> recomputed(
            Some(source_mtime),
            Some(cache_timestamp),
            None,
        ),
        source_mtime > since ==> recomputed(
            Some(source_mtime),
            Some(cache_timestamp),
            Some(since),
        ),
        recomputed(None, Some(cache_timestamp), Some(since)),
        !recomputed(None, Some(cache_timestamp), None),
{
}

} // verus!
