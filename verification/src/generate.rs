//! The steps of map generation

use crate::common::{Config, Edition};
use crate::overlay::{Dimension, OverlayData};
use crate::paths;
use crate::text;
use vstd::prelude::*;
use vstd::string::*;

verus! {

/// A step of the generation of a Java Edition map
#[derive(Debug, PartialEq, Eq)]
pub enum JavaStep {
    /// Process the region files of a dimension
    ProcessRegions(Dimension),
    /// Render the tiles of a dimension
    RenderTiles(Dimension),
    /// Generate the mipmaps of a dimension
    GenerateMipmaps(Dimension),
    /// Collect the signs of a dimension
    CollectEntities(Dimension),
    /// Take over the overlay data of a dimension
    RouteOverlays(Dimension),
    /// Collect the points of interest of a dimension
    CollectPois(Dimension),
    /// Collect the mobs of a dimension
    CollectMobs(Dimension),
    /// Write the viewer metadata
    WriteMetadata,
    /// Write the structures for the viewer
    WriteStructures(String),
    /// Write the points of interest for the viewer
    WritePois(String),
    /// Write the mobs for the viewer
    WriteMobs(String),
    /// Write the overlay data to all configured directories
    WriteOverlays,
    /// Print the paths of the overlay data files in a directory
    PrintOverlayFiles(String),
    /// Write the structures to a file and print its path
    EmitStructures(String),
    /// Write the points of interest to a file and print its path
    EmitPois(String),
    /// Write the mobs to a file and print its path
    EmitMobs(String),
    /// Create a directory for player data
    CreatePlayerDir(String),
    /// Write the players to a file and print its path
    EmitPlayers(String),
}

/// What a [JavaStep] means
pub enum JavaStepView {
    ProcessRegions(Dimension),
    RenderTiles(Dimension),
    GenerateMipmaps(Dimension),
    CollectEntities(Dimension),
    RouteOverlays(Dimension),
    CollectPois(Dimension),
    CollectMobs(Dimension),
    WriteMetadata,
    WriteStructures(Seq<char>),
    WritePois(Seq<char>),
    WriteMobs(Seq<char>),
    WriteOverlays,
    PrintOverlayFiles(Seq<char>),
    EmitStructures(Seq<char>),
    EmitPois(Seq<char>),
    EmitMobs(Seq<char>),
    CreatePlayerDir(Seq<char>),
    EmitPlayers(Seq<char>),
}

impl View for JavaStep {
    type V = JavaStepView;

    open spec fn view(&self) -> JavaStepView {
        match self {
            JavaStep::ProcessRegions(d) => JavaStepView::ProcessRegions(*d),
            JavaStep::RenderTiles(d) => JavaStepView::RenderTiles(*d),
            JavaStep::GenerateMipmaps(d) => JavaStepView::GenerateMipmaps(*d),
            JavaStep::CollectEntities(d) => JavaStepView::CollectEntities(*d),
            JavaStep::RouteOverlays(d) => JavaStepView::RouteOverlays(*d),
            JavaStep::CollectPois(d) => JavaStepView::CollectPois(*d),
            JavaStep::CollectMobs(d) => JavaStepView::CollectMobs(*d),
            JavaStep::WriteMetadata => JavaStepView::WriteMetadata,
            JavaStep::WriteStructures(p) => JavaStepView::WriteStructures(p@),
            JavaStep::WritePois(p) => JavaStepView::WritePois(p@),
            JavaStep::WriteMobs(p) => JavaStepView::WriteMobs(p@),
            JavaStep::WriteOverlays => JavaStepView::WriteOverlays,
            JavaStep::PrintOverlayFiles(p) => JavaStepView::PrintOverlayFiles(p@),
            JavaStep::EmitStructures(p) => JavaStepView::EmitStructures(p@),
            JavaStep::EmitPois(p) => JavaStepView::EmitPois(p@),
            JavaStep::EmitMobs(p) => JavaStepView::EmitMobs(p@),
            JavaStep::CreatePlayerDir(p) => JavaStepView::CreatePlayerDir(p@),
            JavaStep::EmitPlayers(p) => JavaStepView::EmitPlayers(p@),
        }
    }
}

/// What steps mean
pub open spec fn steps_view(steps: Seq<JavaStep>) -> Seq<JavaStepView> {
    steps.map_values(|s: JavaStep| s@)
}

/// A list with one item, or without any
pub open spec fn when<T>(condition: bool, item: T) -> Seq<T> {
    if condition {
        seq![item]
    } else {
        Seq::empty()
    }
}

/// The steps of a dimension
pub open spec fn dimension_steps(config: Config, dimension: Dimension) -> Seq<JavaStepView> {
    let pois = config.poi_markers || config.emit_overlays is Some;
    let mobs = config.mob_markers || config.emit_overlays is Some;
    seq![
        JavaStepView::ProcessRegions(dimension),
        JavaStepView::RenderTiles(dimension),
        JavaStepView::GenerateMipmaps(dimension),
        JavaStepView::CollectEntities(dimension),
        JavaStepView::RouteOverlays(dimension),
    ] + when(pois, JavaStepView::CollectPois(dimension)) + when(
        mobs,
        JavaStepView::CollectMobs(dimension),
    )
}

/// The steps of all dimensions
pub open spec fn all_dimension_steps(config: Config, dimensions: Seq<(Dimension, String)>) -> Seq<
    JavaStepView,
>
    decreases dimensions.len(),
{
    if dimensions.len() == 0 {
        Seq::empty()
    } else {
        all_dimension_steps(config, dimensions.drop_last()) + dimension_steps(
            config,
            dimensions.last().0,
        )
    }
}

/// The steps that write viewer files, which are written only when their layers are enabled
pub open spec fn viewer_steps(config: Config) -> Seq<JavaStepView> {
    when(config.structures, JavaStepView::WriteStructures(config.viewer_structures_path@)) + when(
        config.poi_markers,
        JavaStepView::WritePois(config.viewer_pois_path@),
    ) + when(config.mob_markers, JavaStepView::WriteMobs(config.viewer_mobs_path@))
}

/// The steps that write derived data for downstream tools
pub open spec fn emit_steps(config: Config) -> Seq<JavaStepView> {
    let overlays = match config.emit_overlays {
        Some(dir) => seq![
            JavaStepView::PrintOverlayFiles(dir@),
            JavaStepView::EmitStructures(paths::joined(dir@, "structures.json"@)),
            JavaStepView::EmitPois(paths::joined(dir@, "pois.json"@)),
            JavaStepView::EmitMobs(paths::joined(dir@, "mobs.json"@)),
        ],
        None => Seq::empty(),
    };
    let players = match config.emit_player_data {
        Some(dir) => seq![
            JavaStepView::CreatePlayerDir(dir@),
            JavaStepView::EmitPlayers(paths::joined(dir@, "players.json"@)),
        ],
        None => Seq::empty(),
    };
    overlays + players
}

/// All steps of the generation of a Java Edition map
pub open spec fn java_steps(config: Config, dimensions: Seq<(Dimension, String)>) -> Seq<
    JavaStepView,
> {
    all_dimension_steps(config, dimensions) + seq![JavaStepView::WriteMetadata] + viewer_steps(
        config,
    ) + seq![JavaStepView::WriteOverlays] + emit_steps(config)
}

/// Appends the steps of a dimension
fn push_dimension_steps(steps: &mut Vec<JavaStep>, config: &Config, dimension: Dimension)
    ensures
        steps_view(final(steps)@) == steps_view(old(steps)@) + dimension_steps(*config, dimension),
{
    steps.push(JavaStep::ProcessRegions(dimension));
    steps.push(JavaStep::RenderTiles(dimension));
    steps.push(JavaStep::GenerateMipmaps(dimension));
    // Signs are collected per dimension (the metadata writer reads each
    // dimension's processed entity data).
    steps.push(JavaStep::CollectEntities(dimension));
    steps.push(JavaStep::RouteOverlays(dimension));
    if config.collect_pois() {
        steps.push(JavaStep::CollectPois(dimension));
    }
    if config.collect_mobs() {
        steps.push(JavaStep::CollectMobs(dimension));
    }
    assert(steps_view(steps@) =~= steps_view(old(steps)@) + dimension_steps(*config, dimension));
}

/// Appends the steps that write viewer files
fn push_viewer_steps(steps: &mut Vec<JavaStep>, config: &Config)
    ensures
        steps_view(final(steps)@) == steps_view(old(steps)@) + viewer_steps(*config),
{
    if config.structures {
        steps.push(JavaStep::WriteStructures(config.viewer_structures_path.clone()));
    }
    if config.poi_markers {
        steps.push(JavaStep::WritePois(config.viewer_pois_path.clone()));
    }
    if config.mob_markers {
        steps.push(JavaStep::WriteMobs(config.viewer_mobs_path.clone()));
    }
    assert(steps_view(steps@) =~= steps_view(old(steps)@) + viewer_steps(*config));
}

/// Appends the steps that write derived data for downstream tools
fn push_emit_steps(steps: &mut Vec<JavaStep>, config: &Config)
    ensures
        steps_view(final(steps)@) == steps_view(old(steps)@) + emit_steps(*config),
{
    if let Some(dir) = &config.emit_overlays {
        let dir = dir.as_str();
        steps.push(JavaStep::PrintOverlayFiles(dir.to_owned()));
        steps.push(JavaStep::EmitStructures(paths::join(dir, "structures.json")));
        steps.push(JavaStep::EmitPois(paths::join(dir, "pois.json")));
        steps.push(JavaStep::EmitMobs(paths::join(dir, "mobs.json")));
    }
    if let Some(dir) = &config.emit_player_data {
        let dir = dir.as_str();
        steps.push(JavaStep::CreatePlayerDir(dir.to_owned()));
        steps.push(JavaStep::EmitPlayers(paths::join(dir, "players.json")));
    }
    assert(steps_view(steps@) =~= steps_view(old(steps)@) + emit_steps(*config));
}

/// Plans all MinedMap generation steps for a Java Edition world with the given dimensions to
/// render; the first step that fails ends the generation
pub fn generate_java(config: &Config, dimensions: &Vec<(Dimension, String)>) -> (r: Vec<JavaStep>)
    ensures
        steps_view(r@) == java_steps(*config, dimensions@),
{
    let mut steps: Vec<JavaStep> = Vec::new();
    let mut i: usize = 0;
    assert(dimensions@.take(0) =~= Seq::<(Dimension, String)>::empty());
    assert(steps_view(steps@) =~= all_dimension_steps(*config, dimensions@.take(0)));
    while i < dimensions.len()
        invariant
            i <= dimensions.len(),
            steps_view(steps@) == all_dimension_steps(*config, dimensions@.take(i as int)),
        decreases dimensions.len() - i,
    {
        assert(dimensions@.take(i + 1).drop_last() =~= dimensions@.take(i as int));
        push_dimension_steps(&mut steps, config, dimensions[i].0);
        i = i + 1;
    }
    assert(dimensions@.take(i as int) =~= dimensions@);
    let ghost all = steps_view(steps@);
    steps.push(JavaStep::WriteMetadata);
    assert(steps_view(steps@) =~= all + seq![JavaStepView::WriteMetadata]);
    push_viewer_steps(&mut steps, config);
    let ghost viewed = steps_view(steps@);
    steps.push(JavaStep::WriteOverlays);
    assert(steps_view(steps@) =~= viewed + seq![JavaStepView::WriteOverlays]);
    push_emit_steps(&mut steps, config);
    steps
}

/// Nothing is collected or written that was not asked for
pub proof fn only_requested_outputs(
    config: Config,
    dimensions: Seq<(Dimension, String)>,
    step: JavaStepView,
)
    requires
        java_steps(config, dimensions).contains(step),
    ensures
        step is CollectPois ==> config.poi_markers || config.emit_overlays is Some,
        step is CollectMobs ==> config.mob_markers || config.emit_overlays is Some,
        step is WriteStructures ==> config.structures,
        step is WritePois ==> config.poi_markers,
        step is WriteMobs ==> config.mob_markers,
        step is EmitStructures || step is EmitPois || step is EmitMobs || step is PrintOverlayFiles
            ==> config.emit_overlays is Some,
        step is EmitPlayers || step is CreatePlayerDir ==> config.emit_player_data is Some,
{
    let a = all_dimension_steps(config, dimensions);
    let b = a + seq![JavaStepView::WriteMetadata];
    let c = b + viewer_steps(config);
    let d = c + seq![JavaStepView::WriteOverlays];
    let all = java_steps(config, dimensions);
    let i = choose|i: int| 0 <= i < all.len() && all[i] == step;
    if i < a.len() {
        assert(a[i] == step);
        dimension_step_kinds(config, dimensions, i);
    } else if i < b.len() {
        assert(b[i] == JavaStepView::WriteMetadata);
    } else if i < c.len() {
        assert(viewer_steps(config)[i - b.len()] == step);
    } else if i < d.len() {
        assert(d[i] == JavaStepView::WriteOverlays);
    } else {
        assert(emit_steps(config)[i - d.len()] == step);
    }
}

proof fn dimension_step_kinds(config: Config, dimensions: Seq<(Dimension, String)>, i: int)
    requires
        0 <= i < all_dimension_steps(config, dimensions).len(),
    ensures
        ({
            let step = all_dimension_steps(config, dimensions)[i];
            &&& step is CollectPois ==> config.poi_markers || config.emit_overlays is Some
            &&& step is CollectMobs ==> config.mob_markers || config.emit_overlays is Some
            &&& !(step is WriteStructures) && !(step is WritePois) && !(step is WriteMobs)
            &&& !(step is EmitStructures) && !(step is EmitPois) && !(step is EmitMobs)
            &&& !(step is PrintOverlayFiles) && !(step is EmitPlayers)
            &&& !(step is CreatePlayerDir)
        }),
    decreases dimensions.len(),
{
    if dimensions.len() > 0 {
        let before = all_dimension_steps(config, dimensions.drop_last());
        if i < before.len() {
            dimension_step_kinds(config, dimensions.drop_last(), i);
        } else {
            let j = i - before.len();
            let own = dimension_steps(config, dimensions.last().0);
            assert(all_dimension_steps(config, dimensions)[i] == own[j]);
        }
    }
}

/// The number of steps of a dimension
pub open spec fn steps_per_dimension(config: Config) -> int {
    5 + if config.poi_markers || config.emit_overlays is Some {
        1int
    } else {
        0
    } + if config.mob_markers || config.emit_overlays is Some {
        1int
    } else {
        0
    }
}

/// Each dimension is worked on, one after the other and before anything is written
///
/// Its regions are processed, rendered and scaled down, its signs are collected and its overlay
/// data is taken over before the next dimension is processed. Its points of interest and mobs
/// are collected if they are asked for as markers or emitted as overlays.
pub proof fn each_dimension_planned(config: Config, dimensions: Seq<(Dimension, String)>, i: int)
    requires
        0 <= i < dimensions.len(),
    ensures
        ({
            let steps = java_steps(config, dimensions);
            let dimension = dimensions[i].0;
            let n = steps_per_dimension(config);
            let at = n * i;
            let pois = config.poi_markers || config.emit_overlays is Some;
            let mobs = config.mob_markers || config.emit_overlays is Some;
            &&& 0 <= at
            &&& at + n <= n * dimensions.len() < steps.len()
            &&& steps[n * dimensions.len()] == JavaStepView::WriteMetadata
            &&& steps[at] == JavaStepView::ProcessRegions(dimension)
            &&& steps[at + 1] == JavaStepView::RenderTiles(dimension)
            &&& steps[at + 2] == JavaStepView::GenerateMipmaps(dimension)
            &&& steps[at + 3] == JavaStepView::CollectEntities(dimension)
            &&& steps[at + 4] == JavaStepView::RouteOverlays(dimension)
            &&& pois ==> steps[at + 5] == JavaStepView::CollectPois(dimension)
            &&& mobs ==> steps[at + n - 1] == JavaStepView::CollectMobs(dimension)
        }),
{
    dimension_steps_placed(config, dimensions, i);
    let a = all_dimension_steps(config, dimensions);
    let steps = java_steps(config, dimensions);
    let n = steps_per_dimension(config);
    assert(n * i + n <= n * dimensions.len()) by (nonlinear_arith)
        requires
            0 <= i < dimensions.len(),
            0 <= n,
    ;
    assert(0 <= n * i) by (nonlinear_arith)
        requires
            0 <= i,
            0 <= n,
    ;
    assert forall|k: int| 0 <= k < a.len() implies #[trigger] steps[k] == a[k] by {}
    assert(steps[a.len() as int] == JavaStepView::WriteMetadata);
    let own = dimension_steps(config, dimensions[i].0);
    assert forall|k: int| 0 <= k < n implies #[trigger] steps[n * i + k] == own[k] by {
        assert(a[n * i + k] == own[k]);
    }
    assert(steps[n * i + 0] == own[0]);
    assert(steps[n * i + (n - 1)] == own[n - 1]);
}

proof fn dimension_steps_placed(config: Config, dimensions: Seq<(Dimension, String)>, i: int)
    requires
        0 <= i < dimensions.len(),
    ensures
        ({
            let steps = all_dimension_steps(config, dimensions);
            let own = dimension_steps(config, dimensions[i].0);
            let n = steps_per_dimension(config);
            &&& own.len() == n
            &&& steps.len() == n * dimensions.len()
            &&& forall|k: int|
                0 <= k < n ==> 0 <= n * i + k < steps.len() && #[trigger] steps[n * i + k] == own[k]
        }),
    decreases dimensions.len(),
{
    let rest = dimensions.drop_last();
    let n = steps_per_dimension(config);
    let before = all_dimension_steps(config, rest);
    let own = dimension_steps(config, dimensions[i].0);
    assert(own.len() == n);
    if rest.len() > 0 {
        dimension_steps_placed(config, rest, if i < rest.len() { i } else { 0 });
    } else {
        assert(before.len() == 0);
        assert(n * 0 == 0) by (nonlinear_arith);
    }
    assert(before.len() == n * rest.len());
    assert(n * dimensions.len() == n * rest.len() + n) by (nonlinear_arith)
        requires
            dimensions.len() == rest.len() + 1,
    ;
    assert(0 <= n * i && n * i <= n * rest.len()) by (nonlinear_arith)
        requires
            0 <= i <= rest.len(),
            0 <= n,
    ;
    if i < rest.len() {
        assert(n * i + n <= n * rest.len()) by (nonlinear_arith)
            requires
                0 <= i < rest.len(),
                0 <= n,
        ;
    }
    let steps = all_dimension_steps(config, dimensions);
    assert(steps == before + dimension_steps(config, dimensions.last().0));
    assert forall|k: int| 0 <= k < n implies 0 <= n * i + k < steps.len() && #[trigger] steps[n * i
        + k] == own[k] by {
        if i < rest.len() {
            assert(before[n * i + k] == own[k]);
        }
    }
}

/// A step is planned after the work on all dimensions
pub open spec fn planned_late(
    config: Config,
    dimensions: Seq<(Dimension, String)>,
    step: JavaStepView,
) -> bool {
    exists|k: int|
        steps_per_dimension(config) * dimensions.len() < k < java_steps(config, dimensions).len()
            && #[trigger] java_steps(config, dimensions)[k] == step
}

/// Everything that is asked for is written, once the work on all dimensions is done
pub proof fn all_requested_outputs(config: Config, dimensions: Seq<(Dimension, String)>)
    ensures
        config.structures ==> planned_late(
            config,
            dimensions,
            JavaStepView::WriteStructures(config.viewer_structures_path@),
        ),
        config.poi_markers ==> planned_late(
            config,
            dimensions,
            JavaStepView::WritePois(config.viewer_pois_path@),
        ),
        config.mob_markers ==> planned_late(
            config,
            dimensions,
            JavaStepView::WriteMobs(config.viewer_mobs_path@),
        ),
        planned_late(config, dimensions, JavaStepView::WriteOverlays),
        config.emit_overlays matches Some(dir) ==> {
            &&& planned_late(config, dimensions, JavaStepView::PrintOverlayFiles(dir@))
            &&& planned_late(
                config,
                dimensions,
                JavaStepView::EmitStructures(paths::joined(dir@, "structures.json"@)),
            )
            &&& planned_late(
                config,
                dimensions,
                JavaStepView::EmitPois(paths::joined(dir@, "pois.json"@)),
            )
            &&& planned_late(
                config,
                dimensions,
                JavaStepView::EmitMobs(paths::joined(dir@, "mobs.json"@)),
            )
        },
        config.emit_player_data matches Some(dir) ==> {
            &&& planned_late(config, dimensions, JavaStepView::CreatePlayerDir(dir@))
            &&& planned_late(
                config,
                dimensions,
                JavaStepView::EmitPlayers(paths::joined(dir@, "players.json"@)),
            )
        },
{
    let n = steps_per_dimension(config);
    let first = all_dimension_steps(config, dimensions);
    if dimensions.len() > 0 {
        dimension_steps_placed(config, dimensions, 0);
    } else {
        assert(n * 0 == 0) by (nonlinear_arith);
    }
    assert(first.len() == n * dimensions.len());
    let viewed = viewer_steps(config);
    let emitted = emit_steps(config);
    let steps = java_steps(config, dimensions);
    let a = first.len() + 1int;
    let b = a + viewed.len() + 1int;
    assert forall|k: int| 0 <= k < viewed.len() implies planned_late(
        config,
        dimensions,
        #[trigger] viewed[k],
    ) by {
        assert(steps[a + k] == viewed[k]);
    }
    assert(steps[a + viewed.len()] == JavaStepView::WriteOverlays);
    assert forall|k: int| 0 <= k < emitted.len() implies planned_late(
        config,
        dimensions,
        #[trigger] emitted[k],
    ) by {
        assert(steps[b + k] == emitted[k]);
    }
    let s = if config.structures { 1int } else { 0 };
    let p = if config.poi_markers { 1int } else { 0 };
    if config.structures {
        assert(viewed[0] == JavaStepView::WriteStructures(config.viewer_structures_path@));
    }
    if config.poi_markers {
        assert(viewed[s] == JavaStepView::WritePois(config.viewer_pois_path@));
    }
    if config.mob_markers {
        assert(viewed[s + p] == JavaStepView::WriteMobs(config.viewer_mobs_path@));
    }
    let o = if config.emit_overlays is Some { 4int } else { 0 };
    if let Some(dir) = config.emit_overlays {
        assert(emitted[0] == JavaStepView::PrintOverlayFiles(dir@));
        assert(emitted[1] == JavaStepView::EmitStructures(
            paths::joined(dir@, "structures.json"@),
        ));
        assert(emitted[2] == JavaStepView::EmitPois(paths::joined(dir@, "pois.json"@)));
        assert(emitted[3] == JavaStepView::EmitMobs(paths::joined(dir@, "mobs.json"@)));
    }
    if let Some(dir) = config.emit_player_data {
        assert(emitted[o] == JavaStepView::CreatePlayerDir(dir@));
        assert(emitted[o + 1] == JavaStepView::EmitPlayers(
            paths::joined(dir@, "players.json"@),
        ));
    }
}

/// Takes over the overlay data of a dimension
///
/// The region processor accumulates overlay data in the overworld field;
/// it is routed into the dimension that was actually processed.
pub fn route_overlays(combined: &mut OverlayData, dimension: Dimension, overlays: OverlayData)
    ensures
        final(combined).spec_dimension(dimension) == overlays.overworld,
        forall|other: Dimension|
            other != dimension ==> #[trigger] final(combined).spec_dimension(other) == old(
                combined,
            ).spec_dimension(other),
{
    *combined.dimension_mut(dimension) = overlays.overworld;
}

/// The way in which a map is generated
#[derive(Debug, Clone, Copy, PartialEq, Eq, Structural)]
pub enum Generator {
    /// The steps for a Java Edition world
    Java,
    /// Bedrock Edition support is not yet implemented
    Bedrock,
}

/// Determines the way in which the map of an edition is generated
pub fn generate(edition: Edition) -> (r: Generator)
    ensures
        r == (if edition == Edition::Bedrock {
            Generator::Bedrock
        } else {
            Generator::Java
        }),
{
    match edition {
        Edition::Bedrock => Generator::Bedrock,
        Edition::Java | Edition::Auto => Generator::Java,
    }
}

/// What has happened to a watched file
#[derive(Debug, Clone, Copy, PartialEq, Eq, Structural)]
pub enum Change {
    /// Its contents have been modified
    Data,
    /// It has been renamed to a watched name
    RenamedTo,
    /// Anything else
    Other,
}

/// A watched file is one that the map depends on
pub open spec fn watched(path: Seq<char>) -> bool {
    match paths::file_name(path) {
        Some(name) => name == "level.dat"@ || paths::extension(name) == Some("mcu"@),
        None => false,
    }
}

/// Returns whether a watched file is one that the map depends on
fn is_watched(path: &str) -> (r: bool)
    ensures
        r == watched(path@),
{
    match paths::name_of(path) {
        Some(name) => text::same(name, "level.dat") || match paths::extension_of(name) {
            Some(ext) => text::same(ext, "mcu"),
            None => false,
        },
        None => false,
    }
}

/// Determines whether a change of files makes a new generation of the map necessary
pub fn triggers_generation(change: Change, changed: &Vec<String>) -> (r: bool)
    ensures
        r == (change != Change::Other && exists|i: int|
            0 <= i < changed@.len() && watched(#[trigger] changed@[i]@)),
{
    match change {
        Change::Other => return false,
        _ => {},
    }
    let mut i: usize = 0;
    while i < changed.len()
        invariant
            i <= changed.len(),
            change != Change::Other,
            forall|j: int| 0 <= j < i ==> !watched(#[trigger] changed@[j]@),
        decreases changed.len() - i,
    {
        if is_watched(changed[i].as_str()) {
            assert(watched(changed@[i as int]@));
            return true;
        }
        i = i + 1;
    }
    false
}

proof fn unit_watched(stem: Seq<char>)
    requires
        stem.len() > 0,
        !stem.contains('/'),
    ensures
        paths::is_name(stem.push('.') + "mcu"@),
        paths::extension(stem.push('.') + "mcu"@) == Some("mcu"@),
{
    reveal_strlit("mcu");
    let full = stem.push('.') + "mcu"@;
    assert(full.len() == stem.len() + 4);
    assert(!"mcu"@.contains('.'));
    assert forall|i: int| 0 <= i < full.len() implies full[i] != '/' by {
        if i < stem.len() {
            assert(stem.contains(stem[i]));
        }
    }
    paths::extension_found(stem, "mcu"@);
}

/// The map is generated again when the `level.dat` of any directory changes, or a file with the
/// extension `mcu`, and for no other file
#[verifier::spinoff_prover]
pub proof fn watched_files(dir: Seq<char>, name: Seq<char>, stem: Seq<char>)
    ensures
        watched(paths::joined(dir, "level.dat"@)),
        paths::is_name(name) ==> (watched(paths::joined(dir, name)) <==> name == "level.dat"@
            || paths::extension(name) == Some("mcu"@)),
        stem.len() > 0 && !stem.contains('/') ==> watched(
            paths::joined(dir, stem.push('.') + "mcu"@),
        ),
{
    assert(paths::is_name("level.dat"@)) by {
        reveal_strlit("level.dat");
        assert("level.dat"@.len() == 9);
        assert(!"level.dat"@.contains('/'));
    }
    paths::joined_found(dir, "level.dat"@);
    if paths::is_name(name) {
        paths::joined_found(dir, name);
    }
    if stem.len() > 0 && !stem.contains('/') {
        unit_watched(stem);
        paths::joined_found(dir, stem.push('.') + "mcu"@);
    }
}

} // verus!
