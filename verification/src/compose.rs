//! The composition of one asset: a transparent canvas of the size of the
//! base image, the layers of the asset stacked onto it, and the base image
//! drawn on top.

use crate::diagnostics::{Diagnostic, DiagnosticView, DiagnosticsLogView};
use crate::layers::{
    is_sentinel, is_sentinel_spec, is_unresolved, layer_entries, layer_path, layer_tint,
    lemma_layers_draw_in_order, lemma_missing_layer_is_isolated, lemma_stacking_keeps_size,
    loaded_views, prepared_layer,
    resolve_layer, stack_layers, stacked, unresolved_paths, LayerEntry, LayerImage, LayerView,
};
use crate::paths::{file_name, final_component, force_png_path, join_path, joined, png_path};
use crate::raster::{Raster, RgbaImage};
use crate::tint::TintMode;
use vstd::multiset::Multiset;
use vstd::prelude::*;

verus! {

/// One asset to compose: the category it belongs to, its name, the layers
/// to stack under it and the folder that holds them.
#[derive(Debug, Clone, PartialEq, Eq)]
pub struct AssetTask {
    pub element_type: String,
    pub asset_id: String,
    pub layer_specs: Vec<String>,
    pub layer_folder: Option<String>,
}

/// An asset task as the contracts see it.
pub struct AssetTaskView {
    pub element_type: Seq<char>,
    pub asset_id: Seq<char>,
    pub layer_specs: Seq<Seq<char>>,
    pub layer_folder: Option<Seq<char>>,
}

impl View for AssetTask {
    type V = AssetTaskView;

    open spec fn view(&self) -> AssetTaskView {
        AssetTaskView {
            element_type: self.element_type@,
            asset_id: self.asset_id@,
            layer_specs: self.layer_specs.deep_view(),
            layer_folder: match self.layer_folder {
                Some(folder) => Some(folder@),
                None => None,
            },
        }
    }
}

impl AssetTaskView {
    /// Layers are stacked only from a folder that is named: a task without
    /// a layer folder, or with an empty one, composes the base image alone.
    pub open spec fn stacks_layers(self) -> bool {
        self.layer_folder matches Some(folder) && folder.len() > 0
    }

    /// The folder to take layers from; empty where none are stacked.
    pub open spec fn folder(self) -> Seq<char> {
        match self.layer_folder {
            Some(folder) => folder,
            None => Seq::empty(),
        }
    }

    /// The entries of the layer stack, with the images that were loaded;
    /// none where no layers are stacked.
    pub open spec fn entries(self, loaded: Seq<Option<LayerView>>) -> Seq<LayerEntry> {
        if self.stacks_layers() {
            layer_entries(self.layer_specs, loaded)
        } else {
            Seq::empty()
        }
    }
}

/// A finished image and the file it is to be saved to.
#[derive(Debug, PartialEq, Eq)]
pub struct Composition {
    pub output_path: String,
    pub image: RgbaImage,
}

/// What composing one asset gave: the image to save, unless the asset was
/// skipped, and the diagnostic to record, if there is one.
#[derive(Debug, PartialEq, Eq)]
pub struct AssetOutcome {
    pub composition: Option<Composition>,
    pub diagnostic: Option<Diagnostic>,
}

/// An outcome as the contracts see it.
pub struct AssetOutcomeView {
    pub composition: Option<(Seq<char>, Raster)>,
    pub diagnostic: Option<DiagnosticView>,
}

impl View for AssetOutcome {
    type V = AssetOutcomeView;

    open spec fn view(&self) -> AssetOutcomeView {
        AssetOutcomeView {
            composition: match self.composition {
                Some(c) => Some((c.output_path@, c.image@)),
                None => None,
            },
            diagnostic: match self.diagnostic {
                Some(d) => Some(d@),
                None => None,
            },
        }
    }
}

/// The name of the output folder of a category: the final component of
/// its key, or `Unknown` where the key has none.
pub open spec fn category_folder(element_type: Seq<char>) -> Seq<char> {
    match final_component(element_type) {
        Some(name) => name,
        None => seq!['U', 'n', 'k', 'n', 'o', 'w', 'n'],
    }
}

/// The file that the base image of an asset is read from:
/// `source_folder/element_type/asset_id.png`.
pub open spec fn source_image_path(
    source_folder: Seq<char>,
    element_type: Seq<char>,
    asset_id: Seq<char>,
) -> Seq<char> {
    png_path(joined(source_folder, element_type), asset_id)
}

/// The file that the finished image of an asset is saved to:
/// `output_folder/<folder of the category>/asset_id.png`.
pub open spec fn output_image_path(
    output_folder: Seq<char>,
    element_type: Seq<char>,
    asset_id: Seq<char>,
) -> Seq<char> {
    png_path(joined(output_folder, category_folder(element_type)), asset_id)
}

/// The finished image of a task: on a transparent canvas of the size of
/// the base image, the layers in their order, and the base image over
/// them.
pub open spec fn composed_image(
    task: AssetTaskView,
    base: Raster,
    loaded: Seq<Option<LayerView>>,
    mode: TintMode,
) -> Raster {
    stacked(Raster::transparent(base.width, base.height), task.entries(loaded), mode).drawn_over_by(
        base,
    )
}

/// What composing a task gives.
///
/// Without a base image the asset is skipped: nothing is composed and the
/// asset is reported. With one, the finished image is to be saved, and the
/// layer files that could not be loaded are reported together, under the
/// asset, where there are any.
pub open spec fn outcome_of(
    task: AssetTaskView,
    output_folder: Seq<char>,
    base: Option<Raster>,
    loaded: Seq<Option<LayerView>>,
    mode: TintMode,
) -> AssetOutcomeView {
    match base {
        None => AssetOutcomeView {
            composition: None,
            diagnostic: Some(DiagnosticView::Skipped { asset_id: task.asset_id }),
        },
        Some(image) => {
            let missing = unresolved_paths(task.folder(), task.entries(loaded));
            AssetOutcomeView {
                composition: Some(
                    (
                        output_image_path(output_folder, task.element_type, task.asset_id),
                        composed_image(task, image, loaded, mode),
                    ),
                ),
                diagnostic: if missing.len() > 0 {
                    Some(DiagnosticView::MissingLayers { asset_id: task.asset_id, paths: missing })
                } else {
                    None
                },
            }
        },
    }
}

/// The file to read the base image of an asset from.
pub fn source_path(source_folder: &str, element_type: &str, asset_id: &str) -> (path: String)
    ensures
        path@ == source_image_path(source_folder@, element_type@, asset_id@),
{
    let folder = join_path(source_folder, element_type);
    force_png_path(folder.as_str(), asset_id)
}

/// The file to save the finished image of an asset to.
pub fn output_path(output_folder: &str, element_type: &str, asset_id: &str) -> (path: String)
    ensures
        path@ == output_image_path(output_folder@, element_type@, asset_id@),
{
    let folder = match file_name(element_type) {
        Some(name) => join_path(output_folder, name),
        None => {
            proof {
                reveal_strlit("Unknown");
            }
            join_path(output_folder, "Unknown")
        },
    };
    force_png_path(folder.as_str(), asset_id)
}

/// The layer files to load for a task: for each layer specification, in
/// order, the file to open, or `None` where there is nothing to open,
/// because the specification is a sentinel or the task stacks no layers.
pub fn layer_requests(task: &AssetTask) -> (requests: Vec<Option<String>>)
    ensures
        requests@.len() == task@.layer_specs.len(),
        forall|i: int|
            0 <= i < requests@.len() ==> match #[trigger] requests@[i] {
                Some(path) => task@.stacks_layers() && !is_sentinel(task@.layer_specs[i])
                    && path@ == layer_path(task@.folder(), task@.layer_specs[i]),
                None => !task@.stacks_layers() || is_sentinel(task@.layer_specs[i]),
            },
{
    let mut requests: Vec<Option<String>> = Vec::new();
    let folder: Option<&str> = match &task.layer_folder {
        Some(folder) => if folder.as_str().unicode_len() > 0 {
            Some(folder.as_str())
        } else {
            None
        },
        None => None,
    };
    let mut i: usize = 0;
    while i < task.layer_specs.len()
        invariant
            i <= task.layer_specs.len(),
            requests@.len() == i,
            match folder {
                Some(f) => task@.stacks_layers() && f@ == task@.folder(),
                None => !task@.stacks_layers(),
            },
            forall|k: int|
                0 <= k < i ==> match #[trigger] requests@[k] {
                    Some(path) => task@.stacks_layers() && !is_sentinel(task@.layer_specs[k])
                        && path@ == layer_path(task@.folder(), task@.layer_specs[k]),
                    None => !task@.stacks_layers() || is_sentinel(task@.layer_specs[k]),
                },
        decreases task.layer_specs.len() - i,
    {
        let spec = task.layer_specs[i].as_str();
        let request = match folder {
            Some(f) => if is_sentinel_spec(spec) {
                None
            } else {
                Some(resolve_layer(spec, f).path)
            },
            None => None,
        };
        requests.push(request);
        i += 1;
    }
    requests
}

/// Composes one asset from its base image and the layer images that were
/// loaded for it.
///
/// `base` is the image that was opened at the source path of the asset,
/// or `None` where that failed. `loaded` holds, at the place of each layer
/// specification, the layer opened from the file that `layer_requests`
/// names for it, or `None`.
pub fn compose_asset(
    task: &AssetTask,
    output_folder: &str,
    base: Option<&RgbaImage>,
    loaded: &Vec<Option<LayerImage>>,
    mode: TintMode,
) -> (outcome: AssetOutcome)
    ensures
        outcome@ == outcome_of(
            task@,
            output_folder@,
            match base {
                Some(image) => Some(image@),
                None => None,
            },
            loaded_views(loaded@),
            mode,
        ),
{
    let image = match base {
        Some(image) => image,
        None => {
            return AssetOutcome {
                composition: None,
                diagnostic: Some(Diagnostic::Skipped { asset_id: task.asset_id.clone() }),
            };
        },
    };
    let mut canvas = image.blank_like();
    let folder: Option<&str> = match &task.layer_folder {
        Some(folder) => if folder.as_str().unicode_len() > 0 {
            Some(folder.as_str())
        } else {
            None
        },
        None => None,
    };
    let missing = match folder {
        Some(f) => stack_layers(&mut canvas, f, &task.layer_specs, loaded, mode),
        None => Vec::new(),
    };
    canvas.overlay(image);
    let path = output_path(output_folder, task.element_type.as_str(), task.asset_id.as_str());
    let diagnostic = if missing.len() > 0 {
        Some(Diagnostic::MissingLayers { asset_id: task.asset_id.clone(), paths: missing })
    } else {
        None
    };
    AssetOutcome {
        composition: Some(Composition { output_path: path, image: canvas }),
        diagnostic,
    }
}

/// The finished image has the size of the base image, whatever the sizes
/// of the layers.
pub proof fn lemma_composition_has_base_size(
    task: AssetTaskView,
    base: Raster,
    loaded: Seq<Option<LayerView>>,
    mode: TintMode,
)
    ensures
        composed_image(task, base, loaded, mode).width == base.width,
        composed_image(task, base, loaded, mode).height == base.height,
{
    lemma_stacking_keeps_size(
        Raster::transparent(base.width, base.height),
        task.entries(loaded),
        mode,
    );
}

/// Composition follows the order of the layers: with two layers that were
/// loaded, the finished image is the transparent canvas drawn over by the
/// first layer, then by the second, then by the base image.
pub proof fn lemma_composition_order(
    task: AssetTaskView,
    base: Raster,
    loaded: Seq<Option<LayerView>>,
    first: LayerEntry,
    second: LayerEntry,
    mode: TintMode,
)
    requires
        task.entries(loaded) == seq![first, second],
        !is_sentinel(first.spec),
        !is_sentinel(second.spec),
        first.image is Some,
        second.image is Some,
    ensures
        composed_image(task, base, loaded, mode) == Raster::transparent(
            base.width,
            base.height,
        ).drawn_over_by(
            prepared_layer(first.image->Some_0, layer_tint(first.spec), mode),
        ).drawn_over_by(
            prepared_layer(second.image->Some_0, layer_tint(second.spec), mode),
        ).drawn_over_by(base),
{
    lemma_layers_draw_in_order(Raster::transparent(base.width, base.height), first, second, mode);
}

/// One missing layer does not spoil the asset: where a single layer of a
/// task could not be loaded, the asset is still composed, from the other
/// layers in their order and the base image, and the diagnostic names the
/// asset and that one file.
pub proof fn lemma_missing_layer_outcome(
    task: AssetTaskView,
    output_folder: Seq<char>,
    base: Raster,
    loaded: Seq<Option<LayerView>>,
    before: Seq<LayerEntry>,
    missing: LayerEntry,
    after: Seq<LayerEntry>,
    mode: TintMode,
)
    requires
        task.entries(loaded) == before + seq![missing] + after,
        is_unresolved(missing),
        unresolved_paths(task.folder(), before).len() == 0,
        unresolved_paths(task.folder(), after).len() == 0,
    ensures
        outcome_of(task, output_folder, Some(base), loaded, mode).composition == Some(
            (
                output_image_path(output_folder, task.element_type, task.asset_id),
                stacked(
                    Raster::transparent(base.width, base.height),
                    before + after,
                    mode,
                ).drawn_over_by(base),
            ),
        ),
        outcome_of(task, output_folder, Some(base), loaded, mode).diagnostic == Some(
            DiagnosticView::MissingLayers {
                asset_id: task.asset_id,
                paths: seq![layer_path(task.folder(), missing.spec)],
            },
        ),
{
    lemma_missing_layer_is_isolated(
        Raster::transparent(base.width, base.height),
        task.folder(),
        before,
        missing,
        after,
        mode,
    );
}

/// A missing base image stops the task before anything else: whatever the
/// layers and whatever was loaded for them, nothing is composed, nothing
/// is reported about layers, and a log that was empty holds exactly the
/// asset, as skipped, once the outcome is recorded.
pub proof fn lemma_missing_base_skips_asset(
    task: AssetTaskView,
    output_folder: Seq<char>,
    loaded: Seq<Option<LayerView>>,
    mode: TintMode,
)
    ensures
        outcome_of(task, output_folder, None, loaded, mode).composition is None,
        outcome_of(task, output_folder, None, loaded, mode).diagnostic == Some(
            DiagnosticView::Skipped { asset_id: task.asset_id },
        ),
        DiagnosticsLogView::empty().recorded(
            outcome_of(task, output_folder, None, loaded, mode).diagnostic->Some_0,
        ) == (DiagnosticsLogView {
            skipped_assets: Multiset::singleton(task.asset_id),
            missing_layers: Multiset::empty(),
        }),
{
    assert(Multiset::<Seq<char>>::empty().insert(task.asset_id) =~= Multiset::singleton(
        task.asset_id,
    ));
}

} // verus!
