//! Layer specifications and the stacking of layers onto a canvas.
//!
//! A layer specification names an overlay image and may end in `#` and a
//! tint color. The empty specification and `none` stand for no layer.

use crate::color::{hex_to_rgb, parsed_hex};
use crate::paths::{force_png_path, png_path};
use crate::raster::{GrayAlphaImage, Raster, RgbaImage};
use crate::text::chars_of;
use crate::tint::{colorize_with, tinted, TintMode};
use vstd::prelude::*;

verus! {

/// The specification that stands for no layer: empty, or `none`.
pub open spec fn is_sentinel(spec: Seq<char>) -> bool {
    spec.len() == 0 || spec == seq!['n', 'o', 'n', 'e']
}

/// `at` is where the first `#` of `spec` stands, or the length of `spec`
/// where it has none.
pub open spec fn is_tint_mark(spec: Seq<char>, at: int) -> bool {
    &&& 0 <= at <= spec.len()
    &&& forall|i: int| 0 <= i < at ==> spec[i] != '#'
    &&& at < spec.len() ==> spec[at] == '#'
}

/// Where the first `#` of `spec` stands, or the length of `spec` where it
/// has none.
pub open spec fn tint_mark(spec: Seq<char>) -> int {
    choose|at: int| is_tint_mark(spec, at)
}

/// Every specification has exactly one tint mark.
pub proof fn lemma_tint_mark(spec: Seq<char>)
    ensures
        is_tint_mark(spec, tint_mark(spec)),
        forall|at: int| is_tint_mark(spec, at) ==> at == tint_mark(spec),
{
    spec.index_of_first_ensures('#');
    match spec.index_of_first('#') {
        Some(index) => {
            assert(is_tint_mark(spec, index));
        },
        None => {
            assert(is_tint_mark(spec, spec.len() as int));
        },
    }
}

/// The name of the layer: what stands before the first `#`.
pub open spec fn base_name(spec: Seq<char>) -> Seq<char> {
    spec.take(tint_mark(spec))
}

/// The text of the tint: what stands after the first `#`, later `#`
/// included, where there is one.
pub open spec fn tint_text(spec: Seq<char>) -> Option<Seq<char>> {
    if tint_mark(spec) < spec.len() {
        Some(spec.skip(tint_mark(spec) + 1))
    } else {
        None
    }
}

/// The tint that a specification asks for and that can be applied: the
/// color that its tint text spells. A text that spells no color asks for
/// nothing.
pub open spec fn layer_tint(spec: Seq<char>) -> Option<(u8, u8, u8)> {
    match tint_text(spec) {
        Some(text) => match parsed_hex(text) {
            Ok(tint) => Some(tint),
            Err(_) => None,
        },
        None => None,
    }
}

/// The file that holds the layer of a specification.
pub open spec fn layer_path(layer_folder: Seq<char>, spec: Seq<char>) -> Seq<char> {
    png_path(layer_folder, base_name(spec))
}

/// Whether a specification stands for no layer.
pub fn is_sentinel_spec(spec: &str) -> (sentinel: bool)
    ensures
        sentinel == is_sentinel(spec@),
{
    let chars = chars_of(spec);
    if chars.len() == 0 {
        true
    } else if chars.len() == 4 {
        let same = chars[0] == 'n' && chars[1] == 'o' && chars[2] == 'n' && chars[3] == 'e';
        assert(same <==> spec@ =~= seq!['n', 'o', 'n', 'e']);
        same
    } else {
        false
    }
}

/// Splits a specification at its first `#` into the name of the layer and
/// the text of its tint.
pub fn split_layer_spec<'a>(spec: &'a str) -> (parts: (&'a str, Option<&'a str>))
    ensures
        parts.0@ == base_name(spec@),
        match parts.1 {
            Some(text) => tint_text(spec@) == Some(text@),
            None => tint_text(spec@) is None,
        },
{
    let chars = chars_of(spec);
    let len = chars.len();
    let mut at: usize = 0;
    while at < len && chars[at] != '#'
        invariant
            at <= len,
            len == chars@.len(),
            forall|i: int| 0 <= i < at ==> chars@[i] != '#',
        decreases len - at,
    {
        at += 1;
    }
    proof {
        lemma_tint_mark(spec@);
    }
    let name = spec.substring_char(0, at);
    if at < len {
        (name, Some(spec.substring_char(at + 1, len)))
    } else {
        (name, None)
    }
}

/// A layer specification resolved against a layer folder.
#[derive(Debug, Clone, PartialEq, Eq)]
pub struct ResolvedLayer {
    /// The file that holds the layer.
    pub path: String,
    /// The color to tint the layer with, where the specification spells
    /// one.
    pub tint: Option<(u8, u8, u8)>,
}

/// Resolves a specification to the file of its layer in `layer_folder` and
/// to its tint. A sentinel is never resolved: the caller skips it before.
pub fn resolve_layer(spec: &str, layer_folder: &str) -> (resolved: ResolvedLayer)
    requires
        !is_sentinel(spec@),
    ensures
        resolved.path@ == layer_path(layer_folder@, spec@),
        resolved.tint == layer_tint(spec@),
{
    let (name, tint_text) = split_layer_spec(spec);
    let path = force_png_path(layer_folder, name);
    let tint = match tint_text {
        Some(text) => match hex_to_rgb(text) {
            Ok(tint) => Some(tint),
            Err(_) => None,
        },
        None => None,
    };
    ResolvedLayer { path, tint }
}

/// A loaded layer as the contracts see it: the image as it is drawn, and
/// its rendering as gray levels with alpha, from which it is tinted.
pub struct LayerView {
    pub color: Raster,
    pub gray: Raster,
}

/// A loaded layer: an RGBA image together with its rendering as gray
/// levels with alpha, of the same size.
#[derive(Debug, PartialEq, Eq)]
pub struct LayerImage {
    color: RgbaImage,
    gray: GrayAlphaImage,
}

impl View for LayerImage {
    type V = LayerView;

    closed spec fn view(&self) -> LayerView {
        LayerView { color: self.color@, gray: self.gray@ }
    }
}

impl Clone for LayerImage {
    fn clone(&self) -> (copy: Self)
        ensures
            copy@ == self@,
    {
        proof {
            use_type_invariant(self);
        }
        LayerImage { color: self.color.clone(), gray: self.gray.clone() }
    }
}

impl LayerImage {
    #[verifier::type_invariant]
    spec fn well_formed(&self) -> bool {
        self.gray@.width == self.color@.width && self.gray@.height == self.color@.height
    }

    /// Takes a loaded image as a layer and renders it as gray levels, as
    /// the `image` crate does.
    pub fn new(color: RgbaImage) -> (layer: LayerImage)
        ensures
            layer@.color == color@,
            layer@.gray.width == color@.width,
            layer@.gray.height == color@.height,
            layer@.gray.has_channels(2),
    {
        let gray = color.to_gray_alpha();
        LayerImage { color, gray }
    }

    /// Puts a layer together from an image and a gray rendering of it.
    /// The two must be of the same size.
    pub fn from_renderings(color: RgbaImage, gray: GrayAlphaImage) -> (layer: Option<LayerImage>)
        ensures
            layer is Some <==> gray@.width == color@.width && gray@.height == color@.height,
            layer matches Some(l) ==> l@ == (LayerView { color: color@, gray: gray@ }),
    {
        if color.width() == gray.width() && color.height() == gray.height() {
            Some(LayerImage { color, gray })
        } else {
            None
        }
    }

    /// The image as it is drawn where no tint applies.
    pub fn color(&self) -> (color: &RgbaImage)
        ensures
            color@ == self@.color,
    {
        &self.color
    }

    /// The gray levels and alpha from which the layer is tinted.
    pub fn gray(&self) -> (gray: &GrayAlphaImage)
        ensures
            gray@ == self@.gray,
            gray@.width == self@.color.width,
            gray@.height == self@.color.height,
    {
        proof {
            use_type_invariant(self);
        }
        &self.gray
    }
}

/// One entry of a layer stack: a specification, and the layer that was
/// loaded for it, if one could be.
pub struct LayerEntry {
    pub spec: Seq<char>,
    pub image: Option<LayerView>,
}

/// The layers of a list of loaded layers as the contracts see them.
pub open spec fn loaded_views(loaded: Seq<Option<LayerImage>>) -> Seq<Option<LayerView>> {
    Seq::new(
        loaded.len(),
        |i: int|
            match loaded[i] {
                Some(layer) => Some(layer@),
                None => None,
            },
    )
}

/// The stack that a list of specifications and a list of loaded layers
/// describe: one entry for each specification, with the layer at the same
/// place in `loaded`. A specification without such a place has no layer.
pub open spec fn layer_entries(specs: Seq<Seq<char>>, loaded: Seq<Option<LayerView>>) -> Seq<
    LayerEntry,
> {
    Seq::new(
        specs.len(),
        |i: int|
            LayerEntry {
                spec: specs[i],
                image: if i < loaded.len() {
                    loaded[i]
                } else {
                    None
                },
            },
    )
}

/// The image that is drawn for a layer: the layer as it is, or, where a
/// tint applies, its gray rendering tinted.
pub open spec fn prepared_layer(
    layer: LayerView,
    tint: Option<(u8, u8, u8)>,
    mode: TintMode,
) -> Raster {
    match tint {
        Some(rgb) => tinted(layer.gray, rgb, mode),
        None => layer.color,
    }
}

/// The canvas after one entry: unchanged by a sentinel and by a layer that
/// could not be loaded, drawn over by any other layer.
pub open spec fn with_layer(canvas: Raster, entry: LayerEntry, mode: TintMode) -> Raster {
    if is_sentinel(entry.spec) {
        canvas
    } else {
        match entry.image {
            Some(image) => canvas.drawn_over_by(
                prepared_layer(image, layer_tint(entry.spec), mode),
            ),
            None => canvas,
        }
    }
}

/// Whether an entry counts as unresolved: it names a layer, and no image
/// could be loaded for it.
pub open spec fn is_unresolved(entry: LayerEntry) -> bool {
    !is_sentinel(entry.spec) && entry.image is None
}

/// The canvas after a stack of entries, drawn in the order of the list:
/// each layer over what the earlier ones left.
pub open spec fn stacked(canvas: Raster, entries: Seq<LayerEntry>, mode: TintMode) -> Raster
    decreases entries.len(),
{
    if entries.len() == 0 {
        canvas
    } else {
        with_layer(stacked(canvas, entries.drop_last(), mode), entries.last(), mode)
    }
}

/// The files of the unresolved entries of a stack, in the order of the
/// list.
pub open spec fn unresolved_paths(layer_folder: Seq<char>, entries: Seq<LayerEntry>) -> Seq<
    Seq<char>,
>
    decreases entries.len(),
{
    if entries.len() == 0 {
        Seq::empty()
    } else {
        let earlier = unresolved_paths(layer_folder, entries.drop_last());
        if is_unresolved(entries.last()) {
            earlier.push(layer_path(layer_folder, entries.last().spec))
        } else {
            earlier
        }
    }
}

/// Draws one loaded layer onto the canvas: its gray rendering tinted
/// where `tint` names a color, the layer as it is otherwise.
pub fn draw_layer(
    canvas: &mut RgbaImage,
    layer: &LayerImage,
    tint: Option<(u8, u8, u8)>,
    mode: TintMode,
)
    ensures
        final(canvas)@ == old(canvas)@.drawn_over_by(prepared_layer(layer@, tint, mode)),
{
    match tint {
        Some(rgb) => {
            let colored = colorize_with(layer.gray(), rgb, mode);
            canvas.overlay(&colored);
        },
        None => {
            canvas.overlay(layer.color());
        },
    }
}

/// Applies the layers that `layers` names onto `input_image`, in the order
/// of the list, and returns the files of the layers that could not be
/// loaded.
///
/// `loaded` holds, at the place of each specification, the layer that was
/// loaded from the file that `resolve_layer` gives for it in
/// `layer_folder`, or `None` where that failed; a specification beyond the
/// end of `loaded` counts as not loaded. A sentinel is skipped whatever
/// stands at its place. A layer that could not be loaded leaves the canvas
/// as it was and does not keep the later layers from being drawn. A layer
/// whose tint text spells no color is drawn untinted.
pub fn stack_layers(
    input_image: &mut RgbaImage,
    layer_folder: &str,
    layers: &Vec<String>,
    loaded: &Vec<Option<LayerImage>>,
    mode: TintMode,
) -> (missing_layers: Vec<String>)
    ensures
        final(input_image)@ == stacked(
            old(input_image)@,
            layer_entries(layers.deep_view(), loaded_views(loaded@)),
            mode,
        ),
        missing_layers.deep_view() == unresolved_paths(
            layer_folder@,
            layer_entries(layers.deep_view(), loaded_views(loaded@)),
        ),
{
    let ghost entries = layer_entries(layers.deep_view(), loaded_views(loaded@));
    let ghost start = input_image@;
    let mut missing_layers: Vec<String> = Vec::new();
    let mut i: usize = 0;
    while i < layers.len()
        invariant
            i <= layers.len(),
            entries == layer_entries(layers.deep_view(), loaded_views(loaded@)),
            input_image@ == stacked(start, entries.take(i as int), mode),
            missing_layers.deep_view() == unresolved_paths(layer_folder@, entries.take(i as int)),
        decreases layers.len() - i,
    {
        let spec = layers[i].as_str();
        assert(entries.take(i + 1).drop_last() =~= entries.take(i as int));
        if !is_sentinel_spec(spec) {
            let resolved = resolve_layer(spec, layer_folder);
            if i < loaded.len() {
                match &loaded[i] {
                    Some(layer) => {
                        draw_layer(input_image, layer, resolved.tint, mode);
                    },
                    None => {
                        missing_layers.push(resolved.path);
                    },
                }
            } else {
                missing_layers.push(resolved.path);
            }
        }
        i += 1;
    }
    assert(entries.take(i as int) =~= entries);
    missing_layers
}

/// Stacking a list of entries is stacking its first part and then, on what
/// that left, the rest.
pub proof fn lemma_stacked_concat(
    canvas: Raster,
    first: Seq<LayerEntry>,
    second: Seq<LayerEntry>,
    mode: TintMode,
)
    ensures
        stacked(canvas, first + second, mode) == stacked(
            stacked(canvas, first, mode),
            second,
            mode,
        ),
    decreases second.len(),
{
    if second.len() > 0 {
        assert((first + second).drop_last() =~= first + second.drop_last());
        lemma_stacked_concat(canvas, first, second.drop_last(), mode);
    }
}

/// Stacking never changes the size of the canvas, whatever the sizes of the
/// layers.
pub proof fn lemma_stacking_keeps_size(canvas: Raster, entries: Seq<LayerEntry>, mode: TintMode)
    ensures
        stacked(canvas, entries, mode).width == canvas.width,
        stacked(canvas, entries, mode).height == canvas.height,
    decreases entries.len(),
{
    if entries.len() > 0 {
        lemma_stacking_keeps_size(canvas, entries.drop_last(), mode);
    }
}

/// The unresolved files of a list of entries are those of its first part
/// followed by those of the rest.
pub proof fn lemma_unresolved_concat(
    layer_folder: Seq<char>,
    first: Seq<LayerEntry>,
    second: Seq<LayerEntry>,
)
    ensures
        unresolved_paths(layer_folder, first + second) == unresolved_paths(layer_folder, first)
            + unresolved_paths(layer_folder, second),
    decreases second.len(),
{
    if second.len() > 0 {
        assert((first + second).drop_last() =~= first + second.drop_last());
        lemma_unresolved_concat(layer_folder, first, second.drop_last());
    }
}

/// A stack of one entry is that entry applied to the canvas, and it leaves
/// the file of that entry unresolved exactly when the entry is.
pub proof fn lemma_single_entry(
    canvas: Raster,
    layer_folder: Seq<char>,
    entry: LayerEntry,
    mode: TintMode,
)
    ensures
        stacked(canvas, seq![entry], mode) == with_layer(canvas, entry, mode),
        unresolved_paths(layer_folder, seq![entry]) == if is_unresolved(entry) {
            seq![layer_path(layer_folder, entry.spec)]
        } else {
            Seq::<Seq<char>>::empty()
        },
{
    let one = seq![entry];
    assert(stacked(canvas, one.drop_last(), mode) == canvas);
    assert(unresolved_paths(layer_folder, one.drop_last()) =~= Seq::<Seq<char>>::empty());
}

/// A sentinel anywhere in a stack changes nothing: with it or without it,
/// whatever image stands at its place, the canvas comes out the same and
/// so does the list of unresolved files.
pub proof fn lemma_sentinel_changes_nothing(
    canvas: Raster,
    layer_folder: Seq<char>,
    before: Seq<LayerEntry>,
    sentinel: LayerEntry,
    after: Seq<LayerEntry>,
    mode: TintMode,
)
    requires
        is_sentinel(sentinel.spec),
    ensures
        stacked(canvas, before + seq![sentinel] + after, mode) == stacked(
            canvas,
            before + after,
            mode,
        ),
        unresolved_paths(layer_folder, before + seq![sentinel] + after) == unresolved_paths(
            layer_folder,
            before + after,
        ),
{
    let reached = stacked(canvas, before, mode);
    lemma_single_entry(reached, layer_folder, sentinel, mode);
    lemma_stacked_concat(canvas, before, seq![sentinel], mode);
    lemma_stacked_concat(canvas, before + seq![sentinel], after, mode);
    lemma_stacked_concat(canvas, before, after, mode);
    lemma_unresolved_concat(layer_folder, before, seq![sentinel]);
    lemma_unresolved_concat(layer_folder, before + seq![sentinel], after);
    lemma_unresolved_concat(layer_folder, before, after);
}

/// Layers are drawn in the order of the list, later ones over earlier
/// ones: two layers that were loaded leave the canvas drawn over by the
/// first and then, on top of that, by the second.
pub proof fn lemma_layers_draw_in_order(
    canvas: Raster,
    first: LayerEntry,
    second: LayerEntry,
    mode: TintMode,
)
    requires
        !is_sentinel(first.spec),
        !is_sentinel(second.spec),
        first.image is Some,
        second.image is Some,
    ensures
        stacked(canvas, seq![first, second], mode) == canvas.drawn_over_by(
            prepared_layer(first.image->Some_0, layer_tint(first.spec), mode),
        ).drawn_over_by(prepared_layer(second.image->Some_0, layer_tint(second.spec), mode)),
{
    let folder = Seq::<char>::empty();
    assert(seq![first, second] =~= seq![first] + seq![second]);
    lemma_stacked_concat(canvas, seq![first], seq![second], mode);
    lemma_single_entry(canvas, folder, first, mode);
    lemma_single_entry(stacked(canvas, seq![first], mode), folder, second, mode);
}

/// A layer that could not be loaded touches nothing but the list of
/// unresolved files: the canvas comes out as if the layer had not been
/// named, and the list gains exactly the file of that layer, at its place
/// among the others.
pub proof fn lemma_missing_layer_is_isolated(
    canvas: Raster,
    layer_folder: Seq<char>,
    before: Seq<LayerEntry>,
    missing: LayerEntry,
    after: Seq<LayerEntry>,
    mode: TintMode,
)
    requires
        is_unresolved(missing),
    ensures
        stacked(canvas, before + seq![missing] + after, mode) == stacked(
            canvas,
            before + after,
            mode,
        ),
        unresolved_paths(layer_folder, before + seq![missing] + after) == unresolved_paths(
            layer_folder,
            before,
        ) + seq![layer_path(layer_folder, missing.spec)] + unresolved_paths(layer_folder, after),
{
    let reached = stacked(canvas, before, mode);
    lemma_single_entry(reached, layer_folder, missing, mode);
    lemma_stacked_concat(canvas, before, seq![missing], mode);
    lemma_stacked_concat(canvas, before + seq![missing], after, mode);
    lemma_stacked_concat(canvas, before, after, mode);
    lemma_unresolved_concat(layer_folder, before, seq![missing]);
    lemma_unresolved_concat(layer_folder, before + seq![missing], after);
}

} // verus!
