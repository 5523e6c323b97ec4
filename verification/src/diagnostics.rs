//! The diagnostics of a run: the assets that were skipped and the layer
//! files that were missing, collected from tasks that finish in any order.

use vstd::multiset::Multiset;
use vstd::prelude::*;

verus! {

/// What a task reports when something could not be opened.
#[derive(Debug, Clone, PartialEq, Eq)]
pub enum Diagnostic {
    /// The base image of the asset could not be opened; nothing was
    /// composed.
    Skipped { asset_id: String },
    /// The asset was composed without these layer files, which could not
    /// be opened.
    MissingLayers { asset_id: String, paths: Vec<String> },
}

/// A diagnostic as the contracts see it.
pub enum DiagnosticView {
    Skipped { asset_id: Seq<char> },
    MissingLayers { asset_id: Seq<char>, paths: Seq<Seq<char>> },
}

impl View for Diagnostic {
    type V = DiagnosticView;

    open spec fn view(&self) -> DiagnosticView {
        match self {
            Diagnostic::Skipped { asset_id } => DiagnosticView::Skipped { asset_id: asset_id@ },
            Diagnostic::MissingLayers { asset_id, paths } => DiagnosticView::MissingLayers {
                asset_id: asset_id@,
                paths: paths.deep_view(),
            },
        }
    }
}

/// The layer files that one asset was composed without.
#[derive(Debug, Clone, PartialEq, Eq)]
pub struct MissingLayers {
    pub asset_id: String,
    pub paths: Vec<String>,
}

/// The missing layers of one asset as the contracts see them.
pub struct MissingLayersView {
    pub asset_id: Seq<char>,
    pub paths: Seq<Seq<char>>,
}

impl View for MissingLayers {
    type V = MissingLayersView;

    open spec fn view(&self) -> MissingLayersView {
        MissingLayersView { asset_id: self.asset_id@, paths: self.paths.deep_view() }
    }
}

/// The entries of a list of missing-layer groups as the contracts see
/// them.
pub open spec fn missing_views(entries: Seq<MissingLayers>) -> Seq<MissingLayersView> {
    Seq::new(entries.len(), |i: int| entries[i]@)
}

/// The two collections of a run. Entries are only ever added. The order
/// in which they are kept is the order in which tasks happened to report
/// and means nothing: a log is what it holds, each entry as often as it
/// was recorded.
#[derive(Debug)]
pub struct DiagnosticsLog {
    skipped_assets: Vec<String>,
    missing_layers: Vec<MissingLayers>,
}

/// A log as the contracts see it: two collections without order.
pub struct DiagnosticsLogView {
    /// The assets whose base image could not be opened.
    pub skipped_assets: Multiset<Seq<char>>,
    /// For each asset that lacked layers, one entry with all the layer
    /// files that could not be opened for it.
    pub missing_layers: Multiset<MissingLayersView>,
}

impl View for DiagnosticsLog {
    type V = DiagnosticsLogView;

    closed spec fn view(&self) -> DiagnosticsLogView {
        DiagnosticsLogView {
            skipped_assets: self.skipped_assets.deep_view().to_multiset(),
            missing_layers: missing_views(self.missing_layers@).to_multiset(),
        }
    }
}

impl DiagnosticsLogView {
    /// The log without entries.
    pub open spec fn empty() -> DiagnosticsLogView {
        DiagnosticsLogView { skipped_assets: Multiset::empty(), missing_layers: Multiset::empty() }
    }

    /// The log after one more diagnostic: a skipped asset joins the
    /// skipped assets, a group of missing layers joins the missing layers,
    /// and the other collection stays as it is.
    pub open spec fn recorded(self, diagnostic: DiagnosticView) -> DiagnosticsLogView {
        match diagnostic {
            DiagnosticView::Skipped { asset_id } => DiagnosticsLogView {
                skipped_assets: self.skipped_assets.insert(asset_id),
                missing_layers: self.missing_layers,
            },
            DiagnosticView::MissingLayers { asset_id, paths } => DiagnosticsLogView {
                skipped_assets: self.skipped_assets,
                missing_layers: self.missing_layers.insert(MissingLayersView { asset_id, paths }),
            },
        }
    }

    /// The log after a run of diagnostics, recorded in the order of the
    /// list.
    pub open spec fn recorded_all(self, diagnostics: Seq<DiagnosticView>) -> DiagnosticsLogView
        decreases diagnostics.len(),
    {
        if diagnostics.len() == 0 {
            self
        } else {
            self.recorded_all(diagnostics.drop_last()).recorded(diagnostics.last())
        }
    }
}

impl DiagnosticsLog {
    /// A log without entries.
    pub fn new() -> (log: DiagnosticsLog)
        ensures
            log@ == DiagnosticsLogView::empty(),
    {
        let log = DiagnosticsLog { skipped_assets: Vec::new(), missing_layers: Vec::new() };
        proof {
            vstd::seq_lib::to_multiset_len(log.skipped_assets.deep_view());
            vstd::seq_lib::to_multiset_len(missing_views(log.missing_layers@));
            assert(log@.skipped_assets =~= Multiset::empty());
            assert(log@.missing_layers =~= Multiset::empty());
        }
        log
    }

    /// Adds one diagnostic to the collection it belongs to.
    pub fn record(&mut self, diagnostic: Diagnostic)
        ensures
            final(self)@ == old(self)@.recorded(diagnostic@),
    {
        broadcast use vstd::seq_lib::group_to_multiset_ensures;

        match diagnostic {
            Diagnostic::Skipped { asset_id } => {
                self.skipped_assets.push(asset_id);
                let ghost before = old(self).skipped_assets.deep_view();
                assert(self.skipped_assets.deep_view() =~= before.push(asset_id@));
            },
            Diagnostic::MissingLayers { asset_id, paths } => {
                let ghost entry = MissingLayersView {
                    asset_id: asset_id@,
                    paths: paths.deep_view(),
                };
                self.missing_layers.push(MissingLayers { asset_id, paths });
                assert(missing_views(self.missing_layers@) =~= missing_views(
                    old(self).missing_layers@,
                ).push(entry));
            },
        }
    }

    /// The assets whose base image could not be opened, in the order in
    /// which they were recorded.
    pub fn skipped_assets(&self) -> (assets: &Vec<String>)
        ensures
            assets.deep_view().to_multiset() == self@.skipped_assets,
    {
        &self.skipped_assets
    }

    /// The groups of missing layers, one for each asset that lacked
    /// layers, in the order in which they were recorded.
    pub fn missing_layers(&self) -> (entries: &Vec<MissingLayers>)
        ensures
            missing_views(entries@).to_multiset() == self@.missing_layers,
    {
        &self.missing_layers
    }
}

/// What one diagnostic adds to the skipped assets.
pub open spec fn skipped_part(diagnostic: DiagnosticView) -> Multiset<Seq<char>> {
    match diagnostic {
        DiagnosticView::Skipped { asset_id } => Multiset::singleton(asset_id),
        DiagnosticView::MissingLayers { .. } => Multiset::empty(),
    }
}

/// What one diagnostic adds to the missing layers.
pub open spec fn missing_part(diagnostic: DiagnosticView) -> Multiset<MissingLayersView> {
    match diagnostic {
        DiagnosticView::Skipped { .. } => Multiset::empty(),
        DiagnosticView::MissingLayers { asset_id, paths } => Multiset::singleton(
            MissingLayersView { asset_id, paths },
        ),
    }
}

/// What the items of a list add up to, each giving its part.
pub open spec fn gathered<A, B>(items: Seq<A>, part: spec_fn(A) -> Multiset<B>) -> Multiset<B>
    decreases items.len(),
{
    if items.len() == 0 {
        Multiset::empty()
    } else {
        gathered(items.drop_last(), part).add(part(items.last()))
    }
}

/// Taking one item out of a list takes its part out of what the list
/// gathers.
proof fn lemma_gathered_remove<A, B>(items: Seq<A>, part: spec_fn(A) -> Multiset<B>, at: int)
    requires
        0 <= at < items.len(),
    ensures
        gathered(items, part) == gathered(items.remove(at), part).add(part(items[at])),
    decreases items.len(),
{
    if at < items.len() - 1 {
        assert(items.remove(at).drop_last() =~= items.drop_last().remove(at));
        lemma_gathered_remove(items.drop_last(), part, at);
    }
}

/// What a list gathers depends on its items, not on their order.
pub proof fn lemma_gathered_any_order<A, B>(
    one: Seq<A>,
    other: Seq<A>,
    part: spec_fn(A) -> Multiset<B>,
)
    requires
        one.to_multiset() == other.to_multiset(),
    ensures
        gathered(one, part) == gathered(other, part),
    decreases one.len(),
{
    broadcast use vstd::seq_lib::group_to_multiset_ensures;

    if one.len() == 0 {
        vstd::seq_lib::to_multiset_len(one);
        vstd::seq_lib::to_multiset_len(other);
    } else {
        let item = one.last();
        assert(one.drop_last().push(item) =~= one);
        assert(one.to_multiset().count(item) > 0);
        let at = other.index_of(item);
        assert(one.drop_last().to_multiset() =~= one.to_multiset().remove(item));
        lemma_gathered_any_order(one.drop_last(), other.remove(at), part);
        lemma_gathered_remove(other, part, at);
    }
}

/// A log after a run of diagnostics holds what it held before and what
/// each diagnostic added.
pub proof fn lemma_recorded_all_gathers(log: DiagnosticsLogView, diagnostics: Seq<DiagnosticView>)
    ensures
        log.recorded_all(diagnostics).skipped_assets == log.skipped_assets.add(
            gathered(diagnostics, |d: DiagnosticView| skipped_part(d)),
        ),
        log.recorded_all(diagnostics).missing_layers == log.missing_layers.add(
            gathered(diagnostics, |d: DiagnosticView| missing_part(d)),
        ),
    decreases diagnostics.len(),
{
    if diagnostics.len() > 0 {
        lemma_recorded_all_gathers(log, diagnostics.drop_last());
    }
}

/// The order in which tasks report does not show in the log: two runs
/// that record the same diagnostics, in whatever order each, leave the
/// same log.
pub proof fn lemma_recording_order_is_immaterial(
    log: DiagnosticsLogView,
    one: Seq<DiagnosticView>,
    other: Seq<DiagnosticView>,
)
    requires
        one.to_multiset() == other.to_multiset(),
    ensures
        log.recorded_all(one) == log.recorded_all(other),
{
    lemma_recorded_all_gathers(log, one);
    lemma_recorded_all_gathers(log, other);
    lemma_gathered_any_order(one, other, |d: DiagnosticView| skipped_part(d));
    lemma_gathered_any_order(one, other, |d: DiagnosticView| missing_part(d));
}

} // verus!
