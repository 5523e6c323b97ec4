//! A batch of composition tasks: the tasks that a configuration asks for.
//!
//! Tasks are independent of each other: each is built once, from one asset
//! of one category, and none needs what another one gives.

use crate::compose::{AssetTask, AssetTaskView};
use crate::paths::{full_path, resolve_full_path};
use vstd::prelude::*;

verus! {

/// One asset of a category in the configuration, with its layers.
#[derive(Debug, Clone, PartialEq, Eq)]
pub struct AssetEntry {
    pub asset_id: String,
    pub layer_specs: Vec<String>,
}

/// One category of the configuration, with its assets.
#[derive(Debug, Clone, PartialEq, Eq)]
pub struct Category {
    pub element_type: String,
    pub assets: Vec<AssetEntry>,
}

/// The layer folder of one category.
#[derive(Debug, Clone, PartialEq, Eq)]
pub struct FolderEntry {
    pub element_type: String,
    pub folder: String,
}

/// An asset entry as the contracts see it.
pub struct AssetEntryView {
    pub asset_id: Seq<char>,
    pub layer_specs: Seq<Seq<char>>,
}

/// A category as the contracts see it.
pub struct CategoryView {
    pub element_type: Seq<char>,
    pub assets: Seq<AssetEntryView>,
}

/// A folder entry as the contracts see it.
pub struct FolderEntryView {
    pub element_type: Seq<char>,
    pub folder: Seq<char>,
}

impl View for AssetEntry {
    type V = AssetEntryView;

    open spec fn view(&self) -> AssetEntryView {
        AssetEntryView { asset_id: self.asset_id@, layer_specs: self.layer_specs.deep_view() }
    }
}

impl View for Category {
    type V = CategoryView;

    open spec fn view(&self) -> CategoryView {
        CategoryView {
            element_type: self.element_type@,
            assets: Seq::new(self.assets@.len(), |i: int| self.assets@[i]@),
        }
    }
}

impl View for FolderEntry {
    type V = FolderEntryView;

    open spec fn view(&self) -> FolderEntryView {
        FolderEntryView { element_type: self.element_type@, folder: self.folder@ }
    }
}

/// The categories of a configuration as the contracts see them.
pub open spec fn category_views(config: Seq<Category>) -> Seq<CategoryView> {
    Seq::new(config.len(), |i: int| config[i]@)
}

/// The folder entries as the contracts see them.
pub open spec fn folder_views(folders: Seq<FolderEntry>) -> Seq<FolderEntryView> {
    Seq::new(folders.len(), |i: int| folders[i]@)
}

/// The tasks as the contracts see them.
pub open spec fn task_views(tasks: Seq<AssetTask>) -> Seq<AssetTaskView> {
    Seq::new(tasks.len(), |i: int| tasks[i]@)
}

/// The layer folder of a category: that of the first entry for it, if
/// there is one.
pub open spec fn folder_for(folders: Seq<FolderEntryView>, element_type: Seq<char>) -> Option<
    Seq<char>,
>
    decreases folders.len(),
{
    if folders.len() == 0 {
        None
    } else if folders.first().element_type == element_type {
        Some(folders.first().folder)
    } else {
        folder_for(folders.drop_first(), element_type)
    }
}

/// The task of one asset of a category.
pub open spec fn task_for(
    category: CategoryView,
    asset: AssetEntryView,
    folders: Seq<FolderEntryView>,
) -> AssetTaskView {
    AssetTaskView {
        element_type: category.element_type,
        asset_id: asset.asset_id,
        layer_specs: asset.layer_specs,
        layer_folder: folder_for(folders, category.element_type),
    }
}

/// The tasks of one category: one for each of its assets, in their order.
pub open spec fn category_tasks(category: CategoryView, folders: Seq<FolderEntryView>) -> Seq<
    AssetTaskView,
> {
    Seq::new(category.assets.len(), |i: int| task_for(category, category.assets[i], folders))
}

/// The tasks of a configuration: those of each category, one category
/// after the other.
pub open spec fn planned_tasks(config: Seq<CategoryView>, folders: Seq<FolderEntryView>) -> Seq<
    AssetTaskView,
>
    decreases config.len(),
{
    if config.len() == 0 {
        Seq::empty()
    } else {
        planned_tasks(config.drop_last(), folders) + category_tasks(config.last(), folders)
    }
}

/// A copy of a list of strings.
pub fn clone_strings(strings: &Vec<String>) -> (copy: Vec<String>)
    ensures
        copy.deep_view() == strings.deep_view(),
{
    let mut copy: Vec<String> = Vec::new();
    let mut i: usize = 0;
    while i < strings.len()
        invariant
            i <= strings.len(),
            copy@.len() == i,
            forall|k: int| 0 <= k < i ==> copy@[k]@ == strings@[k]@,
        decreases strings.len() - i,
    {
        copy.push(strings[i].clone());
        i += 1;
    }
    copy
}

/// Looks up the layer folder of a category.
pub fn find_folder(folders: &Vec<FolderEntry>, element_type: &String) -> (folder: Option<String>)
    ensures
        match folder {
            Some(f) => folder_for(folder_views(folders@), element_type@) == Some(f@),
            None => folder_for(folder_views(folders@), element_type@) is None,
        },
{
    let ghost all = folder_views(folders@);
    let mut i: usize = 0;
    assert(all.skip(0) =~= all);
    while i < folders.len()
        invariant
            i <= folders.len(),
            all == folder_views(folders@),
            folder_for(all, element_type@) == folder_for(all.skip(i as int), element_type@),
        decreases folders.len() - i,
    {
        let ghost rest = all.skip(i as int);
        assert(rest.drop_first() =~= all.skip(i + 1));
        if folders[i].element_type == *element_type {
            return Some(folders[i].folder.clone());
        }
        i += 1;
    }
    None
}

/// Builds the tasks of a configuration: one for each asset of each
/// category, with the layer folder of its category where `folders` names
/// one. No asset is left out for want of a folder: its task stacks no
/// layers.
pub fn build_tasks(config: &Vec<Category>, folders: &Vec<FolderEntry>) -> (tasks: Vec<AssetTask>)
    ensures
        task_views(tasks@) == planned_tasks(category_views(config@), folder_views(folders@)),
{
    let ghost categories = category_views(config@);
    let ghost lookup = folder_views(folders@);
    let mut tasks: Vec<AssetTask> = Vec::new();
    let mut c: usize = 0;
    while c < config.len()
        invariant
            c <= config.len(),
            categories == category_views(config@),
            lookup == folder_views(folders@),
            task_views(tasks@) == planned_tasks(categories.take(c as int), lookup),
        decreases config.len() - c,
    {
        let category = &config[c];
        let folder = find_folder(folders, &category.element_type);
        let ghost done = task_views(tasks@);
        let ghost wanted = category_tasks(category@, lookup);
        let mut a: usize = 0;
        while a < category.assets.len()
            invariant
                a <= category.assets.len(),
                lookup == folder_views(folders@),
                wanted == category_tasks(category@, lookup),
                match folder {
                    Some(f) => folder_for(lookup, category.element_type@) == Some(f@),
                    None => folder_for(lookup, category.element_type@) is None,
                },
                task_views(tasks@) == done + wanted.take(a as int),
            decreases category.assets.len() - a,
        {
            let asset = &category.assets[a];
            let task = AssetTask {
                element_type: category.element_type.clone(),
                asset_id: asset.asset_id.clone(),
                layer_specs: clone_strings(&asset.layer_specs),
                layer_folder: folder.clone(),
            };
            tasks.push(task);
            assert(done + wanted.take(a + 1) =~= (done + wanted.take(a as int)).push(
                wanted[a as int],
            ));
            a += 1;
        }
        proof {
            assert(categories.take(c + 1).drop_last() =~= categories.take(c as int));
        }
        c += 1;
    }
    assert(categories.take(c as int) =~= categories);
    tasks
}

/// The folder entries with each folder resolved to its full path.
pub open spec fn resolved_folders(
    folders: Seq<FolderEntryView>,
    home: Option<Seq<char>>,
    working_dir: Option<Seq<char>>,
) -> Seq<FolderEntryView> {
    Seq::new(
        folders.len(),
        |i: int|
            FolderEntryView {
                element_type: folders[i].element_type,
                folder: full_path(folders[i].folder, home, working_dir),
            },
    )
}

/// Resolves the layer folder of each category to a full path, for a run
/// that takes its folders as a user wrote them: with a home mark, or seen
/// from the working directory.
pub fn resolve_folders(
    folders: &Vec<FolderEntry>,
    home: Option<&str>,
    working_dir: Option<&str>,
) -> (resolved: Vec<FolderEntry>)
    ensures
        folder_views(resolved@) == resolved_folders(
            folder_views(folders@),
            match home {
                Some(dir) => Some(dir@),
                None => None,
            },
            match working_dir {
                Some(dir) => Some(dir@),
                None => None,
            },
        ),
{
    let mut resolved: Vec<FolderEntry> = Vec::new();
    let mut i: usize = 0;
    while i < folders.len()
        invariant
            i <= folders.len(),
            resolved@.len() == i,
            forall|k: int|
                0 <= k < i ==> (#[trigger] resolved@[k])@ == (FolderEntryView {
                    element_type: folders@[k].element_type@,
                    folder: full_path(
                        folders@[k].folder@,
                        match home {
                            Some(dir) => Some(dir@),
                            None => None,
                        },
                        match working_dir {
                            Some(dir) => Some(dir@),
                            None => None,
                        },
                    ),
                }),
        decreases folders.len() - i,
    {
        let entry = &folders[i];
        resolved.push(
            FolderEntry {
                element_type: entry.element_type.clone(),
                folder: resolve_full_path(entry.folder.as_str(), home, working_dir),
            },
        );
        i += 1;
    }
    resolved
}

/// The number of assets of a configuration, over all its categories.
pub open spec fn asset_count(config: Seq<CategoryView>) -> nat
    decreases config.len(),
{
    if config.len() == 0 {
        0
    } else {
        asset_count(config.drop_last()) + config.last().assets.len()
    }
}

/// Planning is total: there are as many tasks as the configuration has
/// assets, and every asset of every category has its task among them,
/// whether a folder is named for its category or not.
pub proof fn lemma_every_asset_is_planned(
    config: Seq<CategoryView>,
    folders: Seq<FolderEntryView>,
    category: int,
    asset: int,
)
    requires
        0 <= category < config.len(),
        0 <= asset < config[category].assets.len(),
    ensures
        planned_tasks(config, folders).len() == asset_count(config),
        planned_tasks(config, folders).contains(
            task_for(config[category], config[category].assets[asset], folders),
        ),
    decreases config.len(),
{
    lemma_planned_count(config, folders);
    let earlier = planned_tasks(config.drop_last(), folders);
    let last = category_tasks(config.last(), folders);
    let wanted = task_for(config[category], config[category].assets[asset], folders);
    if category == config.len() - 1 {
        assert((earlier + last)[earlier.len() + asset] == wanted);
    } else {
        lemma_every_asset_is_planned(config.drop_last(), folders, category, asset);
        let at = choose|i: int| 0 <= i < earlier.len() && earlier[i] == wanted;
        assert((earlier + last)[at] == wanted);
    }
}

/// There are as many tasks as the configuration has assets.
pub proof fn lemma_planned_count(config: Seq<CategoryView>, folders: Seq<FolderEntryView>)
    ensures
        planned_tasks(config, folders).len() == asset_count(config),
    decreases config.len(),
{
    if config.len() > 0 {
        lemma_planned_count(config.drop_last(), folders);
    }
}

} // verus!
